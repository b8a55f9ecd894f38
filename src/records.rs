use vstd::prelude::*;

use crate::err::{internal_for, no_such_tag, no_text_for, Error, ErrorKind};
use crate::metadata::{Format, Header, HeaderView, Record};
use crate::time::{utc_time_of, Timestamp};
use crate::xml::{all_tagged, child_text, first_tagged, NodeView, XmlDoc};

verus! {

/// The texts of those nodes that hold text, in order.
pub open spec fn present_texts(d: Seq<NodeView>, cs: Seq<usize>) -> Seq<Seq<char>>
    decreases cs.len(),
{
    if cs.len() == 0 {
        seq![]
    } else {
        let rest = present_texts(d, cs.drop_last());
        match d[cs.last() as int].text {
            Some(t) => rest.push(t),
            None => rest,
        }
    }
}

/// A time given as the text of the first child named `tag`.
pub open spec fn child_time(d: Seq<NodeView>, i: int, tag: Seq<char>) -> Result<Timestamp, Seq<char>> {
    match child_text(d, i, tag) {
        Ok(t) => match utc_time_of(t) {
            Some(p) => Ok(Timestamp { seconds: p.0, nanos: p.1 }),
            None => Err(no_text_for(tag)),
        },
        Err(m) => Err(m),
    }
}

/// The header held by node `h`: identifier and datestamp are required.
pub open spec fn header_of(d: Seq<NodeView>, h: usize) -> Result<HeaderView, Seq<char>> {
    match child_text(d, h as int, "identifier"@) {
        Err(m) => Err(m),
        Ok(identifier) => match child_time(d, h as int, "datestamp"@) {
            Err(m) => Err(m),
            Ok(datestamp) => Ok(
                HeaderView {
                    identifier,
                    datestamp,
                    set_spec: present_texts(d, all_tagged(d, d[h as int].children, "setSpec"@)),
                },
            ),
        },
    }
}

/// The record held by node `r`: a header and a metadata section, both required.
pub open spec fn record_of<F: Format>(d: Seq<NodeView>, r: usize) -> Result<
    (HeaderView, <F::Metadata as View>::V),
    Seq<char>,
> {
    match first_tagged(d, d[r as int].children, "header"@) {
        None => Err(no_such_tag("header"@)),
        Some(h) => match header_of(d, h) {
            Err(m) => Err(m),
            Ok(hv) => match first_tagged(d, d[r as int].children, "metadata"@) {
                None => Err(no_such_tag("metadata"@)),
                Some(m) => match F::metadata_of(d, m) {
                    Err(msg) => Err(msg),
                    Ok(mv) => Ok((hv, mv)),
                },
            },
        },
    }
}

/// The records held by the nodes `rs`, in order; the first failure where any is malformed.
pub open spec fn records_of<F: Format>(d: Seq<NodeView>, rs: Seq<usize>) -> Result<
    Seq<(HeaderView, <F::Metadata as View>::V)>,
    Seq<char>,
>
    decreases rs.len(),
{
    if rs.len() == 0 {
        Ok(seq![])
    } else {
        match records_of::<F>(d, rs.drop_last()) {
            Err(m) => Err(m),
            Ok(v) => match record_of::<F>(d, rs.last()) {
                Err(m) => Err(m),
                Ok(x) => Ok(v.push(x)),
            },
        }
    }
}

pub open spec fn records_view<M: View>(s: Seq<Record<M>>) -> Seq<(HeaderView, M::V)> {
    s.map_values(|r: Record<M>| r@)
}

pub proof fn lemma_records_prefix_err<F: Format>(d: Seq<NodeView>, rs: Seq<usize>, k: int, m: Seq<char>)
    requires
        0 <= k <= rs.len(),
        records_of::<F>(d, rs.subrange(0, k)) == Err::<Seq<(HeaderView, <F::Metadata as View>::V)>, Seq<char>>(m),
    ensures
        records_of::<F>(d, rs) == Err::<Seq<(HeaderView, <F::Metadata as View>::V)>, Seq<char>>(m),
    decreases rs.len() - k,
{
    if k < rs.len() {
        assert(rs.subrange(0, k + 1).drop_last() =~= rs.subrange(0, k));
        lemma_records_prefix_err::<F>(d, rs, k + 1, m);
    } else {
        assert(rs.subrange(0, k) =~= rs);
    }
}

/// Reads a time from the text of the first child of `i` named `tag`.
pub fn find_child_time(doc: &XmlDoc, i: usize, tag: &str) -> (r: Result<Timestamp, Error>)
    requires
        doc.wf(),
        i < doc@.len(),
    ensures
        match child_time(doc@, i as int, tag@) {
            Ok(t) => r == Ok::<Timestamp, Error>(t),
            Err(m) => r matches Err(e) && e@ == (ErrorKind::Internal, m),
        },
{
    let text = doc.find_first_child_text(i, tag)?;
    match Timestamp::from_text(text.as_str()) {
        Some(t) => Ok(t),
        None => Err(internal_for("No text for: ", tag)),
    }
}

/// Reads the header held by node `h`.
pub fn parse_header(doc: &XmlDoc, h: usize) -> (r: Result<Header, Error>)
    requires
        doc.wf(),
        h < doc@.len(),
    ensures
        match header_of(doc@, h) {
            Ok(v) => r matches Ok(x) && x@ == v,
            Err(m) => r matches Err(e) && e@ == (ErrorKind::Internal, m),
        },
{
    let identifier = doc.find_first_child_text(h, "identifier")?;
    let datestamp = find_child_time(doc, h, "datestamp")?;
    let ss = doc.children_tagged(h, "setSpec");
    let mut set_spec: Vec<String> = Vec::new();
    let mut k: usize = 0;
    while k < ss.len()
        invariant
            doc.wf(),
            forall|j: int| 0 <= j < ss@.len() ==> #[trigger] ss@[j] < doc@.len(),
            k <= ss@.len(),
            set_spec.deep_view() == present_texts(doc@, ss@.subrange(0, k as int)),
        decreases ss@.len() - k,
    {
        let ghost sub = ss@.subrange(0, k + 1);
        assert(sub.drop_last() =~= ss@.subrange(0, k as int));
        let ghost before = set_spec.deep_view();
        match &doc.node(ss[k]).text {
            Some(t) => {
                set_spec.push(t.clone());
                assert(set_spec.deep_view() =~= before.push(t@));
            },
            None => {},
        }
        k = k + 1;
    }
    assert(ss@.subrange(0, ss@.len() as int) =~= ss@);
    Ok(Header { identifier, datestamp, set_spec })
}

/// Reads the record held by node `r`.
pub fn parse_record<F: Format>(doc: &XmlDoc, r: usize) -> (res: Result<Record<F::Metadata>, Error>)
    requires
        doc.wf(),
        r < doc@.len(),
    ensures
        match record_of::<F>(doc@, r) {
            Ok(v) => res matches Ok(x) && x@ == v,
            Err(m) => res matches Err(e) && e@ == (ErrorKind::Internal, m),
        },
{
    let h = doc.find_first_child(r, "header")?;
    let header = parse_header(doc, h)?;
    let m = doc.find_first_child(r, "metadata")?;
    let metadata = F::parse_metadata(doc, m)?;
    Ok(Record { header, metadata })
}

/// Reads the records held by the nodes `rs`, in order, failing at the first
/// malformed one.
pub fn parse_records<F: Format>(doc: &XmlDoc, rs: &Vec<usize>) -> (res: Result<
    Vec<Record<F::Metadata>>,
    Error,
>)
    requires
        doc.wf(),
        forall|k: int| 0 <= k < rs@.len() ==> #[trigger] rs@[k] < doc@.len(),
    ensures
        match records_of::<F>(doc@, rs@) {
            Ok(v) => res matches Ok(x) && records_view(x@) == v,
            Err(m) => res matches Err(e) && e@ == (ErrorKind::Internal, m),
        },
{
    let mut out: Vec<Record<F::Metadata>> = Vec::new();
    let mut k: usize = 0;
    assert(rs@.subrange(0, 0) =~= Seq::<usize>::empty());
    assert(records_view(out@) =~= Seq::<(HeaderView, <F::Metadata as View>::V)>::empty());
    while k < rs.len()
        invariant
            doc.wf(),
            forall|j: int| 0 <= j < rs@.len() ==> #[trigger] rs@[j] < doc@.len(),
            k <= rs@.len(),
            records_of::<F>(doc@, rs@.subrange(0, k as int)) == Ok::<
                Seq<(HeaderView, <F::Metadata as View>::V)>,
                Seq<char>,
            >(records_view(out@)),
        decreases rs@.len() - k,
    {
        let ghost sub = rs@.subrange(0, k + 1);
        assert(sub.drop_last() =~= rs@.subrange(0, k as int));
        match parse_record::<F>(doc, rs[k]) {
            Ok(x) => {
                let ghost before = out@;
                out.push(x);
                assert(records_view(out@) =~= records_view(before).push(x@));
            },
            Err(e) => {
                proof {
                    lemma_records_prefix_err::<F>(doc@, rs@, k + 1, e@.1);
                }
                return Err(e);
            },
        }
        k = k + 1;
    }
    assert(rs@.subrange(0, rs@.len() as int) =~= rs@);
    Ok(out)
}

} // verus!
