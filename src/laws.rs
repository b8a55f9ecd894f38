use vstd::prelude::*;

use crate::err::{Error, ErrorKind};
use crate::get_record::{get_record_of, get_record_of_text, GetRecord};
use crate::list_records::{
    list_records_of, list_records_of_text, next_token, number_attribute, ListRecords, PageView,
};
use crate::metadata::{Format, HeaderView};
use crate::records::{child_time, record_of};
use crate::request::resumption_pairs;
use crate::time::Timestamp;
use crate::xml::{all_tagged, doc_wf, first_tagged, is_tagged, root_element, NodeView};

verus! {

proof fn lemma_first_tagged_push(d: Seq<NodeView>, cs: Seq<usize>, x: usize, tag: Seq<char>)
    ensures
        first_tagged(d, cs.push(x), tag) == match first_tagged(d, cs, tag) {
            Some(c) => Some(c),
            None => if is_tagged(d, x, tag) {
                Some(x)
            } else {
                None
            },
        },
    decreases cs.len(),
{
    if cs.len() > 0 {
        assert(cs.push(x)[0] == cs[0]);
        assert(cs.push(x).drop_first() =~= cs.drop_first().push(x));
        lemma_first_tagged_push(d, cs.drop_first(), x, tag);
    } else {
        assert(cs.push(x).drop_first() =~= cs);
    }
}

/// The first child with a name is the first of all children with that name.
pub proof fn lemma_first_tagged_is_head(d: Seq<NodeView>, cs: Seq<usize>, tag: Seq<char>)
    ensures
        first_tagged(d, cs, tag) == if all_tagged(d, cs, tag).len() == 0 {
            None::<usize>
        } else {
            Some(all_tagged(d, cs, tag)[0])
        },
    decreases cs.len(),
{
    if cs.len() > 0 {
        let init = cs.drop_last();
        lemma_first_tagged_is_head(d, init, tag);
        assert(cs =~= init.push(cs.last()));
        lemma_first_tagged_push(d, init, cs.last(), tag);
    }
}

/// A single-record response whose section holds exactly one record element
/// reads as that record's header and metadata, with the document's
/// `responseDate` as the response time.
pub proof fn law_single_record_is_returned<F: Format>(
    d: Seq<NodeView>,
    identifier: Seq<char>,
    root: usize,
    t: Timestamp,
    g: usize,
    r: usize,
    v: (HeaderView, <F::Metadata as View>::V),
)
    requires
        doc_wf(d),
        root_element(d) == Some(root),
        child_time(d, root as int, "responseDate"@) == Ok::<Timestamp, Seq<char>>(t),
        first_tagged(d, d[root as int].children, "GetRecord"@) == Some(g),
        all_tagged(d, d[g as int].children, "record"@) == seq![r],
        record_of::<F>(d, r) == Ok::<_, Seq<char>>(v),
    ensures
        get_record_of::<F>(d, identifier) == Ok::<_, (ErrorKind, Seq<char>)>((t, v)),
{
    lemma_first_tagged_is_head(d, d[g as int].children, "record"@);
}

/// A single-record response whose section holds no record element fails as
/// not found, and the error carries the requested identifier.
pub proof fn law_no_record_is_not_found<F: Format>(
    d: Seq<NodeView>,
    identifier: Seq<char>,
    root: usize,
    t: Timestamp,
    g: usize,
)
    requires
        doc_wf(d),
        root_element(d) == Some(root),
        child_time(d, root as int, "responseDate"@) == Ok::<Timestamp, Seq<char>>(t),
        first_tagged(d, d[root as int].children, "GetRecord"@) == Some(g),
        all_tagged(d, d[g as int].children, "record"@).len() == 0,
    ensures
        get_record_of::<F>(d, identifier) == Err::<
            (Timestamp, (HeaderView, <F::Metadata as View>::V)),
            (ErrorKind, Seq<char>),
        >((ErrorKind::NotFound, identifier)),
{
    lemma_first_tagged_is_head(d, d[g as int].children, "record"@);
}

/// A page without a `resumptionToken` element, or whose element lacks a
/// readable `completeListSize` or `cursor`, has no next page.
pub proof fn law_no_token_no_next<F: Format>(
    d: Seq<NodeView>,
    root: usize,
    l: usize,
    page: PageView<<F::Metadata as View>::V>,
)
    requires
        doc_wf(d),
        root_element(d) == Some(root),
        first_tagged(d, d[root as int].children, "ListRecords"@) == Some(l),
        list_records_of::<F>(d) == Ok::<_, (ErrorKind, Seq<char>)>(page),
        match first_tagged(d, d[l as int].children, "resumptionToken"@) {
            None => true,
            Some(t) => number_attribute(d, t, "completeListSize"@) is None || number_attribute(
                d,
                t,
                "cursor"@,
            ) is None,
        },
    ensures
        next_token(page.2) is None,
{
}

/// A page whose `resumptionToken` element has a value and both numbers has a
/// next page, asked for with exactly two parameters: the verb and that value.
pub proof fn law_token_value_gives_next<F: Format>(
    d: Seq<NodeView>,
    root: usize,
    l: usize,
    t: usize,
    value: Seq<char>,
    page: PageView<<F::Metadata as View>::V>,
)
    requires
        doc_wf(d),
        root_element(d) == Some(root),
        first_tagged(d, d[root as int].children, "ListRecords"@) == Some(l),
        first_tagged(d, d[l as int].children, "resumptionToken"@) == Some(t),
        number_attribute(d, t, "completeListSize"@) is Some,
        number_attribute(d, t, "cursor"@) is Some,
        d[t as int].text == Some(value),
        list_records_of::<F>(d) == Ok::<_, (ErrorKind, Seq<char>)>(page),
    ensures
        next_token(page.2) == Some(value),
        resumption_pairs(value) == seq![("resumptionToken"@, value), ("verb"@, "ListRecords"@)],
{
}

/// Parsing the same listing text twice gives equal results: equal pages, or
/// errors of the same class with the same message.
pub proof fn law_list_parse_deterministic<F: Format>(
    text: Seq<char>,
    a: Result<ListRecords<F::Metadata>, Error>,
    b: Result<ListRecords<F::Metadata>, Error>,
)
    requires
        match list_records_of_text::<F>(text) {
            Ok(v) => a matches Ok(p) && p@ == v,
            Err(ev) => a matches Err(e) && e@ == ev,
        },
        match list_records_of_text::<F>(text) {
            Ok(v) => b matches Ok(p) && p@ == v,
            Err(ev) => b matches Err(e) && e@ == ev,
        },
    ensures
        a is Ok <==> b is Ok,
        a matches Ok(p) ==> b matches Ok(q) && p@ == q@,
        a matches Err(e) ==> b matches Err(f) && e@ == f@,
{
}

/// Parsing the same single-record text twice, for the same identifier, gives
/// equal results: equal records, or errors of the same class with the same message.
pub proof fn law_single_parse_deterministic<F: Format>(
    text: Seq<char>,
    identifier: Seq<char>,
    a: Result<GetRecord<F::Metadata>, Error>,
    b: Result<GetRecord<F::Metadata>, Error>,
)
    requires
        match get_record_of_text::<F>(text, identifier) {
            Ok(v) => a matches Ok(g) && g@ == v,
            Err(ev) => a matches Err(e) && e@ == ev,
        },
        match get_record_of_text::<F>(text, identifier) {
            Ok(v) => b matches Ok(g) && g@ == v,
            Err(ev) => b matches Err(e) && e@ == ev,
        },
    ensures
        a is Ok <==> b is Ok,
        a matches Ok(g) ==> b matches Ok(h) && g@ == h@,
        a matches Err(e) ==> b matches Err(f) && e@ == f@,
{
}

} // verus!
