use vstd::prelude::*;

use crate::err::{not_found, Error, ErrorKind};
use crate::metadata::{Format, HeaderView, Record};
use crate::records::{child_time, parse_record, record_of};
use crate::time::Timestamp;
use crate::err::no_such_tag;
use crate::xml::{first_tagged, no_root, root_element, xml_tree_of, NodeView, XmlDoc};

verus! {

/// The answer to a single-record request: the response time and the record.
#[derive(Debug)]
pub struct GetRecord<M> {
    pub response_date: Timestamp,
    pub record: Record<M>,
}

impl<M: View> View for GetRecord<M> {
    type V = (Timestamp, (HeaderView, M::V));

    open spec fn view(&self) -> (Timestamp, (HeaderView, M::V)) {
        (self.response_date, self.record@)
    }
}

pub type GetRecordView<V> = (Timestamp, (HeaderView, V));

/// What a single-record document reads as: the response time and the first
/// record of the `GetRecord` section; or the class and message of the failure,
/// `NotFound` carrying `identifier`.
pub open spec fn get_record_of<F: Format>(d: Seq<NodeView>, identifier: Seq<char>) -> Result<
    GetRecordView<<F::Metadata as View>::V>,
    (ErrorKind, Seq<char>),
> {
    match root_element(d) {
        None => Err((ErrorKind::Internal, no_root())),
        Some(root) => match child_time(d, root as int, "responseDate"@) {
            Err(m) => Err((ErrorKind::Internal, m)),
            Ok(t) => match first_tagged(d, d[root as int].children, "GetRecord"@) {
                None => Err((ErrorKind::Internal, no_such_tag("GetRecord"@))),
                Some(g) => match first_tagged(d, d[g as int].children, "record"@) {
                    None => Err((ErrorKind::NotFound, identifier)),
                    Some(r) => match record_of::<F>(d, r) {
                        Err(m) => Err((ErrorKind::Internal, m)),
                        Ok(v) => Ok((t, v)),
                    },
                },
            },
        },
    }
}

/// What a single-record response text reads as.
pub open spec fn get_record_of_text<F: Format>(text: Seq<char>, identifier: Seq<char>) -> Result<
    GetRecordView<<F::Metadata as View>::V>,
    (ErrorKind, Seq<char>),
> {
    match xml_tree_of(text) {
        Err(m) => Err((ErrorKind::InvalidResponse, m)),
        Ok(d) => get_record_of::<F>(d, identifier),
    }
}

/// Reads a single-record document; `NotFound` carries `identifier`.
pub fn get_record_from_document<F: Format>(identifier: &str, doc: &XmlDoc) -> (r: Result<
    GetRecord<F::Metadata>,
    Error,
>)
    requires
        doc.wf(),
    ensures
        match get_record_of::<F>(doc@, identifier@) {
            Ok(v) => r matches Ok(g) && g@ == v,
            Err(ev) => r matches Err(e) && e@ == ev,
        },
{
    let root = doc.root_element()?;
    let response_date = crate::records::find_child_time(doc, root, "responseDate")?;
    let g = doc.find_first_child(root, "GetRecord")?;
    let r = match doc.find_first_child(g, "record") {
        Ok(r) => r,
        Err(_) => return Err(not_found(identifier)),
    };
    let record = parse_record::<F>(doc, r)?;
    Ok(GetRecord { response_date, record })
}

impl<M: View> GetRecord<M> {
    /// Reads a single-record response text; `NotFound` carries `identifier`.
    pub fn build<F: Format<Metadata = M>>(identifier: &str, text: &str) -> (r: Result<GetRecord<M>, Error>)
        ensures
            match get_record_of_text::<F>(text@, identifier@) {
                Ok(v) => r matches Ok(g) && g@ == v,
                Err(ev) => r matches Err(e) && e@ == ev,
            },
    {
        let doc = XmlDoc::from_text(text)?;
        get_record_from_document::<F>(identifier, &doc)
    }
}

} // verus!
