use vstd::prelude::*;

use crate::err::{Error, ErrorKind};
use crate::metadata::{Format, HeaderView, Record};
use crate::records::{child_time, parse_records, records_of, records_view};
use crate::request::{resumption_pairs, resumption_params};

pub use crate::request::Params;
use crate::text::{parse_u64, u64_of};
use crate::time::Timestamp;
use crate::err::no_such_tag;
use crate::xml::{
    all_tagged, attribute_of, first_tagged, no_root, root_element, xml_tree_of, NodeView, XmlDoc,
};

verus! {

/// The continuation marker of a page, with the list size and cursor that the
/// server reports. Only the value decides whether more pages follow.
#[derive(Debug, Clone)]
pub struct ResumptionToken {
    value: Option<String>,
    complete_list_size: u64,
    cursor: u64,
}

pub struct TokenView {
    pub value: Option<Seq<char>>,
    pub complete_list_size: u64,
    pub cursor: u64,
}

impl View for ResumptionToken {
    type V = TokenView;

    closed spec fn view(&self) -> TokenView {
        TokenView {
            value: self.value.deep_view(),
            complete_list_size: self.complete_list_size,
            cursor: self.cursor,
        }
    }
}

impl ResumptionToken {
    pub fn token_value(&self) -> (r: &Option<String>)
        ensures
            r.deep_view() == self@.value,
    {
        &self.value
    }

    pub fn complete_list_size(&self) -> (r: u64)
        ensures
            r == self@.complete_list_size,
    {
        self.complete_list_size
    }

    pub fn cursor(&self) -> (r: u64)
        ensures
            r == self@.cursor,
    {
        self.cursor
    }
}

/// A number read from the attribute `name` of node `t`.
pub open spec fn number_attribute(d: Seq<NodeView>, t: usize, name: Seq<char>) -> Option<u64> {
    match attribute_of(d[t as int].attributes, name) {
        Some(s) => u64_of(s),
        None => None,
    }
}

/// The token of the listing section `l`: present only where the section holds
/// a `resumptionToken` element whose two numbers both read.
pub open spec fn token_of(d: Seq<NodeView>, l: usize) -> Option<TokenView> {
    match first_tagged(d, d[l as int].children, "resumptionToken"@) {
        None => None,
        Some(t) => match (
            number_attribute(d, t, "completeListSize"@),
            number_attribute(d, t, "cursor"@),
        ) {
            (Some(size), Some(cursor)) => Some(
                TokenView { value: d[t as int].text, complete_list_size: size, cursor },
            ),
            _ => None,
        },
    }
}

pub type PageView<V> = (Timestamp, Seq<(HeaderView, V)>, Option<TokenView>);

/// What a listing document reads as: the response time, every record of the
/// `ListRecords` section in order, and its token; or the class and message of
/// the failure.
pub open spec fn list_records_of<F: Format>(d: Seq<NodeView>) -> Result<
    PageView<<F::Metadata as View>::V>,
    (ErrorKind, Seq<char>),
> {
    match root_element(d) {
        None => Err((ErrorKind::Internal, no_root())),
        Some(root) => match child_time(d, root as int, "responseDate"@) {
            Err(m) => Err((ErrorKind::Internal, m)),
            Ok(t) => match first_tagged(d, d[root as int].children, "ListRecords"@) {
                None => Err((ErrorKind::Internal, no_such_tag("ListRecords"@))),
                Some(l) => match records_of::<F>(d, all_tagged(d, d[l as int].children, "record"@)) {
                    Err(m) => Err((ErrorKind::Internal, m)),
                    Ok(rs) => Ok((t, rs, token_of(d, l))),
                },
            },
        },
    }
}

/// What a listing response text reads as.
pub open spec fn list_records_of_text<F: Format>(text: Seq<char>) -> Result<
    PageView<<F::Metadata as View>::V>,
    (ErrorKind, Seq<char>),
> {
    match xml_tree_of(text) {
        Err(m) => Err((ErrorKind::InvalidResponse, m)),
        Ok(d) => list_records_of::<F>(d),
    }
}

/// The message of a request for a page after the last.
pub open spec fn no_more_results() -> Seq<char> {
    "No more results"@
}

/// One page of a listing.
#[derive(Debug)]
pub struct ListRecords<M> {
    pub response_date: Timestamp,
    pub records: Vec<Record<M>>,
    pub resumption_token: Option<ResumptionToken>,
}

impl<M: View> View for ListRecords<M> {
    type V = PageView<M::V>;

    open spec fn view(&self) -> PageView<M::V> {
        (
            self.response_date,
            records_view(self.records@),
            match self.resumption_token {
                Some(t) => Some(t@),
                None => None,
            },
        )
    }
}

/// The token value that a page hands on, if any.
pub open spec fn next_token(t: Option<TokenView>) -> Option<Seq<char>> {
    match t {
        Some(tv) => tv.value,
        None => None,
    }
}

/// Reads the token of the listing section `l`.
fn parse_token(doc: &XmlDoc, l: usize) -> (r: Option<ResumptionToken>)
    requires
        doc.wf(),
        l < doc@.len(),
    ensures
        match r {
            Some(t) => token_of(doc@, l) == Some(t@),
            None => token_of(doc@, l) is None,
        },
{
    let t = match doc.find_first_child(l, "resumptionToken") {
        Ok(t) => t,
        Err(_) => return None,
    };
    let size = match doc.attribute(t, "completeListSize") {
        Some(s) => parse_u64(s.as_str()),
        None => None,
    };
    let cursor = match doc.attribute(t, "cursor") {
        Some(s) => parse_u64(s.as_str()),
        None => None,
    };
    match (size, cursor) {
        (Some(complete_list_size), Some(cursor)) => {
            let value = match &doc.node(t).text {
                Some(v) => Some(v.clone()),
                None => None,
            };
            Some(ResumptionToken { value, complete_list_size, cursor })
        },
        _ => None,
    }
}

/// Reads a listing document.
pub fn list_records_from_document<F: Format>(doc: &XmlDoc) -> (r: Result<
    ListRecords<F::Metadata>,
    Error,
>)
    requires
        doc.wf(),
    ensures
        match list_records_of::<F>(doc@) {
            Ok(v) => r matches Ok(p) && p@ == v,
            Err(ev) => r matches Err(e) && e@ == ev,
        },
{
    let root = doc.root_element()?;
    let response_date = crate::records::find_child_time(doc, root, "responseDate")?;
    let l = doc.find_first_child(root, "ListRecords")?;
    let resumption_token = parse_token(doc, l);
    let rs = doc.children_tagged(l, "record");
    let records = parse_records::<F>(doc, &rs)?;
    Ok(ListRecords { response_date, records, resumption_token })
}

impl<M: View> ListRecords<M> {
    /// Reads a listing response text.
    pub fn build<F: Format<Metadata = M>>(text: &str) -> (r: Result<ListRecords<M>, Error>)
        ensures
            match list_records_of_text::<F>(text@) {
                Ok(v) => r matches Ok(p) && p@ == v,
                Err(ev) => r matches Err(e) && e@ == ev,
            },
    {
        let doc = XmlDoc::from_text(text)?;
        list_records_from_document::<F>(&doc)
    }

    /// Whether a further page can be asked for: a token with a value is present.
    pub fn has_next(&self) -> (r: bool)
        ensures
            r == next_token(self@.2) is Some,
    {
        match &self.resumption_token {
            Some(t) => t.value.is_some(),
            None => false,
        }
    }

    /// The token value that the next request carries, if any.
    pub fn next_token(&self) -> (r: Option<String>)
        ensures
            r.deep_view() == next_token(self@.2),
    {
        match &self.resumption_token {
            Some(t) => match &t.value {
                Some(v) => Some(v.clone()),
                None => None,
            },
            None => None,
        }
    }

    /// The parameters of the request for the next page: the verb and the
    /// token value alone. Where no value is present there is no next page.
    pub fn get_next(&self) -> (r: Result<Vec<(String, String)>, Error>)
        ensures
            match next_token(self@.2) {
                Some(v) => r matches Ok(p) && p.deep_view() == resumption_pairs(v),
                None => r matches Err(e) && e@ == (ErrorKind::Internal, no_more_results()),
            },
    {
        match self.next_token() {
            Some(v) => Ok(resumption_params(v.as_str())),
            None => Err(crate::err::internal("No more results")),
        }
    }
}

} // verus!
