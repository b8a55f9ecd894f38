use vstd::prelude::*;

use crate::err::{internal, Error, ErrorKind};
use crate::metadata::Format;
use crate::time::{utc_text_of, Timestamp};

verus! {

pub type QueryPairs = Seq<(Seq<char>, Seq<char>)>;

/// The `application/x-www-form-urlencoded` text that serde_urlencoded writes
/// for a list of name/value pairs.
pub uninterp spec fn form_encoded(pairs: Seq<(Seq<char>, Seq<char>)>) -> Seq<char>;

/// Relies on serde_urlencoded::to_string, which writes each pair of a slice of
/// string pairs as `name=value`, in order, joined by `&`; a pair of two strings
/// is always accepted, so the call succeeds.
#[verifier::external_body]
fn encode_pairs(pairs: &Vec<(String, String)>) -> (r: Result<String, String>)
    ensures
        r is Ok,
        r matches Ok(s) ==> s@ == form_encoded(pairs.deep_view()),
{
    serde_urlencoded::to_string(pairs).map_err(|e| e.to_string())
}

/// Filters of a listing: inclusive bounds on the datestamp, and a set.
#[derive(Debug, Clone, Default)]
pub struct Params {
    pub from: Option<Timestamp>,
    pub until: Option<Timestamp>,
    pub set: Option<String>,
}

/// The message of a time that cannot be written.
pub open spec fn time_out_of_range() -> Seq<char> {
    "Time out of range"@
}

pub open spec fn pair(name: &str, value: Seq<char>) -> (Seq<char>, Seq<char>) {
    (name@, value)
}

/// The parameters of a single-record request.
pub open spec fn get_record_pairs(identifier: Seq<char>, prefix: Seq<char>) -> QueryPairs {
    seq![pair("identifier", identifier), pair("metadataPrefix", prefix), pair("verb", "GetRecord"@)]
}

/// The parameters of a continuation request: the verb and the token alone.
pub open spec fn resumption_pairs(token: Seq<char>) -> QueryPairs {
    seq![pair("resumptionToken", token), pair("verb", "ListRecords"@)]
}

/// One optional time parameter: absent, written, or `None` where it cannot be written.
pub open spec fn time_pairs(name: &str, t: Option<Timestamp>) -> Option<QueryPairs> {
    match t {
        None => Some(seq![]),
        Some(t) => match utc_text_of(t.seconds, t.nanos) {
            Some(s) => Some(seq![pair(name, s)]),
            None => None,
        },
    }
}

/// The parameters of a listing request: the filters that are given, then the
/// vocabulary and the verb; `None` where a time cannot be written.
pub open spec fn list_records_pairs(
    from: Option<Timestamp>,
    until: Option<Timestamp>,
    set: Option<Seq<char>>,
    prefix: Seq<char>,
) -> Option<QueryPairs> {
    match (time_pairs("from", from), time_pairs("until", until)) {
        (Some(f), Some(u)) => Some(
            f + u + match set {
                Some(s) => seq![pair("set", s)],
                None => seq![],
            } + seq![pair("metadataPrefix", prefix), pair("verb", "ListRecords"@)],
        ),
        _ => None,
    }
}

fn str_pair(name: &str, value: String) -> (r: (String, String))
    ensures
        r.deep_view() == pair(name, value@),
{
    (name.to_string(), value)
}

/// Encodes the pairs as a query string.
pub fn query_string(pairs: &Vec<(String, String)>) -> (r: Result<String, Error>)
    ensures
        r matches Ok(s) && s@ == form_encoded(pairs.deep_view()),
{
    match encode_pairs(pairs) {
        Ok(s) => Ok(s),
        Err(msg) => Err(internal(msg.as_str())),
    }
}

/// The parameters of a request for one record in the vocabulary `F`.
pub fn get_record_params<F: Format>(identifier: &str) -> (r: Vec<(String, String)>)
    ensures
        r.deep_view() == get_record_pairs(identifier@, F::prefix_spec()),
{
    let mut v: Vec<(String, String)> = Vec::new();
    v.push(str_pair("identifier", identifier.to_string()));
    v.push(str_pair("metadataPrefix", F::as_str()));
    v.push(str_pair("verb", "GetRecord".to_string()));
    assert(v.deep_view() =~= get_record_pairs(identifier@, F::prefix_spec()));
    v
}

/// The parameters of a continuation request.
pub fn resumption_params(token: &str) -> (r: Vec<(String, String)>)
    ensures
        r.deep_view() == resumption_pairs(token@),
{
    let mut v: Vec<(String, String)> = Vec::new();
    v.push(str_pair("resumptionToken", token.to_string()));
    v.push(str_pair("verb", "ListRecords".to_string()));
    assert(v.deep_view() =~= resumption_pairs(token@));
    v
}

fn push_time(v: &mut Vec<(String, String)>, name: &str, t: Option<Timestamp>) -> (r: Result<(), Error>)
    ensures
        match time_pairs(name, t) {
            Some(p) => r is Ok && final(v).deep_view() == old(v).deep_view() + p,
            None => r matches Err(e) && e@ == (ErrorKind::Internal, time_out_of_range()),
        },
{
    match t {
        None => {
            assert(v.deep_view() =~= v.deep_view() + Seq::<(Seq<char>, Seq<char>)>::empty());
            Ok(())
        },
        Some(t) => match t.to_text() {
            Some(s) => {
                let ghost before = v.deep_view();
                let ghost sv = s@;
                v.push(str_pair(name, s));
                assert(v.deep_view() =~= before + seq![pair(name, sv)]);
                Ok(())
            },
            None => Err(internal("Time out of range")),
        },
    }
}

/// The parameters of a request that starts a listing in the vocabulary `F`.
pub fn list_records_params<F: Format>(params: &Params) -> (r: Result<Vec<(String, String)>, Error>)
    ensures
        match list_records_pairs(params.from, params.until, params.set.deep_view(), F::prefix_spec()) {
            Some(p) => r matches Ok(v) && v.deep_view() == p,
            None => r matches Err(e) && e@ == (ErrorKind::Internal, time_out_of_range()),
        },
{
    let mut v: Vec<(String, String)> = Vec::new();
    push_time(&mut v, "from", params.from)?;
    push_time(&mut v, "until", params.until)?;
    let ghost before = v.deep_view();
    match &params.set {
        Some(s) => {
            v.push(str_pair("set", s.clone()));
        },
        None => {},
    }
    let ghost mid = v.deep_view();
    v.push(str_pair("metadataPrefix", F::as_str()));
    v.push(str_pair("verb", "ListRecords".to_string()));
    proof {
        let setp: QueryPairs = match params.set.deep_view() {
            Some(s) => seq![pair("set", s)],
            None => seq![],
        };
        assert(mid =~= before + setp);
        assert(v.deep_view() =~= mid + seq![pair("metadataPrefix", F::prefix_spec()), pair("verb", "ListRecords"@)]);
        assert(time_pairs("from", params.from) is Some);
        assert(time_pairs("until", params.until) is Some);
        let f = time_pairs("from", params.from)->0;
        let u = time_pairs("until", params.until)->0;
        assert(before =~= f + u);
    }
    Ok(v)
}

} // verus!
