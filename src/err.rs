use vstd::prelude::*;

verus! {

/// The classes of failure that the library reports.
#[derive(Debug, Clone, PartialEq, Eq)]
pub enum Error {
    InvalidArgument(String),
    InvalidResponse(String),
    Internal(String),
    NotFound(String),
}

/// The class of an error, without its message.
#[derive(Debug, Clone, Copy, PartialEq, Eq)]
pub enum ErrorKind {
    InvalidArgument,
    InvalidResponse,
    Internal,
    NotFound,
}

impl View for Error {
    type V = (ErrorKind, Seq<char>);

    open spec fn view(&self) -> (ErrorKind, Seq<char>) {
        match self {
            Error::InvalidArgument(s) => (ErrorKind::InvalidArgument, s@),
            Error::InvalidResponse(s) => (ErrorKind::InvalidResponse, s@),
            Error::Internal(s) => (ErrorKind::Internal, s@),
            Error::NotFound(s) => (ErrorKind::NotFound, s@),
        }
    }
}

/// The message of a missing child named `tag`.
pub open spec fn no_such_tag(tag: Seq<char>) -> Seq<char> {
    "No such tag: "@ + tag
}

/// The message of a child named `tag` whose text is missing or does not read.
pub open spec fn no_text_for(tag: Seq<char>) -> Seq<char> {
    "No text for: "@ + tag
}

/// An internal error whose message is `head` followed by `tag`.
pub fn internal_for(head: &str, tag: &str) -> (r: Error)
    ensures
        r@ == (ErrorKind::Internal, head@ + tag@),
{
    let mut m = head.to_string();
    m.append(tag);
    Error::Internal(m)
}

impl Error {
    pub open spec fn kind_spec(&self) -> ErrorKind {
        match self {
            Error::InvalidArgument(_) => ErrorKind::InvalidArgument,
            Error::InvalidResponse(_) => ErrorKind::InvalidResponse,
            Error::Internal(_) => ErrorKind::Internal,
            Error::NotFound(_) => ErrorKind::NotFound,
        }
    }

    pub fn kind(&self) -> (r: ErrorKind)
        ensures
            r == self.kind_spec(),
    {
        match self {
            Error::InvalidArgument(_) => ErrorKind::InvalidArgument,
            Error::InvalidResponse(_) => ErrorKind::InvalidResponse,
            Error::Internal(_) => ErrorKind::Internal,
            Error::NotFound(_) => ErrorKind::NotFound,
        }
    }

    /// The text that describes the error: its class, then its message in quotes.
    pub open spec fn text_spec(&self) -> Seq<char> {
        let (head, s) = match self {
            Error::InvalidArgument(s) => ("Invalid argument: '"@, s@),
            Error::InvalidResponse(s) => ("Invalid response: '"@, s@),
            Error::Internal(s) => ("Internal error: '"@, s@),
            Error::NotFound(s) => ("Not found: '"@, s@),
        };
        head + s + "'"@
    }

    pub fn to_text(&self) -> (r: String)
        ensures
            r@ == self.text_spec(),
    {
        let mut r = match self {
            Error::InvalidArgument(_) => "Invalid argument: '".to_string(),
            Error::InvalidResponse(_) => "Invalid response: '".to_string(),
            Error::Internal(_) => "Internal error: '".to_string(),
            Error::NotFound(_) => "Not found: '".to_string(),
        };
        r.append(self.message().as_str());
        r.append("'");
        r
    }

    /// The message that the error carries: for `NotFound`, the identifier.
    pub fn message(&self) -> (r: &String)
        ensures
            match self {
                Error::InvalidArgument(s) => r == s,
                Error::InvalidResponse(s) => r == s,
                Error::Internal(s) => r == s,
                Error::NotFound(s) => r == s,
            },
    {
        match self {
            Error::InvalidArgument(s) => s,
            Error::InvalidResponse(s) => s,
            Error::Internal(s) => s,
            Error::NotFound(s) => s,
        }
    }
}

pub fn invalid_argument(t: &str) -> (r: Error)
    ensures
        r matches Error::InvalidArgument(s) && s@ == t@,
{
    Error::InvalidArgument(t.to_string())
}

pub fn invalid_response(t: &str) -> (r: Error)
    ensures
        r matches Error::InvalidResponse(s) && s@ == t@,
        r@ == (ErrorKind::InvalidResponse, t@),
{
    Error::InvalidResponse(t.to_string())
}

pub fn internal(t: &str) -> (r: Error)
    ensures
        r matches Error::Internal(s) && s@ == t@,
        r@ == (ErrorKind::Internal, t@),
{
    Error::Internal(t.to_string())
}

pub fn not_found(t: &str) -> (r: Error)
    ensures
        r matches Error::NotFound(s) && s@ == t@,
        r@ == (ErrorKind::NotFound, t@),
{
    Error::NotFound(t.to_string())
}

} // verus!
