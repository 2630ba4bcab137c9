//! Errors of the backend API, holding the text of whatever went wrong.

use vstd::prelude::*;

verus! {

/// The characters of `list`, separated by `sep`.
pub open spec fn joined(list: Seq<Seq<char>>, sep: Seq<char>) -> Seq<char>
    decreases list.len(),
{
    if list.len() == 0 {
        Seq::empty()
    } else if list.len() == 1 {
        list[0]
    } else {
        joined(list.drop_last(), sep) + sep + list.last()
    }
}

/// The views of a list of strings.
pub open spec fn strings_view(v: Seq<String>) -> Seq<Seq<char>> {
    v.map_values(|s: String| s@)
}

/// `list` joined with `sep` between consecutive items.
pub fn join_strings(list: &Vec<String>, sep: &str) -> (r: String)
    ensures
        r@ == joined(strings_view(list@), sep@),
{
    let mut r = String::new();
    let ghost views = strings_view(list@);
    let mut i: usize = 0;
    while i < list.len()
        invariant
            i <= list@.len(),
            views == strings_view(list@),
            r@ == joined(views.take(i as int), sep@),
        decreases list@.len() - i,
    {
        if i > 0 {
            r.append(sep);
        }
        r.append(list[i].as_str());
        assert(views.take(i + 1).drop_last() =~= views.take(i as int));
        i = i + 1;
    }
    assert(views.take(i as int) =~= views);
    r
}

/// A failed HTTP request together with the body of its response: the text
/// of the request error, and the body or the text of the error met while
/// reading it.
pub struct ReqwestErrorWithBody {
    pub error: String,
    pub body: Result<String, String>,
}

impl ReqwestErrorWithBody {
    /// The multi-line report of the failure.
    pub open spec fn spec_message(&self) -> Seq<char> {
        "Request error:\n"@ + self.error@ + "\n"@ + match &self.body {
            Ok(b) => "Response body:\n"@ + b@ + "\n"@,
            Err(e) => "Failed to fetch body:\n"@ + e@ + "\n"@,
        }
    }

    /// The multi-line report of the failure (what `Display` prints).
    pub fn message(&self) -> (r: String)
        ensures
            r@ == self.spec_message(),
    {
        let mut s = String::new();
        s.append("Request error:\n");
        s.append(self.error.as_str());
        s.append("\n");
        match &self.body {
            Ok(b) => {
                s.append("Response body:\n");
                s.append(b.as_str());
                s.append("\n");
            },
            Err(e) => {
                s.append("Failed to fetch body:\n");
                s.append(e.as_str());
                s.append("\n");
            },
        }
        s
    }
}

/// An error met while talking to the wandb backend.
pub enum ApiError {
    /// An HTTP request answered with an error status.
    RequestErrorWithBody(ReqwestErrorWithBody),
    /// An HTTP request failed; the text of the failure.
    RequestFailed(String),
    /// A GraphQL reply listed errors; the debug text of each.
    QueryFailed(Vec<String>),
    /// Turning data into JSON failed; the text of the failure.
    SerializeJson(String),
    /// A reply lacked an expected part.
    NoResponse(String),
    /// No wandb API key could be found.
    MissingApiKey(String),
}

impl ApiError {
    /// The text that describes the error.
    pub open spec fn spec_message(&self) -> Seq<char> {
        match self {
            ApiError::RequestErrorWithBody(e) => "api request failed: "@ + e.spec_message(),
            ApiError::RequestFailed(e) => "api request failed: "@ + e@,
            ApiError::QueryFailed(v) => "graphql query failed: ["@ + joined(
                strings_view(v@),
                ", "@,
            ) + "]"@,
            ApiError::SerializeJson(e) => "serialize data to json failed: "@ + e@,
            ApiError::NoResponse(e) => "no response from query: "@ + e@,
            ApiError::MissingApiKey(e) => "could not resolve a wandb API key: "@ + e@,
        }
    }

    /// The text that describes the error (what `Display` prints).
    pub fn message(&self) -> (r: String)
        ensures
            r@ == self.spec_message(),
    {
        let mut s = String::new();
        match self {
            ApiError::RequestErrorWithBody(e) => {
                s.append("api request failed: ");
                let m = e.message();
                s.append(m.as_str());
            },
            ApiError::RequestFailed(e) => {
                s.append("api request failed: ");
                s.append(e.as_str());
            },
            ApiError::QueryFailed(v) => {
                s.append("graphql query failed: [");
                let j = join_strings(v, ", ");
                s.append(j.as_str());
                s.append("]");
            },
            ApiError::SerializeJson(e) => {
                s.append("serialize data to json failed: ");
                s.append(e.as_str());
            },
            ApiError::NoResponse(e) => {
                s.append("no response from query: ");
                s.append(e.as_str());
            },
            ApiError::MissingApiKey(e) => {
                s.append("could not resolve a wandb API key: ");
                s.append(e.as_str());
            },
        }
        s
    }
}

} // verus!

verus! {

/// The Python exception class a rejected input is reported with.
#[derive(PartialEq, Eq, Structural, Clone, Copy, Debug)]
pub enum InputErrorKind {
    /// `ValueError`
    Value,
    /// `TypeError`
    Type,
    /// `FileNotFoundError`
    FileNotFound,
    /// `RuntimeError`
    Runtime,
}

/// An input the library rejects, with the exception class and message it is
/// reported with.
pub struct InputError {
    pub kind: InputErrorKind,
    pub message: String,
}

impl InputError {
    /// An error of the given class with the given message.
    pub fn new(kind: InputErrorKind, message: &str) -> (r: InputError)
        ensures
            r.kind == kind,
            r.message@ == message@,
    {
        let mut m = String::new();
        m.append(message);
        InputError { kind, message: m }
    }
}

} // verus!

verus! {

/// Whether `r` failed with an input error of class `kind` and message `m`.
pub open spec fn fails_with<T>(r: Result<T, InputError>, kind: InputErrorKind, m: Seq<char>) -> bool {
    r matches Err(e) && e.kind == kind && e.message@ == m
}

} // verus!
