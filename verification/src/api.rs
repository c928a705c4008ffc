//! How the HTTP definition API answers: the status code and what the body
//! carries for each outcome of a lookup or a query. Serving and rendering
//! the body as JSON are left to the caller.
use vstd::prelude::*;
use crate::text::lit;

verus! {

/// What a response body carries.
#[derive(Debug, Clone, PartialEq, Eq)]
pub enum ReplyBody<T> {
    /// The value found.
    Value(T),
    /// An error message, sent as `{"error": message}`.
    Error(String),
}

/// A response: an HTTP status code and its body.
#[derive(Debug, Clone, PartialEq, Eq)]
pub struct Reply<T> {
    pub status: u16,
    pub body: ReplyBody<T>,
}

/// The message sent when a definition does not exist.
pub open spec fn not_found_message() -> Seq<char> {
    "definition_not_found"@
}

/// The answer to a lookup by hash: the definition with `200 OK`, a
/// `definition_not_found` error with `404 Not Found` when there is none, and
/// the failure's message with `500 Internal Server Error` when the lookup
/// failed.
pub fn lookup_reply<T>(r: Result<Option<T>, String>) -> (a: Reply<T>)
    ensures
        match r {
            Ok(Some(v)) => a.status == 200 && a.body == ReplyBody::<T>::Value(v),
            Ok(None) => a.status == 404 && (a.body matches ReplyBody::Error(m) && m@ == not_found_message()),
            Err(e) => a.status == 500 && a.body == ReplyBody::<T>::Error(e),
        },
{
    match r {
        Ok(Some(v)) => Reply { status: 200, body: ReplyBody::Value(v) },
        Ok(None) => Reply { status: 404, body: ReplyBody::Error(lit("definition_not_found")) },
        Err(e) => Reply { status: 500, body: ReplyBody::Error(e) },
    }
}

/// The answer to a query that always has a value when it succeeds (the
/// references to a hash, the table counts): the value with `200 OK`, or the
/// failure's message with `500 Internal Server Error`.
pub fn query_reply<T>(r: Result<T, String>) -> (a: Reply<T>)
    ensures
        match r {
            Ok(v) => a.status == 200 && a.body == ReplyBody::<T>::Value(v),
            Err(e) => a.status == 500 && a.body == ReplyBody::<T>::Error(e),
        },
{
    match r {
        Ok(v) => Reply { status: 200, body: ReplyBody::Value(v) },
        Err(e) => Reply { status: 500, body: ReplyBody::Error(e) },
    }
}

} // verus!
