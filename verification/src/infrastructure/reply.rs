//! Replies: a status and a body, before anything is serialised.

use vstd::prelude::*;
use vstd::string::*;

verus! {

/// What a reply carries.
#[derive(Debug, Clone, PartialEq, Eq)]
pub enum Body<T> {
    /// Nothing.
    Empty,
    /// A plain text.
    Text(String),
    /// A value that goes out as JSON.
    Json(T),
}

/// A reply to a request.
#[derive(Debug, Clone, PartialEq, Eq)]
pub struct Reply<T> {
    pub status: u16,
    pub body: Body<T>,
}

pub const OK: u16 = 200;

pub const CREATED: u16 = 201;

pub const BAD_REQUEST: u16 = 400;

pub const NOT_FOUND: u16 = 404;

pub const INTERNAL_SERVER_ERROR: u16 = 500;

pub const UPSTREAM_FAILED: u16 = 502;

impl<T> Reply<T> {
    /// Whether this reply has status `status` and the text `text`.
    pub open spec fn says(self, status: u16, text: Seq<char>) -> bool {
        &&& self.status == status
        &&& self.body matches Body::Text(t)
        &&& t@ == text
    }

    /// Whether this reply has status `status` and nothing else.
    pub open spec fn is_bare(self, status: u16) -> bool {
        self.status == status && self.body is Empty
    }

    /// A reply with a JSON value.
    pub fn json(status: u16, value: T) -> (r: Reply<T>)
        ensures
            r.status == status,
            r.body == Body::Json(value),
    {
        Reply { status, body: Body::Json(value) }
    }

    /// A reply with a plain text.
    pub fn text(status: u16, text: String) -> (r: Reply<T>)
        ensures
            r.says(status, text@),
            r.body == Body::<T>::Text(text),
    {
        Reply { status, body: Body::Text(text) }
    }

    /// A reply with the plain text `text`.
    pub fn message(status: u16, text: &str) -> (r: Reply<T>)
        ensures
            r.says(status, text@),
    {
        Reply { status, body: Body::Text(String::from_str(text)) }
    }

    /// A reply without a body.
    pub fn bare(status: u16) -> (r: Reply<T>)
        ensures
            r.is_bare(status),
    {
        Reply { status, body: Body::Empty }
    }
}

} // verus!
