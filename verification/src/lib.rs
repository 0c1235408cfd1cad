//! Client-side core of a session-lifecycle client for an AT-protocol identity
//! service: the typed data model for sessions and DID documents, a small JSON
//! codec for the wire format, and the mapping from HTTP status codes and
//! response bodies to a two-variant outcome. The HTTP transport itself lives
//! outside this crate; every function here is a pure computation on values.

use vstd::prelude::*;

pub mod json;
pub mod server;

verus! {

/// Token strings used as bearer credentials.
pub type Bearer = String;

/// A user handle such as `alice.test`.
pub type Handle = String;

/// A decentralized identifier such as `did:plc:abc`.
pub type DID = String;

/// Outcome of a service call whose request reached the remote end: either the
/// decoded payload, or the structured error payload the service returned.
/// Transport-level failures never take this shape; callers report them
/// separately.
#[derive(Debug, PartialEq)]
pub enum Response<T> {
    Success(T),
    Failure(NO),
}

/// The service's structured error payload: `{"error": ..., "message": ...}`.
/// The empty instance stands in when the service answers with a status code
/// this library does not recognize.
#[derive(Debug, PartialEq)]
pub struct NO {
    pub error: String,
    pub message: String,
}

/// Mathematical image of `NO`: both fields as character sequences.
pub ghost struct NoView {
    pub error: Seq<char>,
    pub message: Seq<char>,
}

/// Mathematical image of `Response<T>`: the payload replaced by its own image.
pub ghost enum ResponseView<V> {
    Success(V),
    Failure(NoView),
}

impl<T: View> View for Response<T> {
    type V = ResponseView<<T as View>::V>;

    open spec fn view(&self) -> ResponseView<<T as View>::V> {
        match self {
            Response::Success(t) => ResponseView::Success(t@),
            Response::Failure(no) => ResponseView::Failure(no@),
        }
    }
}

impl View for NO {
    type V = NoView;

    open spec fn view(&self) -> NoView {
        NoView { error: self.error@, message: self.message@ }
    }
}

impl NO {
    pub fn new(error: String, message: String) -> (r: Self)
        ensures
            r@.error == error@,
            r@.message == message@,
    {
        NO { error, message }
    }
}

impl Default for NO {
    /// The fallback payload: both fields empty.
    fn default() -> (r: Self)
        ensures
            r@.error == Seq::<char>::empty(),
            r@.message == Seq::<char>::empty(),
    {
        NO { error: String::new(), message: String::new() }
    }
}

impl<T> Response<T> {
    /// The successful payload; callers must first establish that the outcome
    /// was a success.
    pub fn unwrap(self) -> (r: T)
        requires
            self is Success,
        ensures
            self == Response::<T>::Success(r),
    {
        match self {
            Response::Success(value) => value,
            Response::Failure(_) => unreached(),
        }
    }
}

} // verus!
