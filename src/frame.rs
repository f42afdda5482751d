//! Request and response frames and the tagged envelope that carries them.

use vstd::prelude::*;

verus! {

/// What a client asks of the handler.
#[derive(Debug, PartialEq, Eq)]
pub struct RequestPayload {
    pub body: Vec<u8>,
}

/// What the handler hands back on success: no payload, or some bytes.
#[derive(Debug, PartialEq, Eq)]
pub enum ResponsePayload {
    Empty,
    Data(Vec<u8>),
}

/// A failure inside one request's handling, sent back to that request's caller.
#[derive(Debug, PartialEq, Eq)]
pub struct HandlerError {
    pub message: String,
}

/// The outcome of one request: a payload or an error, never both.
pub type ResponseResult = Result<ResponsePayload, HandlerError>;

/// One decoded request from the wire.
#[derive(Debug)]
pub struct RequestFrame {
    pub payload: RequestPayload,
}

/// One response to be encoded onto the wire.
#[derive(Debug)]
pub struct ResponseFrame {
    pub payload: ResponseResult,
}

impl ResponseFrame {
    /// The frame is a success that carries no payload.
    pub open spec fn is_empty_success(&self) -> bool {
        self.payload == Ok::<ResponsePayload, HandlerError>(ResponsePayload::Empty)
    }
}

impl Default for ResponseFrame {
    /// The empty success.
    fn default() -> (r: ResponseFrame)
        ensures
            r.is_empty_success(),
    {
        ResponseFrame { payload: Ok(ResponsePayload::Empty) }
    }
}

/// A value together with the correlation tag of the exchange it belongs to.
#[derive(Debug)]
pub struct Tagged<T> {
    pub v: T,
    pub tag: u32,
}

impl<T> Tagged<T> {
    /// `v` under the tag `tag`.
    pub fn new(v: T, tag: u32) -> (r: Tagged<T>)
        ensures
            r.v == v,
            r.tag == tag,
    {
        Tagged { v, tag }
    }

    /// `v` under the tag of `self`: how a response takes over the tag of the
    /// request it answers.
    pub fn retag<U>(&self, v: U) -> (r: Tagged<U>)
        ensures
            r.v == v,
            r.tag == self.tag,
    {
        Tagged { v, tag: self.tag }
    }
}

impl<T> From<T> for Tagged<T> {
    /// `t` under tag 0, before a tag is assigned.
    fn from(t: T) -> (r: Tagged<T>) {
        Tagged { v: t, tag: 0 }
    }
}

impl<T> vstd::std_specs::convert::FromSpecImpl<T> for Tagged<T> {
    open spec fn obeys_from_spec() -> bool {
        true
    }

    open spec fn from_spec(v: T) -> Tagged<T> {
        Tagged { v, tag: 0 }
    }
}

} // verus!
