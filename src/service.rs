//! The request handler that the multiplexer dispatches to.

use vstd::prelude::*;

use crate::frame::{RequestFrame, ResponseFrame, Tagged};

verus! {

/// State that handlers of one server may share; this handler needs none.
pub struct SharedData {}

/// A handler that answers every request with the empty success, under the
/// request's own tag.
#[derive(Debug)]
pub struct KiteService;

impl KiteService {
    /// Whether the handler can take another request now; it always can.
    pub fn poll_ready(&mut self) -> (r: bool)
        ensures
            r,
    {
        true
    }

    /// The response to `req`: the empty success, carrying the tag of `req`.
    pub fn call(&mut self, req: Tagged<RequestFrame>) -> (r: Tagged<ResponseFrame>)
        ensures
            r.tag == req.tag,
            r.v.is_empty_success(),
    {
        let tag = req.tag;
        let mut response = Tagged::<ResponseFrame>::from(ResponseFrame::default());
        response.tag = tag;
        response
    }
}

} // verus!
