//! The plain transports: owned or borrowed response bytes, and how a
//! shared memory transport splits a request into channel and payload.

use vstd::prelude::*;
use crate::wire::tail_from;

verus! {

/// A response: bytes owned or borrowed, or an already typed value.
pub enum Response<'a, T> {
    Owned(Vec<u8>),
    Borrowed(&'a [u8]),
    Typed(T),
}

impl<'a, T> Response<'a, T> {
    /// The response's bytes; a typed response has none.
    pub fn into_owned(self) -> (r: Vec<u8>)
        ensures
            r@ == match self {
                Response::Owned(v) => v@,
                Response::Borrowed(b) => b@,
                Response::Typed(_) => Seq::<u8>::empty(),
            },
    {
        match self {
            Response::Owned(v) => v,
            Response::Borrowed(b) => tail_from(b, 0),
            Response::Typed(_) => Vec::new(),
        }
    }
}

/// The transport over a pair of shared memory rings.
pub struct ShmTransport;

impl ShmTransport {
    /// A request's channel is its first byte; the rest is the payload.
    pub fn split_request(data: &[u8]) -> (r: (u8, Vec<u8>))
        requires
            data@.len() > 0,
        ensures
            r.0 == data@[0],
            r.1@ == data@.skip(1),
    {
        (data[0], tail_from(data, 1))
    }
}

} // verus!
