//! Dispatch of an accumulated request to the responders. The registry is
//! ordered and the first responder whose answer applies wins; the default
//! configuration holds the filesystem responder, which answers every
//! request that parses. A request that does not parse gets no response at
//! all: the connection is closed without a reply.
use vstd::prelude::*;

pub mod tcp;
pub mod types;

use crate::request::message_of;
use crate::request::HttpRequestMessage;
use crate::response::types::fs_matches;
use crate::response::types::response_bytes;
use crate::response::types::status_not_found;
use crate::response::types::status_ok;
use crate::response::types::Filesystem;

verus! {

/// Finds the appropriate response for one accumulated request.
pub struct Dispatcher {}

impl Dispatcher {
    /// The computing part of connection dispatch: a request that parses
    /// as an HTTP message is answered by the filesystem responder — the
    /// index page under "200 OK" for its recognized prefixes, the
    /// not-found page under "404 NOT FOUND" otherwise — and a request
    /// that does not parse gets no response. The caller reads the two
    /// page files, passes their bytes, and writes the returned bytes
    /// back to the connection.
    pub fn dispatch_request(
        buffer: &[u8],
        index_body: &[u8],
        not_found_body: &[u8],
    ) -> (r: Option<Vec<u8>>)
        ensures
            (match r {
                Some(resp) => message_of(buffer@) is Some && resp@ == (if fs_matches(
                    buffer@,
                ) {
                    response_bytes(status_ok(), index_body@)
                } else {
                    response_bytes(status_not_found(), not_found_body@)
                }),
                None => message_of(buffer@) is None,
            }),
    {
        match HttpRequestMessage::from_tcp_stream(buffer) {
            None => None,
            Some(_message) => Some(
                Filesystem::respond(buffer, index_body, not_found_body),
            ),
        }
    }
}

} // verus!
