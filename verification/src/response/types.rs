//! The concrete filesystem responder of the default configuration. It
//! recognizes two fixed request prefixes and answers with the configured
//! index page; every other request gets the configured not-found page.
//! The caller supplies both page bodies, and performs the slow route's
//! deliberate delay itself (see `is_slow`).
use vstd::prelude::*;

use crate::text::append_bytes;
use crate::text::ascii_bytes;
use crate::text::has_prefix;
use crate::text::starts_with;

verus! {

/// The bytes of "GET / ".
pub open spec fn index_prefix() -> Seq<u8> {
    seq![71u8, 69u8, 84u8, 32u8, 47u8, 32u8]
}

/// The bytes of "GET /sleep ".
pub open spec fn sleep_prefix() -> Seq<u8> {
    seq![71u8, 69u8, 84u8, 32u8, 47u8, 115u8, 108u8, 101u8, 101u8, 112u8, 32u8]
}

/// The bytes of "200 OK".
pub open spec fn status_ok() -> Seq<u8> {
    seq![50u8, 48u8, 48u8, 32u8, 79u8, 75u8]
}

/// The bytes of "404 NOT FOUND".
pub open spec fn status_not_found() -> Seq<u8> {
    seq![52u8, 48u8, 52u8, 32u8, 78u8, 79u8, 84u8, 32u8, 70u8, 79u8, 85u8, 78u8, 68u8]
}

/// The bytes of "HTTP/1.1 ", which open every response's status line.
pub open spec fn response_head() -> Seq<u8> {
    seq![72u8, 84u8, 84u8, 80u8, 47u8, 49u8, 46u8, 49u8, 32u8]
}

/// The bytes of "\r\nContent-Type: text/html\r\n\r\n", which close the
/// status line, carry the one fixed header, and end the header block.
pub open spec fn response_tail() -> Seq<u8> {
    seq![
        13u8,
        10u8,
        67u8,
        111u8,
        110u8,
        116u8,
        101u8,
        110u8,
        116u8,
        45u8,
        84u8,
        121u8,
        112u8,
        101u8,
        58u8,
        32u8,
        116u8,
        101u8,
        120u8,
        116u8,
        47u8,
        104u8,
        116u8,
        109u8,
        108u8,
        13u8,
        10u8,
        13u8,
        10u8,
    ]
}

/// A whole serialized response: the protocol prefix, the status, the
/// fixed headers, a blank line, then the body.
pub open spec fn response_bytes(status: Seq<u8>, body: Seq<u8>) -> Seq<u8> {
    response_head() + status + response_tail() + body
}

/// True for the requests this responder recognizes by prefix.
pub open spec fn fs_matches(request: Seq<u8>) -> bool {
    starts_with(request, index_prefix()) || starts_with(request, sleep_prefix())
}

fn index_prefix_vec() -> (r: Vec<u8>)
    ensures
        r@ == index_prefix(),
{
    proof {
        reveal_strlit("GET / ");
    }
    let v = ascii_bytes("GET / ");
    assert(v@ =~= index_prefix());
    v
}

fn sleep_prefix_vec() -> (r: Vec<u8>)
    ensures
        r@ == sleep_prefix(),
{
    proof {
        reveal_strlit("GET /sleep ");
    }
    let v = ascii_bytes("GET /sleep ");
    assert(v@ =~= sleep_prefix());
    v
}

fn status_ok_vec() -> (r: Vec<u8>)
    ensures
        r@ == status_ok(),
{
    proof {
        reveal_strlit("200 OK");
    }
    let v = ascii_bytes("200 OK");
    assert(v@ =~= status_ok());
    v
}

fn status_not_found_vec() -> (r: Vec<u8>)
    ensures
        r@ == status_not_found(),
{
    proof {
        reveal_strlit("404 NOT FOUND");
    }
    let v = ascii_bytes("404 NOT FOUND");
    assert(v@ =~= status_not_found());
    v
}

fn response_head_vec() -> (r: Vec<u8>)
    ensures
        r@ == response_head(),
{
    proof {
        reveal_strlit("HTTP/1.1 ");
    }
    let v = ascii_bytes("HTTP/1.1 ");
    assert(v@ =~= response_head());
    v
}

fn response_tail_vec() -> (r: Vec<u8>)
    ensures
        r@ == response_tail(),
{
    proof {
        reveal_strlit("\r\nContent-Type: text/html\r\n\r\n");
    }
    let v = ascii_bytes("\r\nContent-Type: text/html\r\n\r\n");
    assert(v@ =~= response_tail());
    v
}

/// The responder backed by configured page files.
pub struct Filesystem {}

impl Filesystem {
    /// True for the fixed request prefixes this responder recognizes.
    pub fn matches(request: &[u8]) -> (r: bool)
        ensures
            r == fs_matches(request@),
    {
        let get = index_prefix_vec();
        if has_prefix(request, get.as_slice()) {
            return true;
        }
        let sleep = sleep_prefix_vec();
        if has_prefix(request, sleep.as_slice()) {
            return true;
        }
        false
    }

    /// True for the route that deliberately delays its response; the
    /// caller performs the delay before responding.
    pub fn is_slow(request: &[u8]) -> (r: bool)
        ensures
            r == starts_with(request@, sleep_prefix()),
    {
        let sleep = sleep_prefix_vec();
        has_prefix(request, sleep.as_slice())
    }

    /// The response for a request: the index page under "200 OK" for the
    /// recognized prefixes, else the not-found page under "404 NOT
    /// FOUND". The caller reads both page files and passes their bytes.
    pub fn respond(request: &[u8], index_body: &[u8], not_found_body: &[u8]) -> (r: Vec<
        u8,
    >)
        ensures
            r@ == (if fs_matches(request@) {
                response_bytes(status_ok(), index_body@)
            } else {
                response_bytes(status_not_found(), not_found_body@)
            }),
    {
        if Self::matches(request) {
            let status = status_ok_vec();
            Self::build_response(status.as_slice(), index_body)
        } else {
            let status = status_not_found_vec();
            Self::build_response(status.as_slice(), not_found_body)
        }
    }

    /// Serializes a status line and a body into response bytes.
    pub fn build_response(status_line: &[u8], body: &[u8]) -> (r: Vec<u8>)
        ensures
            r@ == response_bytes(status_line@, body@),
    {
        let mut r = response_head_vec();
        append_bytes(&mut r, status_line);
        let tail = response_tail_vec();
        append_bytes(&mut r, tail.as_slice());
        append_bytes(&mut r, body);
        assert(r@ =~= response_bytes(status_line@, body@));
        r
    }
}

} // verus!
