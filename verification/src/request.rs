//! The HTTP request parser: a line-oriented state machine that turns the
//! raw bytes of one connection into a structured request message. Input
//! must be ASCII; the request line is tokenized on spaces, header lines are
//! split on the first colon, and query strings and bodies are
//! ampersand-separated `key=value` pairs in which a missing value defaults
//! to "1" and the latest entry for a key wins.
use vstd::prelude::*;

use crate::pairs::PairMap;
use crate::text::find_first;
use crate::text::is_ascii;
use crate::text::is_ascii_seq;
use crate::text::lines_of;
use crate::text::split_all;
use crate::text::split_first;
use crate::text::split_lines;
use crate::text::split_on;
use crate::text::split_once;
use crate::text::subvec;
use crate::text::trim;
use crate::text::trim_bytes;
use crate::text::views_of;

verus! {

#[derive(Clone, Copy, Debug, PartialEq, Eq, Structural)]
pub enum HttpRequestMethod {
    Connect,
    Delete,
    Get,
    Head,
    Invalid,
    Options,
    Patch,
    Post,
    Put,
    Trace,
}

#[derive(Clone, Copy, Debug, PartialEq, Eq, Structural)]
pub enum HttpRequestProtocol {
    Invalid,
    OneDotZero,
    OneDotOne,
    TwoDotZero,
    ZeroDotNine,
}

/// The three states of the parser: the request line, then header fields,
/// then the message body.
#[derive(Clone, Copy, Debug, PartialEq, Eq, Structural)]
pub enum HttpRequestSection {
    RequestLine,
    HeaderFields,
    MessageBody,
}

/// Whether a method carries a body: yes, no, or optionally.
#[derive(Clone, Copy, Debug, PartialEq, Eq, Structural)]
pub enum HttpSettingValence {
    Optional,
    No,
    Yes,
}

/// The method named by a request-line token: the bytes of "CONNECT",
/// "DELETE", "GET", "HEAD", "OPTIONS", "PATCH", "PUT", "POST" or "TRACE".
pub open spec fn method_of(tok: Seq<u8>) -> HttpRequestMethod {
    if tok == seq![67u8, 79u8, 78u8, 78u8, 69u8, 67u8, 84u8] {
        HttpRequestMethod::Connect
    } else if tok == seq![68u8, 69u8, 76u8, 69u8, 84u8, 69u8] {
        HttpRequestMethod::Delete
    } else if tok == seq![71u8, 69u8, 84u8] {
        HttpRequestMethod::Get
    } else if tok == seq![72u8, 69u8, 65u8, 68u8] {
        HttpRequestMethod::Head
    } else if tok == seq![79u8, 80u8, 84u8, 73u8, 79u8, 78u8, 83u8] {
        HttpRequestMethod::Options
    } else if tok == seq![80u8, 65u8, 84u8, 67u8, 72u8] {
        HttpRequestMethod::Patch
    } else if tok == seq![80u8, 85u8, 84u8] {
        HttpRequestMethod::Put
    } else if tok == seq![80u8, 79u8, 83u8, 84u8] {
        HttpRequestMethod::Post
    } else if tok == seq![84u8, 82u8, 65u8, 67u8, 69u8] {
        HttpRequestMethod::Trace
    } else {
        HttpRequestMethod::Invalid
    }
}

/// The protocol named by a request-line token: the bytes of "HTTP/0.9",
/// "HTTP/1.0", "HTTP/1.1" or "HTTP/2.0".
pub open spec fn protocol_of(tok: Seq<u8>) -> HttpRequestProtocol {
    if tok == seq![72u8, 84u8, 84u8, 80u8, 47u8, 48u8, 46u8, 57u8] {
        HttpRequestProtocol::ZeroDotNine
    } else if tok == seq![72u8, 84u8, 84u8, 80u8, 47u8, 49u8, 46u8, 48u8] {
        HttpRequestProtocol::OneDotZero
    } else if tok == seq![72u8, 84u8, 84u8, 80u8, 47u8, 49u8, 46u8, 49u8] {
        HttpRequestProtocol::OneDotOne
    } else if tok == seq![72u8, 84u8, 84u8, 80u8, 47u8, 50u8, 46u8, 48u8] {
        HttpRequestProtocol::TwoDotZero
    } else {
        HttpRequestProtocol::Invalid
    }
}

/// The key/value pair read from one `&`-separated item: split on `=`, and
/// exactly two parts give a key and a value; any other shape gives the
/// whole first part as the key with the literal value "1".
pub open spec fn pair_of(item: Seq<u8>) -> (Seq<u8>, Seq<u8>) {
    let parts = split_on(item, 61);
    if parts.len() == 2 {
        (parts[0], parts[1])
    } else {
        (parts[0], seq![49u8])
    }
}

/// Each item's pair inserted into `m` in order, so the latest entry for a
/// key wins.
pub open spec fn insert_pairs(m: Map<Seq<u8>, Seq<u8>>, items: Seq<Seq<u8>>) -> Map<
    Seq<u8>,
    Seq<u8>,
>
    decreases items.len(),
{
    if items.len() == 0 {
        m
    } else {
        insert_pairs(m, items.drop_last()).insert(
            pair_of(items.last()).0,
            pair_of(items.last()).1,
        )
    }
}

/// The mapping read from an `&`-separated list of `key=value` items.
pub open spec fn pairs_of(s: Seq<u8>) -> Map<Seq<u8>, Seq<u8>> {
    insert_pairs(Map::empty(), split_on(s, 38))
}

/// The header read from one line: both sides of the first colon, trimmed;
/// a line that is blank or has no colon gives no header.
pub open spec fn header_field_of(line: Seq<u8>) -> Option<(Seq<u8>, Seq<u8>)> {
    let t = trim(line);
    if t.len() == 0 {
        None
    } else {
        match split_first(t, 58) {
            Some(kv) => Some((trim(kv.0), trim(kv.1))),
            None => None,
        }
    }
}

/// The parsed request line: the method and protocol, the URI, and the
/// URI's decomposition around the first `?`.
pub struct HttpRequestLine {
    pub method: HttpRequestMethod,
    pub protocol: HttpRequestProtocol,
    pub request_uri: Vec<u8>,
    pub request_uri_base: Vec<u8>,
    pub query_arguments: PairMap,
    pub query_string: Vec<u8>,
}

/// The mathematical reading of a request line.
#[verifier::ext_equal]
pub struct RequestLineView {
    pub method: HttpRequestMethod,
    pub protocol: HttpRequestProtocol,
    pub request_uri: Seq<u8>,
    pub request_uri_base: Seq<u8>,
    pub query_arguments: Map<Seq<u8>, Seq<u8>>,
    pub query_string: Seq<u8>,
}

impl View for HttpRequestLine {
    type V = RequestLineView;

    open spec fn view(&self) -> RequestLineView {
        RequestLineView {
            method: self.method,
            protocol: self.protocol,
            request_uri: self.request_uri@,
            request_uri_base: self.request_uri_base@,
            query_arguments: self.query_arguments@,
            query_string: self.query_string@,
        }
    }
}

/// The request line assembled from a method, a protocol and a URI: the URI
/// is split once on `?` into a base and a query string, and the query
/// string is read as `key=value` pairs; without `?` both stay empty.
pub open spec fn uri_parts_of(
    m: HttpRequestMethod,
    p: HttpRequestProtocol,
    uri: Seq<u8>,
) -> RequestLineView {
    match split_first(uri, 63) {
        Some(bq) => RequestLineView {
            method: m,
            protocol: p,
            request_uri: uri,
            request_uri_base: bq.0,
            query_arguments: pairs_of(bq.1),
            query_string: bq.1,
        },
        None => RequestLineView {
            method: m,
            protocol: p,
            request_uri: uri,
            request_uri_base: uri,
            query_arguments: Map::empty(),
            query_string: Seq::empty(),
        },
    }
}

/// The request line read from one line, after trimming: three
/// space-separated tokens give method, URI and protocol, and both the
/// method and the protocol must be recognized; a single token is the
/// pre-1.0 form, read as a GET of that URI under protocol 0.9; any other
/// token count gives no request line.
pub open spec fn request_line_of(line: Seq<u8>) -> Option<RequestLineView> {
    let parts = split_on(trim(line), 32);
    if parts.len() == 3 {
        if method_of(parts[0]) != HttpRequestMethod::Invalid && protocol_of(parts[2])
            != HttpRequestProtocol::Invalid {
            Some(uri_parts_of(method_of(parts[0]), protocol_of(parts[2]), parts[1]))
        } else {
            None
        }
    } else if parts.len() == 1 {
        Some(
            uri_parts_of(
                HttpRequestMethod::Get,
                HttpRequestProtocol::ZeroDotNine,
                parts[0],
            ),
        )
    } else {
        None
    }
}

/// A trimmed request line of exactly three space-separated tokens whose
/// first token is a recognized method and whose third is a recognized
/// protocol parses, and every field of the result is the decomposition of
/// the middle token around its first `?`.
pub proof fn law_request_line_three_tokens(line: Seq<u8>)
    requires
        split_on(trim(line), 32).len() == 3,
        method_of(split_on(trim(line), 32)[0]) != HttpRequestMethod::Invalid,
        protocol_of(split_on(trim(line), 32)[2]) != HttpRequestProtocol::Invalid,
    ensures
        request_line_of(line) == Some(
            uri_parts_of(
                method_of(split_on(trim(line), 32)[0]),
                protocol_of(split_on(trim(line), 32)[2]),
                split_on(trim(line), 32)[1],
            ),
        ),
{
}

/// A trimmed request line of exactly one token parses as a GET of that
/// token under protocol 0.9.
pub proof fn law_request_line_single_token(line: Seq<u8>)
    requires
        split_on(trim(line), 32).len() == 1,
    ensures
        request_line_of(line) == Some(
            uri_parts_of(
                HttpRequestMethod::Get,
                HttpRequestProtocol::ZeroDotNine,
                split_on(trim(line), 32)[0],
            ),
        ),
{
}

/// Any other token count, and an unrecognized method or protocol among
/// three tokens, give no request line.
pub proof fn law_request_line_rejected(line: Seq<u8>)
    requires
        split_on(trim(line), 32).len() != 1,
        split_on(trim(line), 32).len() != 3 || method_of(split_on(trim(line), 32)[0])
            == HttpRequestMethod::Invalid || protocol_of(split_on(trim(line), 32)[2])
            == HttpRequestProtocol::Invalid,
    ensures
        request_line_of(line) is None,
{
}

/// A line whose trimmed text holds no colon gives no header entry, and a
/// line that does parse never has an empty header: its key and value are
/// the trimmed sides of the first colon.
pub proof fn law_header_needs_colon(line: Seq<u8>)
    ensures
        find_first(trim(line), 58) is None ==> header_field_of(line) is None,
        header_field_of(line) is Some ==> find_first(trim(line), 58) is Some,
{
}

/// A successfully parsed message never carries an invalid method or
/// protocol: the three-token form checks both, and the single-token form
/// fixes them to GET under protocol 0.9.
pub proof fn law_parsed_message_never_invalid(bytes: Seq<u8>)
    ensures
        (match message_of(bytes) {
            Some(m) => m.request_line.method != HttpRequestMethod::Invalid
                && m.request_line.protocol != HttpRequestProtocol::Invalid,
            None => true,
        }),
{
}

fn method_from_token(tok: &[u8]) -> (m: HttpRequestMethod)
    ensures
        m == method_of(tok@),
{
    let n = tok.len();
    if n == 7 && tok[0] == 67 && tok[1] == 79 && tok[2] == 78 && tok[3] == 78 && tok[4] == 69
        && tok[5] == 67 && tok[6] == 84 {
        proof {
            assert(tok@ =~= seq![67u8, 79u8, 78u8, 78u8, 69u8, 67u8, 84u8]);
        }
        HttpRequestMethod::Connect
    } else if n == 6 && tok[0] == 68 && tok[1] == 69 && tok[2] == 76 && tok[3] == 69 && tok[4]
        == 84 && tok[5] == 69 {
        proof {
            assert(tok@ =~= seq![68u8, 69u8, 76u8, 69u8, 84u8, 69u8]);
        }
        HttpRequestMethod::Delete
    } else if n == 3 && tok[0] == 71 && tok[1] == 69 && tok[2] == 84 {
        proof {
            assert(tok@ =~= seq![71u8, 69u8, 84u8]);
        }
        HttpRequestMethod::Get
    } else if n == 4 && tok[0] == 72 && tok[1] == 69 && tok[2] == 65 && tok[3] == 68 {
        proof {
            assert(tok@ =~= seq![72u8, 69u8, 65u8, 68u8]);
        }
        HttpRequestMethod::Head
    } else if n == 7 && tok[0] == 79 && tok[1] == 80 && tok[2] == 84 && tok[3] == 73 && tok[4]
        == 79 && tok[5] == 78 && tok[6] == 83 {
        proof {
            assert(tok@ =~= seq![79u8, 80u8, 84u8, 73u8, 79u8, 78u8, 83u8]);
        }
        HttpRequestMethod::Options
    } else if n == 5 && tok[0] == 80 && tok[1] == 65 && tok[2] == 84 && tok[3] == 67 && tok[4]
        == 72 {
        proof {
            assert(tok@ =~= seq![80u8, 65u8, 84u8, 67u8, 72u8]);
        }
        HttpRequestMethod::Patch
    } else if n == 3 && tok[0] == 80 && tok[1] == 85 && tok[2] == 84 {
        proof {
            assert(tok@ =~= seq![80u8, 85u8, 84u8]);
        }
        HttpRequestMethod::Put
    } else if n == 4 && tok[0] == 80 && tok[1] == 79 && tok[2] == 83 && tok[3] == 84 {
        proof {
            assert(tok@ =~= seq![80u8, 79u8, 83u8, 84u8]);
        }
        HttpRequestMethod::Post
    } else if n == 5 && tok[0] == 84 && tok[1] == 82 && tok[2] == 65 && tok[3] == 67 && tok[4]
        == 69 {
        proof {
            assert(tok@ =~= seq![84u8, 82u8, 65u8, 67u8, 69u8]);
        }
        HttpRequestMethod::Trace
    } else {
        HttpRequestMethod::Invalid
    }
}

fn protocol_from_token(tok: &[u8]) -> (p: HttpRequestProtocol)
    ensures
        p == protocol_of(tok@),
{
    let n = tok.len();
    if n == 8 && tok[0] == 72 && tok[1] == 84 && tok[2] == 84 && tok[3] == 80 && tok[4] == 47
        && tok[5] == 48 && tok[6] == 46 && tok[7] == 57 {
        proof {
            assert(tok@ =~= seq![72u8, 84u8, 84u8, 80u8, 47u8, 48u8, 46u8, 57u8]);
        }
        HttpRequestProtocol::ZeroDotNine
    } else if n == 8 && tok[0] == 72 && tok[1] == 84 && tok[2] == 84 && tok[3] == 80 && tok[4]
        == 47 && tok[5] == 49 && tok[6] == 46 && tok[7] == 48 {
        proof {
            assert(tok@ =~= seq![72u8, 84u8, 84u8, 80u8, 47u8, 49u8, 46u8, 48u8]);
        }
        HttpRequestProtocol::OneDotZero
    } else if n == 8 && tok[0] == 72 && tok[1] == 84 && tok[2] == 84 && tok[3] == 80 && tok[4]
        == 47 && tok[5] == 49 && tok[6] == 46 && tok[7] == 49 {
        proof {
            assert(tok@ =~= seq![72u8, 84u8, 84u8, 80u8, 47u8, 49u8, 46u8, 49u8]);
        }
        HttpRequestProtocol::OneDotOne
    } else if n == 8 && tok[0] == 72 && tok[1] == 84 && tok[2] == 84 && tok[3] == 80 && tok[4]
        == 47 && tok[5] == 50 && tok[6] == 46 && tok[7] == 48 {
        proof {
            assert(tok@ =~= seq![72u8, 84u8, 84u8, 80u8, 47u8, 50u8, 46u8, 48u8]);
        }
        HttpRequestProtocol::TwoDotZero
    } else {
        HttpRequestProtocol::Invalid
    }
}

/// Parses an `&`-separated list of `key=value` items into a pair map.
fn parse_pairs(s: &[u8]) -> (r: PairMap)
    ensures
        r@ == pairs_of(s@),
{
    let items = split_all(s, 38);
    let mut pm = PairMap::new();
    let mut k: usize = 0;
    while k < items.len()
        invariant
            0 <= k <= items@.len(),
            views_of(items@) == split_on(s@, 38),
            pm@ == insert_pairs(Map::empty(), views_of(items@).take(k as int)),
        decreases items@.len() - k,
    {
        let item = &items[k];
        proof {
            crate::text::lemma_split_on_len(item@, 61);
        }
        let mut parts = split_all(item.as_slice(), 61);
        assert(parts@.len() == split_on(item@, 61).len());
        let ghost item_view = item@;
        if parts.len() == 2 {
            let value = parts.pop().unwrap();
            let key = parts.pop().unwrap();
            assert(key@ == split_on(item_view, 61)[0]);
            assert(value@ == split_on(item_view, 61)[1]);
            pm.insert(key, value);
        } else {
            let first = parts.remove(0);
            assert(first@ == split_on(item_view, 61)[0]);
            let mut one: Vec<u8> = Vec::new();
            one.push(49);
            assert(one@ =~= seq![49u8]);
            pm.insert(first, one);
        }
        proof {
            assert(views_of(items@).take(k + 1 as int).drop_last() =~= views_of(
                items@,
            ).take(k as int));
            assert(views_of(items@).take(k + 1 as int).last() == item_view);
        }
        k = k + 1;
    }
    proof {
        assert(views_of(items@).take(items@.len() as int) =~= views_of(items@));
    }
    pm
}

/// The whole parsed request message.
pub struct HttpRequestMessage {
    pub body: PairMap,
    pub headers: PairMap,
    pub request_line: HttpRequestLine,
}

/// The mathematical reading of a request message.
#[verifier::ext_equal]
pub struct MessageView {
    pub body: Map<Seq<u8>, Seq<u8>>,
    pub headers: Map<Seq<u8>, Seq<u8>>,
    pub request_line: RequestLineView,
}

impl View for HttpRequestMessage {
    type V = MessageView;

    open spec fn view(&self) -> MessageView {
        MessageView {
            body: self.body@,
            headers: self.headers@,
            request_line: self.request_line@,
        }
    }
}

/// The header and body mappings gathered from the lines after the request
/// line. In the header section a blank line moves to the body section, a
/// header line adds its entry, and a line without a colon adds nothing. In
/// the body section an empty line ends the message; otherwise, when the
/// method carries a body, the line's pairs replace the body read so far,
/// and when it does not, the line is ignored. The request-line state is
/// left before this fold starts, so it gathers nothing.
pub open spec fn fold_message(
    has_body: bool,
    ls: Seq<Seq<u8>>,
    section: HttpRequestSection,
    headers: Map<Seq<u8>, Seq<u8>>,
    body: Map<Seq<u8>, Seq<u8>>,
) -> (Map<Seq<u8>, Seq<u8>>, Map<Seq<u8>, Seq<u8>>)
    decreases ls.len(),
{
    if ls.len() == 0 {
        (headers, body)
    } else {
        let line = ls[0];
        match section {
            HttpRequestSection::RequestLine => (headers, body),
            HttpRequestSection::HeaderFields => {
                if trim(line).len() == 0 {
                    fold_message(
                        has_body,
                        ls.drop_first(),
                        HttpRequestSection::MessageBody,
                        headers,
                        body,
                    )
                } else {
                    match header_field_of(line) {
                        Some(kv) => fold_message(
                            has_body,
                            ls.drop_first(),
                            HttpRequestSection::HeaderFields,
                            headers.insert(kv.0, kv.1),
                            body,
                        ),
                        None => fold_message(
                            has_body,
                            ls.drop_first(),
                            HttpRequestSection::HeaderFields,
                            headers,
                            body,
                        ),
                    }
                }
            },
            HttpRequestSection::MessageBody => {
                if line.len() == 0 {
                    (headers, body)
                } else if has_body {
                    fold_message(
                        has_body,
                        ls.drop_first(),
                        HttpRequestSection::MessageBody,
                        headers,
                        pairs_of(line),
                    )
                } else {
                    fold_message(
                        has_body,
                        ls.drop_first(),
                        HttpRequestSection::MessageBody,
                        headers,
                        body,
                    )
                }
            },
        }
    }
}

/// The message read from the raw bytes of one connection: the bytes must
/// be ASCII and hold at least one line, the first line must parse as a
/// request line, and the remaining lines are folded into the header and
/// body mappings.
pub open spec fn message_of(bytes: Seq<u8>) -> Option<MessageView> {
    if !is_ascii_seq(bytes) {
        None
    } else {
        let ls = lines_of(bytes);
        if ls.len() == 0 {
            None
        } else {
            match request_line_of(ls[0]) {
                None => None,
                Some(rl) => {
                    let hb = fold_message(
                        valence_of(rl.method) != HttpSettingValence::No,
                        ls.drop_first(),
                        HttpRequestSection::HeaderFields,
                        Map::empty(),
                        Map::empty(),
                    );
                    Some(MessageView { body: hb.1, headers: hb.0, request_line: rl })
                },
            }
        }
    }
}

/// The parser's section while walking the lines after the request line.
pub open spec fn section_state(in_body: bool) -> HttpRequestSection {
    if in_body {
        HttpRequestSection::MessageBody
    } else {
        HttpRequestSection::HeaderFields
    }
}

/// Whether a method carries a request body.
pub open spec fn valence_of(method: HttpRequestMethod) -> HttpSettingValence {
    match method {
        HttpRequestMethod::Connect => HttpSettingValence::Yes,
        HttpRequestMethod::Delete => HttpSettingValence::No,
        HttpRequestMethod::Get => HttpSettingValence::Optional,
        HttpRequestMethod::Head => HttpSettingValence::No,
        HttpRequestMethod::Options => HttpSettingValence::Optional,
        HttpRequestMethod::Patch => HttpSettingValence::Yes,
        HttpRequestMethod::Post => HttpSettingValence::Yes,
        HttpRequestMethod::Put => HttpSettingValence::Yes,
        HttpRequestMethod::Trace => HttpSettingValence::Yes,
        HttpRequestMethod::Invalid => HttpSettingValence::Optional,
    }
}

impl HttpRequestMessage {
    pub fn method_has_request_body(method: &HttpRequestMethod) -> (r: HttpSettingValence)
        ensures
            r == valence_of(*method),
    {
        match method {
            HttpRequestMethod::Connect => HttpSettingValence::Yes,
            HttpRequestMethod::Delete => HttpSettingValence::No,
            HttpRequestMethod::Get => HttpSettingValence::Optional,
            HttpRequestMethod::Head => HttpSettingValence::No,
            HttpRequestMethod::Options => HttpSettingValence::Optional,
            HttpRequestMethod::Patch => HttpSettingValence::Yes,
            HttpRequestMethod::Post => HttpSettingValence::Yes,
            HttpRequestMethod::Put => HttpSettingValence::Yes,
            HttpRequestMethod::Trace => HttpSettingValence::Yes,
            HttpRequestMethod::Invalid => HttpSettingValence::Optional,
        }
    }

    pub fn _method_has_response_body(method: &HttpRequestMethod) -> (r: bool)
        ensures
            r == (*method != HttpRequestMethod::Head),
    {
        match method {
            HttpRequestMethod::Head => false,
            _ => true,
        }
    }

    pub fn _method_is_safe(method: &HttpRequestMethod) -> (r: bool)
        ensures
            r == (match *method {
                HttpRequestMethod::Get => true,
                HttpRequestMethod::Head => true,
                HttpRequestMethod::Options => true,
                HttpRequestMethod::Trace => true,
                HttpRequestMethod::Invalid => true,
                _ => false,
            }),
    {
        match method {
            HttpRequestMethod::Get => true,
            HttpRequestMethod::Head => true,
            HttpRequestMethod::Options => true,
            HttpRequestMethod::Trace => true,
            HttpRequestMethod::Invalid => true,
            _ => false,
        }
    }

    pub fn _method_is_idempotent(method: &HttpRequestMethod) -> (r: bool)
        ensures
            r == (match *method {
                HttpRequestMethod::Connect => false,
                HttpRequestMethod::Patch => false,
                HttpRequestMethod::Post => false,
                _ => true,
            }),
    {
        match method {
            HttpRequestMethod::Connect => false,
            HttpRequestMethod::Patch => false,
            HttpRequestMethod::Post => false,
            _ => true,
        }
    }

    pub fn _method_is_cacheable(method: &HttpRequestMethod) -> (r: bool)
        ensures
            r == (match *method {
                HttpRequestMethod::Get => true,
                HttpRequestMethod::Head => true,
                HttpRequestMethod::Post => true,
                _ => false,
            }),
    {
        match method {
            HttpRequestMethod::Get => true,
            HttpRequestMethod::Head => true,
            HttpRequestMethod::Post => true,
            _ => false,
        }
    }

    /// Parses a message-body line of `key=value` pairs; an empty line
    /// gives nothing.
    pub fn get_message_body(body: &[u8]) -> (r: Option<PairMap>)
        ensures
            (match r {
                Some(pm) => body@.len() > 0 && pm@ == pairs_of(body@),
                None => body@.len() == 0,
            }),
    {
        if body.len() == 0 {
            None
        } else {
            Some(parse_pairs(body))
        }
    }

    /// Parses one header line into its key and value.
    pub fn get_header_field(line: &[u8]) -> (r: Option<(Vec<u8>, Vec<u8>)>)
        ensures
            (match r {
                Some(kv) => header_field_of(line@) == Some((kv.0@, kv.1@)),
                None => header_field_of(line@) is None,
            }),
    {
        let t = trim_bytes(line);
        if t.len() == 0 {
            None
        } else {
            match split_once(t.as_slice(), 58) {
                Some((left, right)) => {
                    let key = trim_bytes(left.as_slice());
                    let value = trim_bytes(right.as_slice());
                    Some((key, value))
                },
                None => None,
            }
        }
    }

    /// Parses the request line.
    pub fn get_request_line(line: &[u8]) -> (r: Option<HttpRequestLine>)
        ensures
            (match r {
                Some(rl) => request_line_of(line@) == Some(rl@),
                None => request_line_of(line@) is None,
            }),
    {
        let t = trim_bytes(line);
        let parts = split_all(t.as_slice(), 32);
        assert(parts@.len() == split_on(trim(line@), 32).len());
        if parts.len() == 3 {
            let method = method_from_token(parts[0].as_slice());
            let protocol = protocol_from_token(parts[2].as_slice());
            if method != HttpRequestMethod::Invalid && protocol
                != HttpRequestProtocol::Invalid {
                let uri = subvec(parts[1].as_slice(), 0, parts[1].len());
                assert(uri@ =~= split_on(trim(line@), 32)[1]);
                Some(Self::build_uri_parts(method, protocol, uri))
            } else {
                None
            }
        } else if parts.len() == 1 {
            let uri = subvec(parts[0].as_slice(), 0, parts[0].len());
            assert(uri@ =~= split_on(trim(line@), 32)[0]);
            Some(
                Self::build_uri_parts(
                    HttpRequestMethod::Get,
                    HttpRequestProtocol::ZeroDotNine,
                    uri,
                ),
            )
        } else {
            None
        }
    }

    /// Parses the raw bytes of one connection into a request message.
    pub fn from_tcp_stream(request: &[u8]) -> (r: Option<HttpRequestMessage>)
        ensures
            (match r {
                Some(msg) => message_of(request@) == Some(msg@),
                None => message_of(request@) is None,
            }),
    {
        if !is_ascii(request) {
            return None;
        }
        let ls = split_lines(request);
        if ls.len() == 0 {
            return None;
        }
        let ghost lines_view = views_of(ls@);
        assert(lines_view[0] == ls@[0]@);
        let request_line = match Self::get_request_line(ls[0].as_slice()) {
            None => {
                return None;
            },
            Some(parsed) => parsed,
        };
        let ghost rl = request_line@;
        assert(request_line_of(lines_view[0]) == Some(rl));
        let valence = Self::method_has_request_body(&request_line.method);
        let has_body = valence != HttpSettingValence::No;
        let ghost hb_spec = fold_message(
            has_body,
            lines_view.drop_first(),
            HttpRequestSection::HeaderFields,
            Map::empty(),
            Map::empty(),
        );
        let mut headers = PairMap::new();
        let mut body = PairMap::new();
        let mut in_body = false;
        let mut done = false;
        let mut k: usize = 1;
        assert(lines_view.skip(1) =~= lines_view.drop_first());
        while !done && k < ls.len()
            invariant
                1 <= k <= ls@.len(),
                lines_view == views_of(ls@),
                !done ==> hb_spec == fold_message(
                    has_body,
                    lines_view.skip(k as int),
                    section_state(in_body),
                    headers@,
                    body@,
                ),
                done ==> hb_spec == (headers@, body@),
            decreases ls@.len() - k,
        {
            let ghost rest = lines_view.skip(k as int);
            assert(rest[0] == ls@[k as int]@);
            assert(rest.drop_first() =~= lines_view.skip(k + 1));
            let line = &ls[k];
            if !in_body {
                let t = trim_bytes(line.as_slice());
                if t.len() == 0 {
                    in_body = true;
                } else {
                    match Self::get_header_field(line.as_slice()) {
                        Some((header_key, header_value)) => {
                            headers.insert(header_key, header_value);
                        },
                        None => {},
                    }
                }
            } else {
                if line.len() == 0 {
                    done = true;
                } else if has_body {
                    match Self::get_message_body(line.as_slice()) {
                        Some(body_args) => {
                            body = body_args;
                        },
                        None => {},
                    }
                }
            }
            k = k + 1;
        }
        proof {
            if !done {
                assert(lines_view.skip(ls@.len() as int) =~= Seq::<
                    Seq<u8>,
                >::empty());
            }
            assert(hb_spec == (headers@, body@));
        }
        let msg = HttpRequestMessage { body, headers, request_line };
        assert(msg@ =~= (MessageView {
            body: hb_spec.1,
            headers: hb_spec.0,
            request_line: rl,
        }));
        Some(msg)
    }

    /// Decomposes a URI around the first `?` into the fields of a request
    /// line.
    fn build_uri_parts(
        method: HttpRequestMethod,
        protocol: HttpRequestProtocol,
        uri: Vec<u8>,
    ) -> (r: HttpRequestLine)
        ensures
            r@ == uri_parts_of(method, protocol, uri@),
    {
        match split_once(uri.as_slice(), 63) {
            Some((base, qs)) => {
                let query_arguments = parse_pairs(qs.as_slice());
                let r = HttpRequestLine {
                    method,
                    protocol,
                    request_uri: uri,
                    request_uri_base: base,
                    query_arguments,
                    query_string: qs,
                };
                assert(r@ =~= uri_parts_of(method, protocol, r.request_uri@));
                r
            },
            None => {
                let base = subvec(uri.as_slice(), 0, uri.len());
                assert(base@ =~= uri@);
                let r = HttpRequestLine {
                    method,
                    protocol,
                    request_uri: uri,
                    request_uri_base: base,
                    query_arguments: PairMap::new(),
                    query_string: Vec::new(),
                };
                assert(r@ =~= uri_parts_of(method, protocol, r.request_uri@));
                r
            },
        }
    }
}

} // verus!
