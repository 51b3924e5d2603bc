use webserver::request::HttpRequestMessage;
use webserver::request::HttpRequestMethod;
use webserver::request::HttpRequestProtocol;
use webserver::request::HttpSettingValence;

#[test]
fn test_get_message_body() {
    let response = HttpRequestMessage::get_message_body(b"random=abc&hej=def&def");
    assert!(response.is_some());

    let response_unwrapped = response.unwrap();
    assert_eq!(
        response_unwrapped.get(b"random").unwrap().as_slice(),
        b"abc"
    );
    assert_eq!(response_unwrapped.get(b"hej").unwrap().as_slice(), b"def");
    assert_eq!(response_unwrapped.get(b"def").unwrap().as_slice(), b"1");
    assert!(response_unwrapped.get(b"defs").is_none());

    let response = HttpRequestMessage::get_message_body(b"");
    assert!(response.is_none());
}

#[test]
fn test_get_header_field() {
    let response = HttpRequestMessage::get_header_field(
        b"User-Agent: Mozilla/5.0 (X11; Linux x86_64; rv:12.0) Gecko/20100101 Firefox/12.0\r\n",
    );
    assert!(response.is_some());

    let (key, value) = response.unwrap();
    assert_eq!(key.as_slice(), b"User-Agent");
    assert_eq!(
        value.as_slice(),
        b"Mozilla/5.0 (X11; Linux x86_64; rv:12.0) Gecko/20100101 Firefox/12.0".as_slice()
    );

    let response = HttpRequestMessage::get_header_field(b"Cache-Control: no-cache \r\n");
    assert!(response.is_some());

    let (key, value) = response.unwrap();
    assert_eq!(key.as_slice(), b"Cache-Control");
    assert_eq!(value.as_slice(), b"no-cache");

    let response = HttpRequestMessage::get_header_field(b"Just various text here\r\n");
    assert!(response.is_none());

    let response = HttpRequestMessage::get_header_field(b"");
    assert!(response.is_none());
}

#[test]
fn test_get_request_line() {
    let response = HttpRequestMessage::get_request_line(b"POST /random?abc=test HTTP/0.9\r\n");
    assert!(response.is_some());

    let response_unpacked = response.unwrap();
    assert_eq!(response_unpacked.method, HttpRequestMethod::Post);
    assert_eq!(response_unpacked.request_uri.as_slice(), b"/random?abc=test");
    assert_eq!(response_unpacked.request_uri_base.as_slice(), b"/random");
    assert_eq!(response_unpacked.query_string.as_slice(), b"abc=test");
    assert_eq!(
        response_unpacked.query_arguments.get(b"abc").unwrap().as_slice(),
        b"test"
    );
    assert_eq!(response_unpacked.protocol, HttpRequestProtocol::ZeroDotNine);

    let response = HttpRequestMessage::get_request_line(b"GET / HTTP/1.0\r\n");
    assert!(response.is_some());

    let response_unpacked = response.unwrap();
    assert_eq!(response_unpacked.method, HttpRequestMethod::Get);
    assert_eq!(response_unpacked.request_uri.as_slice(), b"/");
    assert_eq!(response_unpacked.request_uri_base.as_slice(), b"/");
    assert_eq!(response_unpacked.query_string.as_slice(), b"");
    assert_eq!(response_unpacked.protocol, HttpRequestProtocol::OneDotZero);

    let response =
        HttpRequestMessage::get_request_line(b"HEAD /moradish.html?test&abc=def HTTP/1.1\r\n");
    assert!(response.is_some());

    let response_unpacked = response.unwrap();
    assert_eq!(response_unpacked.method, HttpRequestMethod::Head);
    assert_eq!(
        response_unpacked.request_uri.as_slice(),
        b"/moradish.html?test&abc=def".as_slice()
    );
    assert_eq!(response_unpacked.request_uri_base.as_slice(), b"/moradish.html");
    assert_eq!(response_unpacked.query_string.as_slice(), b"test&abc=def");
    assert_eq!(
        response_unpacked.query_arguments.get(b"test").unwrap().as_slice(),
        b"1"
    );
    assert_eq!(
        response_unpacked.query_arguments.get(b"abc").unwrap().as_slice(),
        b"def"
    );
    assert_eq!(response_unpacked.protocol, HttpRequestProtocol::OneDotOne);

    let response = HttpRequestMessage::get_request_line(b"OPTIONS /random/random2.txt HTTP/2.0\r\n");
    assert!(response.is_some());

    let response_unpacked = response.unwrap();
    assert_eq!(response_unpacked.method, HttpRequestMethod::Options);
    assert_eq!(
        response_unpacked.request_uri.as_slice(),
        b"/random/random2.txt".as_slice()
    );
    assert_eq!(response_unpacked.protocol, HttpRequestProtocol::TwoDotZero);

    let response = HttpRequestMessage::get_request_line(b"GET / HTTP/2.2\r\n");
    assert!(response.is_none());
}

#[test]
fn from_tcp_stream() {
    // GET request with no headers or body
    let response = HttpRequestMessage::from_tcp_stream(b"GET / HTTP/2.0\r\n");
    assert!(response.is_some());
    let response_unwrapped = response.unwrap();
    assert_eq!(response_unwrapped.request_line.method, HttpRequestMethod::Get);
    assert_eq!(response_unwrapped.request_line.request_uri.as_slice(), b"/");
    assert_eq!(
        response_unwrapped.request_line.protocol,
        HttpRequestProtocol::TwoDotZero
    );

    // POST request with random header
    let response = HttpRequestMessage::from_tcp_stream(
        b"POST / HTTP/1.0\r\nAgent: Random browser\r\n\r\ntest=abc",
    );
    assert!(response.is_some());
    let response_unwrapped = response.unwrap();
    assert_eq!(response_unwrapped.request_line.method, HttpRequestMethod::Post);
    assert_eq!(
        response_unwrapped.request_line.protocol,
        HttpRequestProtocol::OneDotZero
    );
    assert_eq!(
        response_unwrapped.headers.get(b"Agent").unwrap().as_slice(),
        b"Random browser".as_slice()
    );
    assert_eq!(response_unwrapped.body.get(b"test").unwrap().as_slice(), b"abc");

    // Two invalid HTTP requests
    let response = HttpRequestMessage::from_tcp_stream(b"RANDOM /stuff HTTP/2.5\r\n");
    assert!(response.is_none());
    let response = HttpRequestMessage::from_tcp_stream(b"");
    assert!(response.is_none());

    // Get requests should get their message body parsed
    let response = HttpRequestMessage::from_tcp_stream(b"GET / HTTP/2.0\r\n\r\nabc=123");
    assert!(response.is_some());
    let response_unwrapped = response.unwrap();
    assert_eq!(response_unwrapped.body.get(b"abc").unwrap().as_slice(), b"123");

    // HEAD requests should not get their message body parsed
    let response = HttpRequestMessage::from_tcp_stream(b"HEAD / HTTP/2.0\r\n\r\nabc=123");
    assert!(response.is_some());
    let response_unwrapped = response.unwrap();
    assert!(response_unwrapped.body.get(b"abc").is_none());

    let response = HttpRequestMessage::from_tcp_stream(b"html/index.html\r\n");
    assert!(response.is_some());
    let response_unwrapped = response.unwrap();
    assert_eq!(response_unwrapped.request_line.method, HttpRequestMethod::Get);
    assert_eq!(
        response_unwrapped.request_line.request_uri.as_slice(),
        b"html/index.html".as_slice()
    );
    assert_eq!(
        response_unwrapped.request_line.protocol,
        HttpRequestProtocol::ZeroDotNine
    );
}

#[test]
fn pairs_value_defaults_to_one() {
    let parsed = HttpRequestMessage::get_message_body(b"a=1&b=2&c").unwrap();
    assert_eq!(parsed.get(b"a").unwrap().as_slice(), b"1");
    assert_eq!(parsed.get(b"b").unwrap().as_slice(), b"2");
    assert_eq!(parsed.get(b"c").unwrap().as_slice(), b"1");
    assert!(HttpRequestMessage::get_message_body(b"").is_none());
}

#[test]
fn pairs_latest_entry_wins() {
    let parsed = HttpRequestMessage::get_message_body(b"a=1&a=2").unwrap();
    assert_eq!(parsed.get(b"a").unwrap().as_slice(), b"2");
}

#[test]
fn header_field_trims_both_sides() {
    let (key, value) = HttpRequestMessage::get_header_field(b"User-Agent: Foo/1.0 \r\n").unwrap();
    assert_eq!(key.as_slice(), b"User-Agent");
    assert_eq!(value.as_slice(), b"Foo/1.0");
    assert!(HttpRequestMessage::get_header_field(b"no colon at all\r\n").is_none());
}

#[test]
fn non_ascii_bytes_fail_the_parse() {
    let response = HttpRequestMessage::from_tcp_stream(b"GET /caf\xc3\xa9 HTTP/1.1\r\n");
    assert!(response.is_none());
}

#[test]
fn two_token_request_line_is_rejected() {
    assert!(HttpRequestMessage::get_request_line(b"GET /abc\r\n").is_none());
}

#[test]
fn header_without_colon_keeps_the_message() {
    let response =
        HttpRequestMessage::from_tcp_stream(b"GET / HTTP/1.1\r\nodd line\r\nA: b\r\n\r\n");
    assert!(response.is_some());
    let message = response.unwrap();
    assert_eq!(message.headers.get(b"A").unwrap().as_slice(), b"b");
    assert!(message.headers.get(b"odd line").is_none());
}

#[test]
fn later_body_line_replaces_the_earlier_one() {
    let message = HttpRequestMessage::from_tcp_stream(b"POST / HTTP/1.1\r\n\r\na=1&b=2\nc=3").unwrap();
    assert!(message.body.get(b"a").is_none());
    assert!(message.body.get(b"b").is_none());
    assert_eq!(message.body.get(b"c").unwrap().as_slice(), b"3");
}

#[test]
fn blank_line_ends_the_body() {
    let message = HttpRequestMessage::from_tcp_stream(b"POST / HTTP/1.1\r\n\r\na=1\n\nb=2").unwrap();
    assert_eq!(message.body.get(b"a").unwrap().as_slice(), b"1");
    assert!(message.body.get(b"b").is_none());
}

#[test]
fn method_body_valences() {
    assert_eq!(
        HttpRequestMessage::method_has_request_body(&HttpRequestMethod::Post),
        HttpSettingValence::Yes
    );
    assert_eq!(
        HttpRequestMessage::method_has_request_body(&HttpRequestMethod::Head),
        HttpSettingValence::No
    );
    assert_eq!(
        HttpRequestMessage::method_has_request_body(&HttpRequestMethod::Get),
        HttpSettingValence::Optional
    );
    assert!(HttpRequestMessage::_method_has_response_body(&HttpRequestMethod::Get));
    assert!(!HttpRequestMessage::_method_has_response_body(&HttpRequestMethod::Head));
    assert!(HttpRequestMessage::_method_is_safe(&HttpRequestMethod::Get));
    assert!(!HttpRequestMessage::_method_is_safe(&HttpRequestMethod::Post));
    assert!(HttpRequestMessage::_method_is_idempotent(&HttpRequestMethod::Put));
    assert!(!HttpRequestMessage::_method_is_idempotent(&HttpRequestMethod::Post));
    assert!(HttpRequestMessage::_method_is_cacheable(&HttpRequestMethod::Get));
    assert!(!HttpRequestMessage::_method_is_cacheable(&HttpRequestMethod::Put));
}
