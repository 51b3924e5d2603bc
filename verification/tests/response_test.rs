use webserver::response::tcp;
use webserver::response::types::Filesystem;
use webserver::response::Dispatcher;

#[test]
fn matches() {
    assert!(Filesystem::matches(b"GET / "));
    assert!(Filesystem::matches(b"GET /sleep "));
    assert!(!Filesystem::matches(b"GET /test "));
}

#[test]
fn slow_route_is_the_sleep_prefix() {
    assert!(Filesystem::is_slow(b"GET /sleep HTTP/1.1\r\n"));
    assert!(!Filesystem::is_slow(b"GET / HTTP/1.1\r\n"));
}

#[test]
fn build_response_exact_bytes() {
    let response = Filesystem::build_response(b"200 OK", b"<html>hi</html>");
    assert_eq!(
        response.as_slice(),
        b"HTTP/1.1 200 OK\r\nContent-Type: text/html\r\n\r\n<html>hi</html>".as_slice()
    );
}

#[test]
fn dispatch_serves_the_index_page() {
    let response = Dispatcher::dispatch_request(
        b"GET / HTTP/1.1\r\n\r\n",
        b"<html>index</html>",
        b"<html>missing</html>",
    );
    let text = String::from_utf8(response.unwrap()).unwrap();
    assert!(text.starts_with("HTTP/1.1 200 OK\r\n"));
    assert!(text.contains("Content-Type: text/html\r\n"));
    assert!(text.ends_with("\r\n\r\n<html>index</html>"));
}

#[test]
fn dispatch_serves_the_not_found_page() {
    let response = Dispatcher::dispatch_request(
        b"GET /missing HTTP/1.1\r\n\r\n",
        b"<html>index</html>",
        b"<html>missing</html>",
    );
    let text = String::from_utf8(response.unwrap()).unwrap();
    assert!(text.starts_with("HTTP/1.1 404 NOT FOUND\r\n"));
    assert!(text.contains("Content-Type: text/html\r\n"));
    assert!(text.ends_with("\r\n\r\n<html>missing</html>"));
}

#[test]
fn dispatch_gives_no_response_for_an_unparseable_request() {
    let response = Dispatcher::dispatch_request(
        b"RANDOM /x HTTP/9.9\r\n",
        b"<html>index</html>",
        b"<html>missing</html>",
    );
    assert!(response.is_none());
}

#[test]
fn absorb_keeps_bytes_up_to_the_limit() {
    let mut buffer: Vec<u8> = Vec::new();
    let mut overflow: u64 = 0;
    tcp::Dispatcher::absorb_chunk(&mut buffer, &mut overflow, &[1, 2, 0, 3, 4], 3);
    assert_eq!(buffer, vec![1, 2, 3]);
    assert_eq!(overflow, 1);

    tcp::Dispatcher::absorb_chunk(&mut buffer, &mut overflow, &[0, 0, 5], 3);
    assert_eq!(buffer, vec![1, 2, 3]);
    assert_eq!(overflow, 2);
}

#[test]
fn absorb_skips_zero_padding_without_counting_it() {
    let mut buffer: Vec<u8> = Vec::new();
    let mut overflow: u64 = 0;
    tcp::Dispatcher::absorb_chunk(&mut buffer, &mut overflow, &[0, 7, 0, 8, 0], 10);
    assert_eq!(buffer, vec![7, 8]);
    assert_eq!(overflow, 0);
}
