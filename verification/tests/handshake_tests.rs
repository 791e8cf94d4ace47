use rust_server_listener::http_parsers::{get_http_body, get_http_headers, get_socket_key};
use rust_server_listener::http_server::encode_accept_key;
use rust_server_listener::websocket_error::HandshakeErrors;
use rust_server_listener::websocket_server::handshake;

const SAMPLE_REQUEST: &str = "GET / HTTP/1.1\r\nHost: x\r\nSec-WebSocket-Key: abc\r\nSec-WebSocket-Version: 13\r\n\r\n";

#[test]
fn rfc_sample_accept_key() {
    assert_eq!(
        encode_accept_key("dGhlIHNhbXBsZSBub25jZQ=="),
        "s3pPLMBiTxaQ9kYGzzhZRbK+xOo="
    );
}

#[test]
fn headers_yield_socket_key() {
    let headers = get_http_headers(SAMPLE_REQUEST).expect("headers must parse");
    assert_eq!(get_socket_key(headers), Some(String::from("abc")));
}

#[test]
fn wrong_version_yields_no_socket_key() {
    let request = SAMPLE_REQUEST.replace("13", "8");
    let headers = get_http_headers(&request).expect("headers must parse");
    assert_eq!(get_socket_key(headers), None);
}

#[test]
fn missing_version_yields_no_socket_key() {
    let request = "GET / HTTP/1.1\r\nSec-WebSocket-Key: abc\r\n\r\n";
    let headers = get_http_headers(request).expect("headers must parse");
    assert_eq!(get_socket_key(headers), None);
}

#[test]
fn header_names_are_lower_cased_and_values_trimmed() {
    let headers = get_http_headers("GET / HTTP/1.1\r\nHOST:   much space\r\n\r\n").unwrap();
    assert_eq!(headers.len(), 1);
    assert_eq!(headers[0].key, "host");
    assert_eq!(headers[0].value, "much space");
}

#[test]
fn header_value_keeps_later_colons() {
    let headers = get_http_headers("GET / HTTP/1.1\r\nHost: x:8080\r\n\r\n").unwrap();
    assert_eq!(headers[0].value, "x:8080");
}

#[test]
fn first_header_wins() {
    let headers =
        get_http_headers("GET / HTTP/1.1\r\nSec-WebSocket-Key: a\r\nSec-WebSocket-Key: b\r\nSec-WebSocket-Version: 13\r\n\r\n")
            .unwrap();
    assert_eq!(get_socket_key(headers), Some(String::from("a")));
}

#[test]
fn header_line_without_colon_fails() {
    let r = get_http_headers("GET / HTTP/1.1\r\nno colon here\r\n\r\n");
    assert_eq!(r.unwrap_err(), HandshakeErrors::ParseError);
}

#[test]
fn body_is_text_after_blank_line() {
    let body = get_http_body("GET / HTTP/1.1\r\nHost: x\r\n\r\npayload text");
    assert_eq!(body, "payload text");
}

#[test]
fn body_strips_nul_padding() {
    let body = get_http_body("GET / HTTP/1.1\r\n\r\nbody\u{0}\u{0}\u{0}");
    assert_eq!(body, "body");
}

#[test]
fn body_of_headers_only_request_is_empty() {
    assert_eq!(get_http_body(SAMPLE_REQUEST), "");
}

#[test]
fn handshake_accepts_sample_request() {
    let response = handshake(SAMPLE_REQUEST.as_bytes()).expect("sample request must upgrade");
    let accept = encode_accept_key("abc");
    let expected = format!(
        "HTTP/1.1 101 Switching Protocols\r\nUpgrade: websocket\r\nConnection: Upgrade\r\nSec-WebSocket-Accept: {}\r\n\r\n",
        accept
    );
    assert_eq!(response, expected);
}

#[test]
fn handshake_accepts_rfc_sample_key() {
    let request = "GET / HTTP/1.1\r\nSec-WebSocket-Key: dGhlIHNhbXBsZSBub25jZQ==\r\nSec-WebSocket-Version: 13\r\n\r\n";
    let response = handshake(request.as_bytes()).unwrap();
    assert!(response.contains("Sec-WebSocket-Accept: s3pPLMBiTxaQ9kYGzzhZRbK+xOo=\r\n"));
}

#[test]
fn handshake_rejects_wrong_request_line() {
    let request = "POST / HTTP/1.1\r\nSec-WebSocket-Key: abc\r\nSec-WebSocket-Version: 13\r\n\r\n";
    assert_eq!(
        handshake(request.as_bytes()).unwrap_err(),
        HandshakeErrors::InvalidMethodError
    );
    let request = "GET /chat HTTP/1.1\r\nSec-WebSocket-Key: abc\r\nSec-WebSocket-Version: 13\r\n\r\n";
    assert_eq!(
        handshake(request.as_bytes()).unwrap_err(),
        HandshakeErrors::InvalidMethodError
    );
}

#[test]
fn handshake_rejects_invalid_utf8() {
    let mut request = b"GET / HTTP/1.1\r\nHost: x\r\n\r\n".to_vec();
    request.push(0xff);
    request.push(0xfe);
    assert_eq!(
        handshake(&request).unwrap_err(),
        HandshakeErrors::ParseError
    );
}

#[test]
fn handshake_rejects_missing_key_headers() {
    let request = "GET / HTTP/1.1\r\nHost: x\r\n\r\n";
    assert_eq!(
        handshake(request.as_bytes()).unwrap_err(),
        HandshakeErrors::InvalidHeaders
    );
}

#[test]
fn handshake_rejects_wrong_version() {
    let request = "GET / HTTP/1.1\r\nSec-WebSocket-Key: abc\r\nSec-WebSocket-Version: 8\r\n\r\n";
    assert_eq!(
        handshake(request.as_bytes()).unwrap_err(),
        HandshakeErrors::InvalidHeaders
    );
}

#[test]
fn handshake_handles_nul_padded_buffer() {
    // a fixed-size receive buffer hands the handshake trailing NULs
    let mut buffer = SAMPLE_REQUEST.as_bytes().to_vec();
    buffer.resize(1024, 0);
    let response = handshake(&buffer).expect("padding must not break the handshake");
    assert!(response.contains("Sec-WebSocket-Accept: "));
}
