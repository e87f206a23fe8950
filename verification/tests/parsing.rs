use proxy_rs::response::{render_response, Header, Response};
use proxy_rs::server::{connect_accepted, gateway_connect_payload, RequestParser, Server};
use proxy_rs::strutil::{format_u64, parse_ipv4_bytes, parse_port, trim_bytes, u64_to_string};
use proxy_rs::proto::Scheme;

fn header(name: &str, value: &str) -> Header {
    Header {
        name: name.as_bytes().to_vec(),
        value: value.as_bytes().to_vec(),
    }
}

#[test]
fn response_parse_status_and_headers() {
    let data = b"HTTP/1.1 200 OK\r\nContent-Type: text/plain\r\nX-Upper: Mixed\r\n\r\nhello";
    let r = Response::parse(data);
    assert_eq!(r.version, Some(1));
    assert_eq!(r.status_code, Some(200));
    assert_eq!(r.reason.as_deref(), Some(b"OK".as_slice()));
    assert_eq!(r.headers.len(), 2);
    // Header names come back lower-cased, values untouched.
    assert_eq!(r.headers[0].name, b"content-type".to_vec());
    assert_eq!(r.headers[0].value, b"text/plain".to_vec());
    assert_eq!(r.headers[1].name, b"x-upper".to_vec());
    assert_eq!(r.headers[1].value, b"Mixed".to_vec());
    assert_eq!(r.body, b"hello".to_vec());
    let expected_raw =
        b"HTTP/1.1 200 OK\r\nContent-Type: text/plain\r\nX-Upper: Mixed\r\n\r\nhello".to_vec();
    assert_eq!(r.raw, expected_raw);
}

#[test]
fn response_parse_garbage_keeps_raw() {
    let data = b"not an http response at all";
    let r = Response::parse(data);
    assert_eq!(r.status_code, None);
    assert_eq!(r.version, None);
    assert!(r.headers.is_empty());
    assert!(r.body.is_empty());
    assert_eq!(r.raw, data.to_vec());
}

#[test]
fn response_round_trip_lower_cases_header_keys() {
    let headers = vec![header("X-Forwarded-FOR", "10.0.0.1"), header("VIA", "1.1 relay")];
    let rendered = render_response(200, b"OK", &headers, b"body");
    let parsed = Response::parse(rendered.as_slice());
    assert_eq!(parsed.status_code, Some(200));
    assert_eq!(parsed.headers.len(), 2);
    assert_eq!(parsed.headers[0].name, b"x-forwarded-for".to_vec());
    assert_eq!(parsed.headers[0].value, b"10.0.0.1".to_vec());
    assert_eq!(parsed.headers[1].name, b"via".to_vec());
    assert_eq!(parsed.headers[1].value, b"1.1 relay".to_vec());
    assert_eq!(parsed.body, b"body".to_vec());
}

#[test]
fn response_decompresses_announced_gzip_body() {
    let gz: [u8; 39] = [
        31, 139, 8, 0, 0, 0, 0, 0, 2, 3, 203, 204, 203, 75, 45, 82, 72, 202, 79, 169, 84, 48, 52,
        208, 51, 212, 51, 210, 51, 6, 0, 148, 47, 185, 76, 19, 0, 0, 0,
    ];
    let mut data = b"HTTP/1.1 200 OK\r\nContent-Encoding: gzip\r\n\r\n".to_vec();
    data.extend_from_slice(&gz);
    let r = Response::parse(data.as_slice());
    assert_eq!(r.status_code, Some(200));
    assert_eq!(r.body, b"inner body 10.1.2.3".to_vec());
}

#[test]
fn response_falls_back_on_undecodable_body() {
    let data = b"HTTP/1.1 200 OK\r\ncontent-encoding: deflate\r\n\r\nplain text";
    let r = Response::parse(data);
    assert_eq!(r.body, b"plain text".to_vec());
}

#[test]
fn request_parse_and_gateway_connect() {
    let data = b"CONNECT example.com:443 HTTP/1.1\r\nHost: example.com:443\r\n\r\n";
    let r = RequestParser::parse(data);
    assert_eq!(r.method.as_deref(), Some(b"CONNECT".as_slice()));
    assert_eq!(r.path.as_deref(), Some(b"example.com:443".as_slice()));
    assert_eq!(r.version, Some(1));
    assert_eq!(r.get_host().as_deref(), Some("example.com:443"));

    let server = Server::new("127.0.0.1", 8000);
    assert_eq!(server.scheme_for(true), Scheme::Https);
    assert_eq!(server.scheme_for(false), Scheme::Http);

    let payload = gateway_connect_payload("example.com");
    assert_eq!(
        payload,
        "CONNECT example.com:443 HTTP/1.1\r\nHost: example.com:443\r\nProxy-Connection: Keep-Alive\r\n\r\n"
    );
    assert!(connect_accepted(Some(200)));
    assert!(!connect_accepted(Some(403)));
    assert!(!connect_accepted(None));
}

#[test]
fn request_parse_absolute_target_host() {
    let data = b"GET http://example.com/path HTTP/1.1\r\n\r\n";
    let r = RequestParser::parse(data);
    assert_eq!(r.method.as_deref(), Some(b"GET".as_slice()));
    assert_eq!(r.get_host().as_deref(), Some("example.com"));

    // With both an absolute target and a Host header, the target wins.
    let data = b"GET http://example.com/path HTTP/1.1\r\nHost: other.example\r\n\r\n";
    let r = RequestParser::parse(data);
    assert_eq!(r.get_host().as_deref(), Some("example.com"));

    // With an origin-form target, the Host header answers.
    let data = b"GET /path HTTP/1.1\r\nHost: other.example\r\n\r\n";
    let r = RequestParser::parse(data);
    assert_eq!(r.get_host().as_deref(), Some("other.example"));
}

#[test]
fn port_parsing_bounds() {
    assert_eq!(parse_port(b"80"), Some(80));
    assert_eq!(parse_port(b"0080"), Some(80));
    assert_eq!(parse_port(b"65535"), Some(65535));
    assert_eq!(parse_port(b"65536"), None);
    assert_eq!(parse_port(b"123456"), None);
    assert_eq!(parse_port(b""), None);
    assert_eq!(parse_port(b"8o80"), None);
}

#[test]
fn ipv4_recognition() {
    assert_eq!(parse_ipv4_bytes(b"1.2.3.4"), Some((1, 2, 3, 4)));
    assert_eq!(parse_ipv4_bytes(b"255.255.255.255"), Some((255, 255, 255, 255)));
    assert_eq!(parse_ipv4_bytes(b"0.0.0.0"), Some((0, 0, 0, 0)));
    assert_eq!(parse_ipv4_bytes(b"256.1.1.1"), None);
    assert_eq!(parse_ipv4_bytes(b"01.2.3.4"), None);
    assert_eq!(parse_ipv4_bytes(b"1.2.3"), None);
    assert_eq!(parse_ipv4_bytes(b"1.2.3.4.5"), None);
    assert_eq!(parse_ipv4_bytes(b"example.com"), None);
}

#[test]
fn decimal_rendering() {
    assert_eq!(format_u64(0), b"0".to_vec());
    assert_eq!(format_u64(65535), b"65535".to_vec());
    assert_eq!(u64_to_string(8080), "8080");
    assert_eq!(trim_bytes(b"  1.2.3.4\r\n"), b"1.2.3.4".to_vec());
}
