use proxy_rs::checker::{any_success, get_headers, protocol_order, random_useragent, Checker};
use proxy_rs::geo::GeoData;
use proxy_rs::negotiators::{
    connect_payload, Connect25Negotiator, Connect80Negotiator, HttpNegotiator, HttpsNegotiator,
    Socks4Negotiator, Socks5Negotiator,
};
use proxy_rs::proto::{Anonymity, Protocol};
use proxy_rs::proxy::{recv_exact_outcome, ErrorKind, Proxy, StreamState};
use proxy_rs::response::{render_response, Header, Response};

fn test_proxy(host: &str) -> Proxy {
    Proxy::new(host.to_string(), 8080, vec![Protocol::Http], GeoData::default())
}

fn checker_with_ip(ext_ip: &str) -> Checker {
    let mut c = Checker::new(ext_ip.to_string());
    c.support_referer = true;
    c.support_cookie = true;
    c
}

#[test]
fn candidate_passes_http_anonymous() {
    // A mocked judge echoes the marker, the cookie and referer values, one
    // address that is not ours, and one `via` mark above the baseline.
    let checker = checker_with_ip("7.7.7.7");
    let (request, _headers, rv) = checker.build_raw_request("judge.example", "/azenv.php", true, None);
    assert!(request.starts_with("GET http://judge.example/azenv.php HTTP/1.1\r\n"));
    assert!(request.contains(&format!("User-Agent: proxy-rs/0.1.0/{}", rv)));

    let body = format!(
        "UA proxy-rs/0.1.0/{} cookie=ok https://google.com/ addr 1.2.3.4 Via: 1.1 proxy via",
        rv
    );
    let judge_marks_via = 1usize;
    let judge_marks_proxy = 1usize;
    let data = render_response(200, b"OK", &vec![], body.as_bytes());
    let response = Response::parse(data.as_slice());

    assert!(checker.get_response_status(&response, rv.as_str()));
    let level = checker.get_anonymity_level(
        response.body.as_slice(),
        judge_marks_via,
        judge_marks_proxy,
    );
    assert_eq!(level, Anonymity::Anonymous);

    let mut proxy = test_proxy("1.2.3.4");
    let negotiator = HttpNegotiator::default();
    assert!(negotiator.negotiate());
    assert!(negotiator.use_full_path);
    assert!(negotiator.check_anon_lvl);
    proxy.confirm(Protocol::Http, Some(level));
    proxy.is_working = any_success(&vec![true]);
    assert!(proxy.is_working);
    assert_eq!(proxy.types.len(), 1);
    assert_eq!(proxy.types[0].protocol, Protocol::Http);
    assert_eq!(proxy.types[0].level, Some(Anonymity::Anonymous));
}

#[test]
fn candidate_socks5_no_auth() {
    let negotiator = Socks5Negotiator::default();
    assert_eq!(negotiator.greeting(), vec![0x05, 0x01, 0x00]);
    assert!(negotiator.check_auth_reply(&[0x05, 0x00]).is_ok());

    let packet = negotiator.connect_packet("1.2.3.4", 8080).expect("literal address");
    assert_eq!(packet, vec![0x05, 0x01, 0x00, 0x01, 1, 2, 3, 4, 0x1f, 0x90]);
    assert!(negotiator
        .check_connect_reply(&[0x05, 0x00, 0x00, 0x01, 0, 0, 0, 0, 0, 0])
        .is_ok());

    let mut proxy = test_proxy("1.2.3.4");
    proxy.confirm(Protocol::Socks5, None);
    assert_eq!(proxy.types.len(), 1);
    assert_eq!(proxy.types[0].protocol, Protocol::Socks5);
    assert_eq!(proxy.types[0].level, None);
}

#[test]
fn connect_80_rejected_counts_bad_status() {
    let negotiator = Connect80Negotiator::default();
    let payload = negotiator.payload("judge.example");
    assert_eq!(
        payload,
        "CONNECT judge.example:80 HTTP/1.1\r\nHost: judge.example\r\nConnection: keep-alive\r\n\r\n"
    );

    let reply = Response::parse(b"HTTP/1.1 403 Forbidden\r\n\r\n");
    assert_eq!(reply.status_code, Some(403));
    let verdict = negotiator.check_reply(reply.status_code);
    assert_eq!(verdict, Err(ErrorKind::BadStatus));

    let mut proxy = test_proxy("1.2.3.4");
    proxy.stream = StreamState::Tcp;
    proxy.log(
        "Connect: failed".to_string(),
        None,
        Some(ErrorKind::BadStatus),
    );
    proxy.close();
    assert_eq!(proxy.error_stat.bad_status, 1);
    assert_eq!(proxy.stream, StreamState::Closed);
    assert!(proxy.types.is_empty());
}

#[test]
fn https_success_upgrades_and_confirms_without_level() {
    let checker = checker_with_ip("7.7.7.7");
    let negotiator = HttpsNegotiator::default();
    let payload = negotiator.payload("judge.example");
    assert!(payload.starts_with("CONNECT judge.example:443 HTTP/1.1\r\n"));

    // CONNECT came back 200: the stream stays open and TLS may proceed.
    let (state, proceed) = negotiator.connect_decision(StreamState::Tcp, Some(200));
    assert_eq!(state, StreamState::Tcp);
    assert!(proceed);
    let state = negotiator.tls_outcome(state, true);
    assert_eq!(state, StreamState::Tls);

    // The judge's echo scores as correct with our address absent.
    let (_request, _headers, rv) = checker.build_raw_request("judge.example", "/", false, None);
    let body = format!("marker {} cookie=ok https://google.com/ seen 9.9.9.9", rv);
    let data = render_response(200, b"OK", &vec![], body.as_bytes());
    let response = Response::parse(data.as_slice());
    assert!(checker.get_response_status(&response, rv.as_str()));

    let mut proxy = test_proxy("1.2.3.4");
    proxy.stream = state;
    assert!(!negotiator.check_anon_lvl);
    proxy.confirm(Protocol::Https, None);
    assert_eq!(proxy.types[0].protocol, Protocol::Https);
    assert_eq!(proxy.types[0].level, None);
}

#[test]
fn https_non_200_leaves_stream_closed() {
    let negotiator = HttpsNegotiator::default();
    let (state, proceed) = negotiator.connect_decision(StreamState::Tcp, Some(502));
    assert_eq!(state, StreamState::Closed);
    assert!(!proceed);
    let (state, proceed) = negotiator.connect_decision(StreamState::Tcp, None);
    assert_eq!(state, StreamState::Closed);
    assert!(!proceed);
}

#[test]
fn socks4_needs_a_literal_address() {
    let negotiator = Socks4Negotiator::default();
    assert!(negotiator.request_packet("example.com", 1080).is_none());
    assert!(negotiator.request_packet("1.2.3", 1080).is_none());
    let packet = negotiator.request_packet("10.0.0.1", 1080).expect("literal address");
    assert_eq!(packet, vec![0x04, 0x01, 0x04, 0x38, 10, 0, 0, 1, 0x00]);
    assert!(negotiator.check_reply(&[0x00, 0x5a, 0, 0, 0, 0, 0, 0]).is_ok());
    assert_eq!(
        negotiator.check_reply(&[0x01, 0x5a, 0, 0, 0, 0, 0, 0]),
        Err(ErrorKind::InvalidVersion)
    );
    assert_eq!(
        negotiator.check_reply(&[0x00, 0x5b, 0, 0, 0, 0, 0, 0]),
        Err(ErrorKind::RequestFailed)
    );
}

#[test]
fn socks5_failure_kinds() {
    let negotiator = Socks5Negotiator::default();
    assert_eq!(
        negotiator.check_auth_reply(&[0x04, 0x00]),
        Err(ErrorKind::InvalidVersion)
    );
    assert_eq!(
        negotiator.check_auth_reply(&[0x05, 0xff]),
        Err(ErrorKind::AuthRequired)
    );
    assert_eq!(
        negotiator.check_auth_reply(&[0x05, 0x02]),
        Err(ErrorKind::InvalidData)
    );
    assert_eq!(
        negotiator.check_connect_reply(&[0x05, 0x01]),
        Err(ErrorKind::InvalidData)
    );
}

#[test]
fn recv_exact_never_yields_a_partial_buffer() {
    assert_eq!(recv_exact_outcome(&[1, 2, 3], 8), None);
    assert_eq!(recv_exact_outcome(&[], 1), None);
    assert_eq!(
        recv_exact_outcome(&[1, 2, 3, 4, 5, 6, 7, 8, 9], 8),
        Some(vec![1, 2, 3, 4, 5, 6, 7, 8])
    );
    assert_eq!(recv_exact_outcome(&[7], 0), Some(vec![]));
}

#[test]
fn transparent_whenever_external_address_appears() {
    let checker = checker_with_ip("7.7.7.7");
    // Even with every mark far above the baseline, a leaked address is
    // Transparent.
    let body = b"via via via proxy proxy 7.7.7.7";
    let level = checker.get_anonymity_level(body, 0, 0);
    assert_eq!(level, Anonymity::Transparent);

    // Without the leak the same marks mean Anonymous.
    let body = b"via via via proxy proxy 8.8.8.8";
    let level = checker.get_anonymity_level(body, 0, 0);
    assert_eq!(level, Anonymity::Anonymous);

    // The broker's own echoed name does not count as a proxy mark.
    let body = b"proxy-rs 8.8.8.8";
    let level = checker.get_anonymity_level(body, 0, 0);
    assert_eq!(level, Anonymity::High);
}

#[test]
fn scoring_requires_marker_and_address() {
    let checker = checker_with_ip("7.7.7.7");
    let (_request, _headers, rv) = checker.build_raw_request("judge.example", "/", true, None);

    // No address-shaped substring: fails.
    let data = render_response(200, b"OK", &vec![], format!("{} cookie=ok https://google.com/", rv).as_bytes());
    assert!(!checker.get_response_status(&Response::parse(data.as_slice()), rv.as_str()));

    // Wrong marker: fails.
    let data = render_response(200, b"OK", &vec![], b"0000 cookie=ok https://google.com/ 1.2.3.4");
    assert!(!checker.get_response_status(&Response::parse(data.as_slice()), rv.as_str()));

    // Non-200 status: fails.
    let data = render_response(503, b"Unavailable", &vec![], format!("{} cookie=ok https://google.com/ 1.2.3.4", rv).as_bytes());
    assert!(!checker.get_response_status(&Response::parse(data.as_slice()), rv.as_str()));
}

#[test]
fn plan_follows_canonical_order_and_filters() {
    let order = protocol_order();
    assert_eq!(
        order,
        vec![
            Protocol::Connect80,
            Protocol::Connect25,
            Protocol::Socks5,
            Protocol::Socks4,
            Protocol::Https,
            Protocol::Http,
        ]
    );

    let mut checker = Checker::new("7.7.7.7".to_string());
    checker.expected_types = vec![Protocol::Http, Protocol::Socks5, Protocol::Connect80];
    let plan = checker.plan(&vec![Protocol::Socks5]);
    assert_eq!(plan, vec![Protocol::Connect80, Protocol::Http]);

    checker.expected_countries = vec!["US".to_string()];
    assert!(checker.country_allowed("US"));
    assert!(!checker.country_allowed("DE"));
    checker.expected_countries.clear();
    assert!(checker.country_allowed("ZZ"));
}

#[test]
fn level_filter_rechecks_http() {
    let mut checker = Checker::new("7.7.7.7".to_string());
    let mut proxy = test_proxy("1.2.3.4");
    proxy.confirm(Protocol::Http, Some(Anonymity::Transparent));
    assert!(checker.level_ok(&proxy));
    checker.expected_levels = vec![Anonymity::High];
    assert!(!checker.level_ok(&proxy));
    proxy.confirm(Protocol::Http, Some(Anonymity::High));
    assert!(checker.level_ok(&proxy));
}

#[test]
fn headers_carry_marker_and_fixed_values() {
    let (headers, rv) = get_headers(true);
    assert_eq!(rv.len(), 4);
    assert!(rv.chars().all(|c| c.is_ascii_digit()));
    // The marker reads as a number in 1000..9999: no leading zero.
    assert!(!rv.starts_with('0'));
    let marker: u32 = rv.parse().expect("four digits");
    assert!((1000..9999).contains(&marker));
    assert_eq!(headers.len(), 7);
    assert_eq!(headers[3], ("Cookie".to_string(), "cookie=ok".to_string()));
    assert_eq!(headers[5], ("Referer".to_string(), "https://google.com/".to_string()));
    assert_eq!(headers[6].1, format!("proxy-rs/0.1.0/{}", rv));

    let ua = random_useragent(false);
    assert_eq!(ua, "proxy-rs/0.1.0");
    let (_, rv) = get_headers(false);
    assert_eq!(rv, "0.1.0");
}

#[test]
fn connect_25_probes_the_smtp_port() {
    let negotiator = Connect25Negotiator::default();
    let payload = negotiator.payload("judge.example");
    assert!(payload.starts_with("CONNECT judge.example:25 HTTP/1.1\r\n"));
    assert!(negotiator.check_reply(Some(200)).is_ok());
    assert_eq!(negotiator.check_reply(Some(500)), Err(ErrorKind::BadStatus));
    assert_eq!(
        connect_payload("h", 80),
        "CONNECT h:80 HTTP/1.1\r\nHost: h\r\nConnection: keep-alive\r\n\r\n"
    );
}
