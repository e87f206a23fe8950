use proxy_rs::geo::GeoData;
use proxy_rs::pool::{PoolAnswer, ProxyPool, SimpleProxy};
use proxy_rs::proto::{ConfirmedType, Protocol, Scheme};
use proxy_rs::proxy::{ErrorKind, Proxy, Ratio};

fn entry(host: &str, request_stat: u32, errors: u32, runtime_ms: u32, protocol: Protocol) -> SimpleProxy {
    let mut p = SimpleProxy {
        host: host.to_string(),
        port: 8080,
        geo: GeoData::default(),
        types: vec![ConfirmedType { protocol, level: None }],
        schemes: vec![],
        runtimes: vec![runtime_ms],
        request_stat,
        error_stat: Default::default(),
    };
    p.error_stat.connection_error = errors;
    p
}

#[test]
fn pool_admission() {
    let mut pool = ProxyPool::new();
    // Ten entries still gathering statistics all join the newcomers.
    for i in 0..10 {
        pool.put(entry(&format!("10.0.0.{}", i), 1, 0, 100, Protocol::Http));
    }
    assert_eq!(pool.newcomers.len(), 10);
    assert_eq!(pool.pool.len(), 0);

    // A healthy veteran joins the pool: 2 errors over 10 requests, one
    // second average.
    pool.put(entry("10.1.0.1", 10, 2, 1000, Protocol::Http));
    assert_eq!(pool.pool.len(), 1);

    // An unhealthy one is dropped: 6 errors over 10 requests.
    pool.put(entry("10.1.0.2", 10, 6, 1000, Protocol::Http));
    assert_eq!(pool.pool.len(), 1);
    assert_eq!(pool.newcomers.len(), 10);

    // Too slow is dropped as well: average over eight seconds.
    pool.put(entry("10.1.0.3", 10, 0, 9000, Protocol::Http));
    assert_eq!(pool.pool.len(), 1);
}

#[test]
fn pool_get_prefers_newcomers_then_best_veteran() {
    let mut pool = ProxyPool::new();
    // Below the refill mark the pool asks for an import.
    assert!(matches!(pool.get(Scheme::Http), PoolAnswer::NeedImport));

    pool.put(entry("10.0.0.1", 1, 0, 100, Protocol::Http));
    pool.put(entry("10.0.0.2", 1, 0, 100, Protocol::Http));
    pool.put(entry("10.2.0.1", 10, 4, 1000, Protocol::Http));
    pool.put(entry("10.2.0.2", 10, 0, 200, Protocol::Http));
    pool.put(entry("10.2.0.3", 10, 0, 100, Protocol::Socks5));
    pool.put(entry("10.2.0.4", 10, 0, 150, Protocol::Socks4));
    pool.put(entry("10.2.0.5", 10, 1, 100, Protocol::Http));
    assert_eq!(pool.newcomers.len(), 2);
    assert_eq!(pool.pool.len(), 5);

    // Newcomers go out first, in arrival order.
    match pool.get(Scheme::Http) {
        PoolAnswer::Found(p) => assert_eq!(p.host, "10.0.0.1"),
        PoolAnswer::NeedImport => panic!("a newcomer was queued"),
    }
    match pool.get(Scheme::Http) {
        PoolAnswer::Found(p) => assert_eq!(p.host, "10.0.0.2"),
        PoolAnswer::NeedImport => panic!("a newcomer was queued"),
    }

    // Then the best-ranked veteran serving the scheme: no errors and the
    // lowest average response time.  SOCKS entries serve HTTP clients too.
    match pool.get(Scheme::Http) {
        PoolAnswer::Found(p) => assert_eq!(p.host, "10.2.0.3"),
        PoolAnswer::NeedImport => panic!("veterans serve HTTP"),
    }

    // With the stock refilled, an HTTPS client gets the SOCKS4 entry: no
    // plain HTTP veteran can tunnel.
    pool.put(entry("10.2.0.6", 10, 0, 500, Protocol::Http));
    match pool.get(Scheme::Https) {
        PoolAnswer::Found(p) => assert_eq!(p.host, "10.2.0.4"),
        PoolAnswer::NeedImport => panic!("a SOCKS veteran serves HTTPS"),
    }
}

#[test]
fn pool_import_step_and_remove() {
    let mut pool = ProxyPool::new();
    let wanted = entry("10.3.0.1", 10, 0, 100, Protocol::Https);
    let unwanted = entry("10.3.0.2", 10, 0, 100, Protocol::Http);

    // An imported entry serving the scheme is handed out.
    let got = pool.import_step(Scheme::Https, wanted);
    assert_eq!(got.map(|p| p.host), Some("10.3.0.1".to_string()));

    // One that does not is admitted for later instead.
    assert!(pool.import_step(Scheme::Https, unwanted).is_none());
    assert_eq!(pool.pool.len(), 1);

    // Removal scans by address.
    assert!(pool.remove("10.9.9.9", 1).is_none());
    let removed = pool.remove("10.3.0.2", 8080).expect("the entry was admitted");
    assert_eq!(removed.host, "10.3.0.2");
    assert_eq!(pool.pool.len(), 0);
}

#[test]
fn proxy_statistics_are_exact_fractions() {
    let mut p = Proxy::new("1.2.3.4".to_string(), 8080, vec![], GeoData::default());
    assert_eq!(p.error_rate().num, 0);
    assert!(p.error_rate().den >= 1);
    assert_eq!(p.avg_resp_time().num, 0);

    p.log("ok".to_string(), Some(120), None);
    p.log("ok".to_string(), Some(80), None);
    p.log("failed".to_string(), None, Some(ErrorKind::RecvTimeout));

    // Three operations, one failure: the error rate is exactly one third.
    let er = p.error_rate();
    assert_eq!((er.num, er.den), (1, 3));
    // Two samples: the average is exactly their mean, 100 milliseconds.
    let avg = p.avg_resp_time();
    assert_eq!((avg.num, avg.den), (200, 2));
    assert_eq!(p.error_stat.recv_timeout, 1);
    assert_eq!(p.request_stat, 3);
    assert_eq!(p.logs.len(), 3);

    // The fraction comparisons are value comparisons.
    assert!(Ratio { num: 1, den: 3 }.le(&Ratio { num: 1, den: 2 }));
    assert!(Ratio { num: 2, den: 4 }.le(&Ratio { num: 1, den: 2 }));
    assert!(!Ratio { num: 2, den: 4 }.lt(&Ratio { num: 1, den: 2 }));
}

#[test]
fn schemes_derive_from_confirmed_types() {
    let mut p = Proxy::new("1.2.3.4".to_string(), 8080, vec![], GeoData::default());
    p.confirm(Protocol::Socks5, None);
    let schemes = p.get_schemes();
    assert_eq!(schemes, vec![Scheme::Http, Scheme::Https]);
    // A second call yields the cached derivation unchanged.
    assert_eq!(p.get_schemes(), vec![Scheme::Http, Scheme::Https]);

    let mut p = Proxy::new("1.2.3.4".to_string(), 8080, vec![], GeoData::default());
    p.confirm(Protocol::Https, None);
    p.confirm(Protocol::Connect80, None);
    assert_eq!(p.get_schemes(), vec![Scheme::Https, Scheme::Http]);

    let mut p = Proxy::new("1.2.3.4".to_string(), 8080, vec![], GeoData::default());
    p.confirm(Protocol::Connect25, None);
    assert!(p.get_schemes().is_empty());
}

#[test]
fn simple_proxy_projection_and_text() {
    let mut p = Proxy::new("1.2.3.4".to_string(), 8080, vec![], GeoData::default());
    p.log("ok".to_string(), Some(50), None);
    let s = SimpleProxy::from_proxy(&p);
    assert_eq!(s.host, "1.2.3.4");
    assert_eq!(s.request_stat, 1);
    assert_eq!(s.as_text(), "1.2.3.4:8080");
    assert_eq!(p.as_text(), "1.2.3.4:8080");
}
