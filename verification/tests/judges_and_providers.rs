use proxy_rs::judge::{
    judge_probe_outcome, needed_schemes, get_judges, Judge, JudgeRegistry,
};
use proxy_rs::proto::{Protocol, Scheme};
use proxy_rs::provider::{providers, FreeProxyListNetProvider, PremiumproxyNetProvider, Provider};
use proxy_rs::resolver::{ext_ip_candidate, Resolver};

#[test]
fn judge_from_url() {
    let j = Judge::new("https://httpbin.org/get?show_env").expect("a well-formed judge URL");
    assert_eq!(j.scheme, Scheme::Https);
    assert_eq!(j.host, "httpbin.org");
    assert_eq!(j.path, "/get");
    assert!(!j.is_working);
    assert_eq!((j.marks_via, j.marks_proxy), (0, 0));

    assert_eq!(j.ip_address, None);
    assert!(!j.verify_ssl);

    let j = Judge::new("smtp://smtp.gmail.com").expect("an SMTP judge URL");
    assert_eq!(j.scheme, Scheme::Smtp);
    assert!(Judge::new("ftp://example.com").is_none());
    assert!(Judge::new("not a url").is_none());
}

#[test]
fn seed_list_is_the_shipped_one() {
    let seeds = get_judges();
    assert_eq!(seeds.len(), 10);
    assert_eq!(seeds[0].scheme, Scheme::Http);
    assert_eq!(seeds[0].host, "httpheader.net");
    assert_eq!(seeds[0].path, "/azenv.php");
    assert_eq!(seeds[1].scheme, Scheme::Https);
    assert_eq!(seeds[1].host, "httpbin.org");
    assert_eq!(seeds[8].scheme, Scheme::Smtp);
    assert_eq!(seeds[8].host, "smtp.gmail.com");
    assert_eq!(seeds[9].host, "aspmx.l.google.com");
    assert!(seeds.iter().all(|j| !j.is_working && j.marks_via == 0 && j.marks_proxy == 0));
}

#[test]
fn judge_probe_decides_health_and_marks() {
    // SMTP judges are trivially working.
    let (ok, via, proxy) = judge_probe_outcome(Scheme::Smtp, None, b"", "7.7.7.7");
    assert!(ok);
    assert_eq!((via, proxy), (0, 0));

    // An HTTP judge works when the echo shows our address; the baseline
    // marks count the plain substrings.
    let body = b"REMOTE_ADDR 7.7.7.7 via proxy proxy";
    let (ok, via, proxy) = judge_probe_outcome(Scheme::Http, Some(200), body, "7.7.7.7");
    assert!(ok);
    assert_eq!((via, proxy), (1, 2));

    // Address absent, or a failing status: not working.
    let (ok, _, _) = judge_probe_outcome(Scheme::Http, Some(200), b"nothing here", "7.7.7.7");
    assert!(!ok);
    let (ok, _, _) = judge_probe_outcome(Scheme::Http, Some(503), body, "7.7.7.7");
    assert!(!ok);
}

#[test]
fn registry_buckets_grow_and_disabled_protocols_stay_disabled() {
    let mut reg = JudgeRegistry::new();
    let mut j = Judge::new("http://azenv.net/").expect("a judge URL");
    j.is_working = true;
    reg.add_judge(j);
    assert_eq!(reg.http.len(), 1);

    // Picking a judge for an HTTP-judged protocol draws from that bucket.
    let picked = reg.get_judge(Protocol::Socks5).expect("the bucket is filled");
    assert_eq!(picked.host, "azenv.net");
    assert!(reg.get_judge(Protocol::Https).is_none());

    // A scheme without judges disables its dependents, for good.
    reg.disable_scheme(Scheme::Smtp);
    assert!(reg.is_disabled(Protocol::Connect25));
    assert!(!reg.is_disabled(Protocol::Http));
    reg.disable_scheme(Scheme::Https);
    assert!(reg.is_disabled(Protocol::Connect25));
    assert!(reg.is_disabled(Protocol::Https));

    assert!(!reg.all_disabled(&vec![Protocol::Https, Protocol::Http]));
    assert!(reg.all_disabled(&vec![Protocol::Https, Protocol::Connect25]));
}

#[test]
fn requested_protocols_expand_to_judge_schemes() {
    // Probing SOCKS or CONNECT-to-80 needs an HTTP judge.
    let schemes = needed_schemes(&vec![Protocol::Socks4, Protocol::Connect80]);
    assert_eq!(schemes, vec![Scheme::Http]);
    // CONNECT-to-25 needs an SMTP judge; HTTPS its own.
    let schemes = needed_schemes(&vec![Protocol::Https, Protocol::Connect25]);
    assert_eq!(schemes, vec![Scheme::Https, Scheme::Smtp]);
    let schemes = needed_schemes(&vec![
        Protocol::Http,
        Protocol::Https,
        Protocol::Connect25,
        Protocol::Socks5,
    ]);
    assert_eq!(schemes, vec![Scheme::Http, Scheme::Https, Scheme::Smtp]);
}

#[test]
fn provider_extracts_candidates_and_skips_bad_ports() {
    let p = Provider::default();
    let html = "start 1.2.3.4:8080 middle 5.6.7.8:99999 end 9.9.9.9:80";
    let found = p.find_proxies(html);
    assert_eq!(found.len(), 2);
    assert_eq!(found[0].host, "1.2.3.4");
    assert_eq!(found[0].port, 8080);
    assert_eq!(found[1].host, "9.9.9.9");
    assert_eq!(found[1].port, 80);
    assert_eq!(found[0].protocols.len(), 6);

    // A provider with a decorated listing brings its own pattern.
    let pp = PremiumproxyNetProvider::default();
    let html = "<font color=x> 1.2.3.4 <font size=1> : </font> 3128";
    let found = pp.base.find_proxies(html);
    assert_eq!(found.len(), 1);
    assert_eq!((found[0].host.as_str(), found[0].port), ("1.2.3.4", 3128));
}

#[test]
fn provider_crawl_discovers_each_link_once() {
    let mut p = Provider::default();
    p.link_pattern = Some("href=\"(/free-proxy/[a-z]+)\"".to_string());
    let html = "<a href=\"/free-proxy/alpha\"></a><a href=\"/free-proxy/beta\"></a>";
    let links = p.discover_links(html, "https://lists.example");
    assert_eq!(
        links,
        vec![
            "https://lists.example/free-proxy/alpha".to_string(),
            "https://lists.example/free-proxy/beta".to_string(),
        ]
    );

    let mut run = proxy_rs::provider::ProviderRun::new("https://lists.example/");
    assert_eq!(run.next_url().as_deref(), Some("https://lists.example/"));
    // A repeated link, and the seed itself, are dropped; the rest join in
    // found order.
    let mut offered = links.clone();
    offered.push(links[0].clone());
    offered.push("https://lists.example/".to_string());
    run.note_links(offered, p.max_depth);
    assert_eq!(run.urls, links);
    assert_eq!(run.depth, 1);
    assert!(run.seen("https://lists.example/free-proxy/alpha"));
}

#[test]
fn shipped_catalogue_is_complete() {
    let fleet = providers();
    assert_eq!(fleet.len(), 36);
    assert_eq!(fleet[0].name, "free-proxy-list.net");
    assert_eq!(fleet[0].url, "https://free-proxy-list.net");
    // The decorated listing carries its own pattern.
    assert_eq!(fleet[4].name, "premiumproxy.net");
    assert!(fleet[4].pattern.contains("<font"));
    // The crawling source carries its link pattern; nothing else does.
    assert_eq!(fleet[5].name, "proxypedia.org");
    assert!(fleet[5].link_pattern.is_some());
    assert!(fleet.iter().filter(|p| p.link_pattern.is_some()).count() == 1);
    assert_eq!(
        fleet[35].url,
        "https://raw.githubusercontent.com/mmpx12/proxy-list/master/https.txt"
    );
    assert!(fleet.iter().all(|p| p.max_depth == 1));

    let f = FreeProxyListNetProvider::default();
    assert_eq!(f.base.url, "https://free-proxy-list.net/");
}

#[test]
fn resolver_answers_locally_when_it_can() {
    let mut r = Resolver::new();
    assert!(r.host_is_ip("1.2.3.4"));
    assert!(!r.host_is_ip("example.com"));

    // An address literal answers for itself.
    assert_eq!(r.resolve("1.2.3.4").as_deref(), Some("1.2.3.4"));
    // An unknown name needs the outside lookup.
    assert_eq!(r.resolve("example.com"), None);
    // Once recorded, the cache answers.
    r.record("example.com".to_string(), "93.184.216.34".to_string());
    assert_eq!(r.resolve("example.com").as_deref(), Some("93.184.216.34"));

    assert_eq!(r.ext_ip_hosts.len(), 6);
}

#[test]
fn external_address_discovery_judges_each_reply() {
    assert_eq!(ext_ip_candidate(b"  7.7.7.7\r\n"), Some(b"7.7.7.7".to_vec()));
    assert_eq!(ext_ip_candidate(b"7.7.7.7"), Some(b"7.7.7.7".to_vec()));
    assert_eq!(ext_ip_candidate(b"<html>error</html>"), None);
    assert_eq!(ext_ip_candidate(b""), None);
}

#[test]
fn random_element_comes_from_the_list() {
    let items: Vec<u32> = vec![3, 5, 7];
    let got = proxy_rs::judge::get_random_element(&items).copied();
    assert!(items.contains(&got.unwrap()));
    let empty: Vec<u32> = vec![];
    assert!(proxy_rs::judge::get_random_element(&empty).is_none());
}
