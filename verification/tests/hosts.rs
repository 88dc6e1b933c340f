//! Host overrides.

use emrs::hosts::{
    after_fetch, final_hosts, first_hosts_step, host_lines, merge, overrides, parse_hosts,
    proxy_hides_hosts, HostMap, HostsStep,
};

const SAMPLE: &str = r#"# Tmdb Hosts Start
18.160.10.119               tmdb.org
3.170.19.19                 api.tmdb.org
3.170.42.44                 files.tmdb.org
3.171.38.80                 themoviedb.org
3.170.19.97                 api.themoviedb.org
23.54.127.10                ia.media-imdb.com
18.67.62.75                 www.imdb.com
23.54.127.13                ia.media-imdb.com
# Update time: 2026-09-01T09:11:39+08:00
# IPv6 Update url: https://raw.githubusercontent.com/...
# Tmdb Hosts End"#;

fn is_ip(s: &str) -> bool {
    let plain = reqwest::Url::parse(&format!("http://{s}/"));
    let bracketed = reqwest::Url::parse(&format!("http://[{s}]/"));
    plain.is_ok_and(|u| u.domain().is_none()) || bracketed.is_ok()
}

fn parse(text: &str) -> HostMap {
    let lines = host_lines(text);
    let counts: Vec<bool> = lines.iter().map(|l| is_ip(&l.ip)).collect();
    parse_hosts(&lines, &counts)
}

fn ips(list: &[&str]) -> Vec<String> {
    list.iter().map(|s| s.to_string()).collect()
}

#[test]
fn parses_ip_host_and_skips_comments() {
    let m = parse(SAMPLE);
    assert_eq!(m.get("api.tmdb.org"), Some(&ips(&["3.170.19.19"])));
    assert!(m.get("tmdb.org").is_some());
    assert!(m.get("api.themoviedb.org").is_some());
    assert!(m.get("raw.githubusercontent.com").is_none());
}

#[test]
fn aggregates_multiple_ips_per_host() {
    let m = parse(SAMPLE);
    let ia = m.get("ia.media-imdb.com").unwrap();
    assert_eq!(ia.len(), 2);
    assert!(ia.contains(&"23.54.127.10".to_string()));
    assert!(ia.contains(&"23.54.127.13".to_string()));
}

#[test]
fn lowercases_host_and_ignores_garbage_lines() {
    let m = parse("1.2.3.4  Api.Example.COM alias\nnot-an-ip host\n\n# comment");
    assert_eq!(m.get("api.example.com"), Some(&ips(&["1.2.3.4"])));
    assert!(m.get("host").is_none());
    assert_eq!(m.rows.len(), 1);
}

#[test]
fn parses_ipv6() {
    let m = parse("2001:db8::1 api.themoviedb.org");
    assert_eq!(m.get("api.themoviedb.org"), Some(&ips(&["2001:db8::1"])));
}

#[test]
fn merge_overrides_same_host() {
    let mut m = parse("1.1.1.1 api.tmdb.org");
    merge(&mut m, parse("2.2.2.2 api.tmdb.org"));
    assert_eq!(m.get("api.tmdb.org"), Some(&ips(&["2.2.2.2"])));
}

#[test]
fn inline_overrides_remote() {
    let mut map = parse("3.170.19.19 api.tmdb.org");
    let inline = parse("9.9.9.9 api.tmdb.org");
    merge(&mut map, inline);
    assert_eq!(map.get("api.tmdb.org"), Some(&ips(&["9.9.9.9"])));
}

#[test]
fn comments_and_line_ends_are_cut() {
    let lines = host_lines("1.1.1.1 a # b c\r\n  \n#x y\n2.2.2.2\n");
    assert_eq!(lines.len(), 1);
    assert_eq!((lines[0].ip.as_str(), lines[0].host.as_str()), ("1.1.1.1", "a"));
}

#[test]
fn other_hosts_keep_their_addresses() {
    let m = final_hosts(parse("1.1.1.1 a\n2.2.2.2 b"), parse("3.3.3.3 b\n4.4.4.4 c"));
    assert_eq!(m.get("a"), Some(&ips(&["1.1.1.1"])));
    assert_eq!(m.get("b"), Some(&ips(&["3.3.3.3"])));
    assert_eq!(m.get("c"), Some(&ips(&["4.4.4.4"])));
    assert!(!m.is_empty());
    assert!(HostMap::new().is_empty());
}

#[test]
fn sources_in_order() {
    assert!(matches!(first_hosts_step(Some(" u "), Some("f")), HostsStep::Fetch(u) if u == "u"));
    assert!(matches!(first_hosts_step(Some("  "), Some("f")), HostsStep::ReadFile(f) if f == "f"));
    assert!(matches!(first_hosts_step(None, None), HostsStep::Finish));
    assert!(matches!(after_fetch(true, Some("f")), HostsStep::Cache(f) if f == "f"));
    assert!(matches!(after_fetch(false, Some("f")), HostsStep::ReadFile(f) if f == "f"));
    assert!(matches!(after_fetch(false, None), HostsStep::Finish));
    assert!(proxy_hides_hosts(Some("http://p"), &parse("1.1.1.1 a")));
    assert!(!proxy_hides_hosts(Some(" "), &parse("1.1.1.1 a")));
    assert!(!proxy_hides_hosts(Some("http://p"), &HostMap::new()));
}

fn configured(map: &HostMap) -> bool {
    let mut builder = reqwest::ClientBuilder::new();
    for (host, addresses) in overrides(map).applied {
        let sockets: Vec<_> =
            addresses.iter().map(|a| format!("{a}:443").parse().unwrap()).collect();
        builder = builder.resolve_to_addrs(&host, &sockets);
    }
    builder.build().is_ok()
}

#[test]
fn configure_accepts_hosts_without_panic() {
    let mut map = HostMap::new();
    map.insert("api.tmdb.org".to_string(), ips(&["3.170.19.19"]));
    assert!(configured(&map));
    let mut bad = HostMap::new();
    bad.insert("bad host".to_string(), ips(&["1.1.1.1"]));
    assert!(configured(&bad));
}

#[test]
fn overrides_pass_over_what_is_no_name() {
    let mut map = HostMap::new();
    map.insert("api.tmdb.org".to_string(), ips(&["3.170.19.19"]));
    map.insert("bad host".to_string(), ips(&["1.1.1.1"]));
    map.insert("nothing.org".to_string(), ips(&[]));
    map.insert(String::new(), ips(&["1.1.1.1"]));
    let plan = overrides(&map);
    assert_eq!(plan.applied, vec![("api.tmdb.org".to_string(), ips(&["3.170.19.19"]))]);
    assert_eq!(plan.refused, ips(&["bad host", ""]));
    for c in (0..0x180u32).filter_map(char::from_u32) {
        let mut one = HostMap::new();
        one.insert(format!("a{c}"), ips(&["1.1.1.1"]));
        let taken = c.is_ascii_alphanumeric() || "!#$%&'*+-.^_`|~".contains(c);
        assert_eq!(overrides(&one).applied.len(), usize::from(taken), "{c:?}");
    }
    for (n, taken) in [(65535, 1), (65536, 0)] {
        let mut long = HostMap::new();
        long.insert("a".repeat(n), ips(&["1.1.1.1"]));
        assert_eq!(overrides(&long).applied.len(), taken);
    }
}
