use conduit5::net::{net_contains, parse_cidr, parse_ip, IpAddress, IpNetwork};
use conduit5::whitelist::Whitelist;

fn wl(rules: &[&str]) -> Whitelist {
    Whitelist::from_strings(rules.iter().map(|s| s.to_string()).collect())
}

#[test]
fn test_whitelist_parsing_and_matching() {
    let list = vec![
        "example.com".into(),
        "*.allowed.com".into(),
        "192.168.1.1".into(),
        "10.0.0.0/8".into(),
    ];
    let w = Whitelist::from_strings(list);

    assert!(w.allows_domain("example.com"));
    assert!(w.allows_domain("sub.allowed.com"));
    assert!(w.allows_domain("allowed.com")); // suffix match should allow

    let ip: IpAddress = parse_ip("192.168.1.1").unwrap();
    assert!(w.allows_ip(&ip));

    let ip2: IpAddress = parse_ip("10.5.6.7").unwrap();
    assert!(w.allows_ip(&ip2));

    let ip3: IpAddress = parse_ip("8.8.8.8").unwrap();
    assert!(!w.allows_ip(&ip3));
}

#[test]
fn domain_pattern_allows_itself_and_subdomains() {
    let w = wl(&["example.com", "*.allowed.com"]);
    assert!(w.allows_domain("example.com"));
    assert!(w.allows_domain("x.example.com"));
    assert!(w.allows_domain("deep.sub.example.com"));
    assert!(!w.allows_domain("example.com.evil"));
    assert!(!w.allows_domain("evil-example.com"));
    assert!(!w.allows_domain("xexample.com"));
    assert!(w.allows_domain("*.allowed.com"));
    assert!(w.allows_domain("x.allowed.com"));
    assert!(w.allows_domain("allowed.com"));
    assert!(!w.allows_domain("allowed.com.evil"));
}

#[test]
fn matching_is_case_insensitive_and_rules_are_trimmed() {
    let w = wl(&["  Example.COM  "]);
    assert!(w.allows_domain("example.com"));
    assert!(w.allows_domain("EXAMPLE.com"));
    let w2 = wl(&["example.com"]);
    assert!(w2.allows_domain("ExAmPlE.CoM"));
    assert!(!w2.allows_domain("other.com"));
}

#[test]
fn cidr_and_literal_ip_rules() {
    let w = wl(&["10.0.0.0/8", "192.168.1.1"]);
    assert!(w.allows_ip(&parse_ip("10.5.6.7").unwrap()));
    assert!(!w.allows_ip(&parse_ip("11.0.0.0").unwrap()));
    assert!(w.allows_ip(&parse_ip("192.168.1.1").unwrap()));
    assert!(!w.allows_ip(&parse_ip("192.168.1.2").unwrap()));
    assert!(!w.allows_domain("10.5.6.7"));
}

#[test]
fn ipv6_rules_and_family_separation() {
    let w = wl(&["2001:db8::/32", "::1"]);
    assert!(w.allows_ip(&parse_ip("2001:db8::1").unwrap()));
    assert!(!w.allows_ip(&parse_ip("2001:db9::1").unwrap()));
    assert!(w.allows_ip(&parse_ip("::1").unwrap()));
    assert!(!w.allows_ip(&parse_ip("::2").unwrap()));

    let w4 = wl(&["0.0.0.0/0"]);
    assert!(w4.allows_ip(&parse_ip("8.8.8.8").unwrap()));
    assert!(!w4.allows_ip(&parse_ip("::1").unwrap()));
}

#[test]
fn empty_policy_denies_everything() {
    let w = Whitelist::from_strings(Vec::new());
    assert!(!w.allows_domain("example.com"));
    assert!(!w.allows_domain(""));
    assert!(!w.allows_ip(&parse_ip("127.0.0.1").unwrap()));
    assert!(!w.allows_ip(&parse_ip("::1").unwrap()));
    let ips = [parse_ip("1.2.3.4").unwrap(), parse_ip("5.6.7.8").unwrap()];
    assert!(!w.allows_any_ip(&ips));
}

#[test]
fn malformed_rules_become_harmless_suffixes() {
    let w = wl(&["10.0.0.0/99", "not an ip", "999.1.2.3"]);
    assert!(!w.allows_ip(&parse_ip("10.1.2.3").unwrap()));
    assert!(w.allows_domain("10.0.0.0/99"));
    assert!(w.allows_domain("not an ip"));
    assert!(!w.allows_domain("example.com"));
}

#[test]
fn rebuilding_gives_identical_answers() {
    let rules: Vec<String> = vec![
        "example.com".to_string(),
        "10.0.0.0/8".to_string(),
        "*.allowed.com".to_string(),
        "192.168.1.1".to_string(),
    ];
    let w1 = Whitelist::from_strings(rules.clone());
    let w2 = Whitelist::from_strings(rules);
    for d in ["example.com", "x.allowed.com", "evil.com", "allowed.com", ""] {
        assert_eq!(w1.allows_domain(d), w2.allows_domain(d));
    }
    for s in ["10.1.1.1", "192.168.1.1", "8.8.8.8", "::1"] {
        let ip = parse_ip(s).unwrap();
        assert_eq!(w1.allows_ip(&ip), w2.allows_ip(&ip));
    }
}

#[test]
fn allows_any_ip_matches_any_element() {
    let w = wl(&["10.0.0.0/8"]);
    let ips = [parse_ip("8.8.8.8").unwrap(), parse_ip("10.0.0.1").unwrap()];
    assert!(w.allows_any_ip(&ips));
    let misses = [parse_ip("8.8.8.8").unwrap()];
    assert!(!w.allows_any_ip(&misses));
    assert!(!w.allows_any_ip(&[]));
}

#[test]
fn parse_ip_and_parse_cidr() {
    assert_eq!(parse_ip("192.168.1.1"), Some(IpAddress::V4(0xC0A80101)));
    assert_eq!(parse_ip("::1"), Some(IpAddress::V6(1)));
    assert_eq!(parse_ip("nope"), None);
    assert_eq!(parse_ip("10.0.0.0/8"), None);

    let n = parse_cidr("10.0.0.0/8").unwrap();
    assert_eq!(n, IpNetwork { addr: IpAddress::V4(0x0A000000), prefix: 8 });
    assert!(net_contains(&n, &IpAddress::V4(0x0A050607)));
    assert!(!net_contains(&n, &IpAddress::V4(0x0B000000)));
    assert_eq!(parse_cidr("10.0.0.0"), None);
    assert_eq!(parse_cidr("10.0.0.0/99"), None);
}
