use orion_client::killswitch::{
    apply_lock, lock_probe, pick_addresses, remove_lock, resolve_failure, split_endpoint,
    Address, Resolved,
};

#[test]
fn endpoints_split_into_host_and_port() {
    assert_eq!(split_endpoint("203.0.113.10:51820").unwrap(), ("203.0.113.10".to_string(), 51820));
    assert_eq!(split_endpoint("[2001:db8::1]:51820").unwrap(), ("2001:db8::1".to_string(), 51820));
    assert_eq!(split_endpoint("[::1]::4500").unwrap(), ("::1".to_string(), 4500));
    assert_eq!(split_endpoint("host.example:+22").unwrap(), ("host.example".to_string(), 22));
}

#[test]
fn endpoint_errors() {
    assert_eq!(split_endpoint("[2001:db8::1:51820").unwrap_err(), "malformed IPv6 endpoint");
    assert_eq!(split_endpoint("no-port").unwrap_err(), "endpoint must be host:port");
    assert_eq!(split_endpoint("h:70000").unwrap_err(), "bad endpoint port");
    assert_eq!(split_endpoint("h:").unwrap_err(), "bad endpoint port");
}

#[test]
fn first_address_of_each_family_is_kept() {
    let addrs = vec![
        Address::V6("2001:db8::1".into()),
        Address::V4("203.0.113.10".into()),
        Address::V4("203.0.113.11".into()),
    ];
    let ep = pick_addresses("h", 51820, &addrs).unwrap();
    assert_eq!(ep.v4.as_deref(), Some("203.0.113.10"));
    assert_eq!(ep.v6.as_deref(), Some("2001:db8::1"));
    assert_eq!(ep.port, 51820);
    assert_eq!(pick_addresses("h", 1, &Vec::new()).err().unwrap(), "no addresses for h");
    assert_eq!(resolve_failure("h", "timed out"), "cannot resolve h: timed out");
}

#[test]
fn kill_switch_ruleset() {
    let ep = Resolved { v4: Some("203.0.113.10".into()), v6: Some("2001:db8::1".into()), port: 51820 };
    let inv = apply_lock(&ep);
    assert_eq!(inv.program, "nft");
    assert_eq!(inv.args, vec!["-f".to_string(), "-".to_string()]);
    let expected = "table inet orion_ks\n\
         delete table inet orion_ks\n\
         table inet orion_ks {\n\
         \x20 chain output {\n\
         \x20   type filter hook output priority filter; policy drop;\n\
         \x20   oifname \"lo\" accept\n\
         \x20   oifname \"orion0\" accept\n\
         \x20   meta nfproto ipv4 ip daddr 203.0.113.10 udp dport 51820 accept\n\
         \x20   meta nfproto ipv6 ip6 daddr 2001:db8::1 udp dport 51820 accept\n\
         \x20   udp sport 68 udp dport 67 accept\n\
         \x20   udp sport 546 udp dport 547 accept\n\
         \x20 }\n}\n";
    assert_eq!(inv.input.as_deref(), Some(expected));
}

#[test]
fn ruleset_without_ipv6() {
    let ep = Resolved { v4: Some("198.51.100.7".into()), v6: None, port: 4500 };
    let script = apply_lock(&ep).input.unwrap();
    assert!(script.contains("ip daddr 198.51.100.7 udp dport 4500 accept\n"));
    assert!(!script.contains("ip6"));
}

#[test]
fn lock_removal_runs_only_when_the_table_exists() {
    let probe = lock_probe();
    assert_eq!(probe.program, "nft");
    assert_eq!(probe.args, vec!["list", "table", "inet orion_ks"]);
    let del = remove_lock(true).unwrap();
    assert_eq!(del.args, vec!["delete", "table", "inet orion_ks"]);
    assert!(remove_lock(false).is_none());
}
