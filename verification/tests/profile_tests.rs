use orion_client::profile::{
    check_profile_name, list_profiles, load_profile, profile_path, profile_stem, read_failure,
};
use orion_client::protocol::{ProfileInfo, Response};

const LAPTOP: &str = "# laptop profile\n[Interface]\nPrivateKey = abc=\nAddress = 10.66.0.10/32\nDNS = 9.9.9.9, , 1.1.1.1\nJc = 4\n\n[Peer]\nPublicKey = xyz\nEndpoint = 203.0.113.10:51820\nAllowedIPs = 0.0.0.0/0\n";

#[test]
fn profile_names_are_restricted() {
    assert!(check_profile_name("laptop-entry_2"));
    assert!(!check_profile_name(""));
    assert!(!check_profile_name("../etc/passwd"));
    assert!(!check_profile_name("my laptop"));
}

#[test]
fn profile_path_and_invalid_name() {
    assert_eq!(profile_path("laptop").unwrap(), "/etc/orion/profiles/laptop.conf");
    assert_eq!(profile_path("a/b").unwrap_err(), "invalid profile name");
    assert_eq!(read_failure("/etc/orion/profiles/x.conf"), "cannot read /etc/orion/profiles/x.conf");
}

#[test]
fn load_profile_reads_the_keys_it_needs() {
    let p = load_profile("laptop", LAPTOP).unwrap();
    assert_eq!(p.name, "laptop");
    assert_eq!(p.path, "/etc/orion/profiles/laptop.conf");
    assert_eq!(p.endpoint.as_deref(), Some("203.0.113.10:51820"));
    assert_eq!(p.addr.as_deref(), Some("10.66.0.10/32"));
    assert!(p.awg);
    assert_eq!(p.dns, vec!["9.9.9.9".to_string(), "1.1.1.1".to_string()]);
}

#[test]
fn keys_count_only_in_their_section() {
    let text = "[Peer]\nAddress = 1.2.3.4\n[Interface]\nEndpoint = h:1\nH1 = 5\n";
    let p = load_profile("x", text).unwrap();
    assert!(p.endpoint.is_none());
    assert!(p.addr.is_none());
    assert!(p.awg);
    let plain = load_profile("x", "[Interface]\nAddress = a\n").unwrap();
    assert!(!plain.awg);
    assert!(matches!(load_profile("bad name", LAPTOP), Err(e) if e == "invalid profile name"));
}

#[test]
fn later_keys_win_and_headers_fold_case() {
    let text = "[PEER]\r\nendpoint=a:1\r\nENDPOINT = b:2\r\n";
    let p = load_profile("x", text).unwrap();
    assert_eq!(p.endpoint.as_deref(), Some("b:2"));
}

#[test]
fn profile_stems() {
    assert_eq!(profile_stem("laptop.conf").as_deref(), Some("laptop"));
    assert_eq!(profile_stem(".conf").as_deref(), Some(""));
    assert_eq!(profile_stem("laptop.conf.bak"), None);
}

#[test]
fn listing_is_sorted_by_name() {
    let found = vec![
        ProfileInfo { name: "zeta".into(), addr: None },
        ProfileInfo { name: "Alpha".into(), addr: Some("10.66.0.50/32".into()) },
        ProfileInfo { name: "alpha".into(), addr: None },
        ProfileInfo { name: "beta".into(), addr: None },
    ];
    match list_profiles(found) {
        Response::Profiles { profiles } => {
            let names: Vec<&str> = profiles.iter().map(|p| p.name.as_str()).collect();
            assert_eq!(names, vec!["Alpha", "alpha", "beta", "zeta"]);
            assert_eq!(profiles[0].addr.as_deref(), Some("10.66.0.50/32"));
        }
        _ => panic!("not a listing"),
    }
}
