use orion_client::process::{run_failure, spawn_failure};
use orion_client::protocol::Response;
use orion_client::states;
use orion_client::status::{active_tool, first_line, show_binary, status, wg_field, Observation};

fn obs(iface_up: bool, locked: bool) -> Observation {
    Observation {
        active_profile: Some(" laptop\n".into()),
        iface_up,
        locked,
        endpoints: Some("pubkey=\t203.0.113.10:51820 ".into()),
        latest_handshakes: Some("pubkey=\t1000".into()),
        transfer: Some("pubkey=\t123\t456".into()),
        now: 1030,
    }
}

#[test]
fn connected_status_reads_the_peer() {
    match status(&obs(true, true)) {
        Response::Status { state, profile, endpoint, handshake_age_secs, rx_bytes, tx_bytes, detail } => {
            assert_eq!(state, states::CONNECTED);
            assert_eq!(profile.as_deref(), Some("laptop"));
            assert_eq!(endpoint.as_deref(), Some("203.0.113.10:51820"));
            assert_eq!(handshake_age_secs, Some(30));
            assert_eq!((rx_bytes, tx_bytes), (Some(123), Some(456)));
            assert!(detail.is_none());
        }
        _ => panic!("not a status"),
    }
}

#[test]
fn lock_without_tunnel_is_reported_as_locked() {
    match status(&obs(false, true)) {
        Response::Status { state, endpoint, rx_bytes, .. } => {
            assert_eq!(state, states::LOCKED_NO_TUNNEL);
            assert!(endpoint.is_none() && rx_bytes.is_none());
        }
        _ => panic!("not a status"),
    }
    match status(&obs(false, false)) {
        Response::Status { state, .. } => assert_eq!(state, states::DISCONNECTED),
        _ => panic!("not a status"),
    }
}

#[test]
fn peer_fields_that_do_not_parse_are_absent() {
    let mut o = obs(true, false);
    o.latest_handshakes = Some("pubkey=\t0".into());
    o.transfer = Some("pubkey=\t1".into());
    o.endpoints = Some("no tab".into());
    o.now = 5;
    match status(&o) {
        Response::Status { endpoint, handshake_age_secs, rx_bytes, tx_bytes, .. } => {
            assert!(endpoint.is_none() && handshake_age_secs.is_none());
            assert!(rx_bytes.is_none() && tx_bytes.is_none());
        }
        _ => panic!("not a status"),
    }
    o.latest_handshakes = Some("k\t100".into());
    match status(&o) {
        Response::Status { handshake_age_secs, .. } => assert_eq!(handshake_age_secs, Some(0)),
        _ => panic!("not a status"),
    }
}

#[test]
fn tools_and_fields() {
    assert_eq!(active_tool(&Some("awg\n".into())), "awg-quick");
    assert_eq!(active_tool(&Some("wg".into())), "wg-quick");
    assert_eq!(active_tool(&None), "wg-quick");
    assert_eq!(show_binary("awg-quick"), "awg");
    assert_eq!(show_binary("wg-quick"), "wg");
    let f = wg_field("awg", "transfer");
    assert_eq!(f.program, "awg");
    assert_eq!(f.args, vec!["show", "orion0", "transfer"]);
    assert_eq!(first_line("a\tb\nc\n").as_deref(), Some("a\tb"));
    assert_eq!(first_line(""), None);
}

#[test]
fn command_failure_messages() {
    let args = vec!["-f".to_string(), "-".to_string()];
    assert_eq!(run_failure("nft", &args, "  Error: syntax\n"), "nft -f -: Error: syntax");
    assert_eq!(spawn_failure("nft", "not found"), "nft: not found");
}
