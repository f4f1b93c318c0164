use orion_client::connect::{
    connect, Connect, ConnectAction, ConnectOutcome, ConnectStep, WriteFailure,
};
use orion_client::killswitch::Address;
use orion_client::protocol::Response;

const PROFILE: &str = "[Interface]\nAddress = 10.66.0.10/32\nPostUp = evil\n[Peer]\nEndpoint = vpn.example:51820\n";

fn cont(step: ConnectStep) -> (Connect, ConnectAction) {
    match step {
        ConnectStep::Continue(c, a) => (c, a),
        ConnectStep::Finish(r) => panic!("finished early: {r:?}"),
    }
}

fn error_of(step: ConnectStep) -> String {
    match step {
        ConnectStep::Finish(Response::Error { message }) => message,
        _ => panic!("expected an error"),
    }
}

fn run_args(a: &ConnectAction) -> (String, Vec<String>) {
    match a {
        ConnectAction::Run(inv) => (inv.program.clone(), inv.args.clone()),
        _ => panic!("expected a command"),
    }
}

/// Drives an attempt up to the point where the tunnel is about to come up.
fn up_to_tunnel() -> Connect {
    let (c, a) = cont(connect("laptop"));
    assert!(matches!(a, ConnectAction::CheckInterface));
    let (c, a) = cont(c.step(ConnectOutcome::Interface(true)));
    assert!(matches!(a, ConnectAction::BringDownTunnel));
    let (c, a) = cont(c.step(ConnectOutcome::Completed));
    assert!(matches!(a, ConnectAction::ReadProfile { ref path } if path == "/etc/orion/profiles/laptop.conf"));
    let (c, a) = cont(c.step(ConnectOutcome::Text(Some(PROFILE.into()))));
    assert!(matches!(a, ConnectAction::Resolve { ref host, port: 51820 } if host == "vpn.example"));
    let (c, a) = cont(c.step(ConnectOutcome::Addresses(Ok(vec![Address::V4("203.0.113.10".into())]))));
    let (prog, args) = run_args(&a);
    assert_eq!((prog.as_str(), args), ("nft", vec!["-f".to_string(), "-".to_string()]));
    let (c, a) = cont(c.step(ConnectOutcome::Ran(Ok(String::new()))));
    assert!(matches!(a, ConnectAction::ReadProfile { .. }));
    let (c, a) = cont(c.step(ConnectOutcome::Text(Some(PROFILE.into()))));
    assert!(matches!(a, ConnectAction::ProbeDnsHook));
    let (c, a) = cont(c.step(ConnectOutcome::DnsHook(false)));
    match &a {
        ConnectAction::WriteConf { path, contents } => {
            assert_eq!(path, "/etc/wireguard/orion0.conf");
            assert_eq!(contents, "[Interface]\nAddress = 10.66.0.10/32\n[Peer]\nEndpoint = vpn.example:51820\n");
        }
        _ => panic!("expected the configuration write"),
    }
    let (c, a) = cont(c.step(ConnectOutcome::Written(Ok(()))));
    assert_eq!(run_args(&a), ("timeout".to_string(), vec!["25", "wg-quick", "up", "orion0"].into_iter().map(String::from).collect()));
    c
}

#[test]
fn successful_connect_records_and_reports() {
    let c = up_to_tunnel();
    let (c, a) = cont(c.step(ConnectOutcome::Ran(Ok(String::new()))));
    assert!(matches!(a, ConnectAction::RecordActive { ref profile, ref tool } if profile == "laptop" && tool == "wg"));
    let (c, a) = cont(c.step(ConnectOutcome::Completed));
    assert!(matches!(a, ConnectAction::ReportStatus));
    match c.step(ConnectOutcome::Status(Response::disconnected())) {
        ConnectStep::Finish(Response::Status { .. }) => {}
        _ => panic!("expected the status"),
    }
}

#[test]
fn failed_tunnel_rolls_the_lock_back() {
    let c = up_to_tunnel();
    let (c, a) = cont(c.step(ConnectOutcome::Ran(Err("handshake".into()))));
    assert_eq!(run_args(&a), ("timeout".to_string(), vec!["10", "wg-quick", "down", "orion0"].into_iter().map(String::from).collect()));
    let (c, a) = cont(c.step(ConnectOutcome::Ran(Err("not up".into()))));
    assert!(matches!(a, ConnectAction::RemoveLock));
    assert_eq!(error_of(c.step(ConnectOutcome::Completed)), "wg-quick up failed: handshake");
}

#[test]
fn refusals_before_the_lock() {
    assert_eq!(error_of(connect("  ")), "no profile selected");
    let (c, _) = cont(connect("bad name"));
    assert_eq!(error_of(c.step(ConnectOutcome::Interface(false))), "invalid profile name");
    let (c, _) = cont(connect("laptop"));
    let (c, _) = cont(c.step(ConnectOutcome::Interface(false)));
    assert_eq!(error_of(c.step(ConnectOutcome::Text(None))), "cannot read /etc/orion/profiles/laptop.conf");
    let (c, _) = cont(connect("laptop"));
    let (c, _) = cont(c.step(ConnectOutcome::Interface(false)));
    assert_eq!(error_of(c.step(ConnectOutcome::Text(Some("[Peer]\n".into())))), "profile has no Endpoint line");
    let (c, _) = cont(connect("laptop"));
    let (c, _) = cont(c.step(ConnectOutcome::Interface(false)));
    let (c, _) = cont(c.step(ConnectOutcome::Text(Some(PROFILE.into()))));
    assert_eq!(error_of(c.step(ConnectOutcome::Addresses(Err("no such host".into())))), "cannot resolve vpn.example: no such host");
}

#[test]
fn awg_profiles_use_awg_quick() {
    let text = "[Interface]\nJc = 4\n[Peer]\nEndpoint = 1.2.3.4:4500\n";
    let (c, _) = cont(connect("entry"));
    let (c, _) = cont(c.step(ConnectOutcome::Interface(false)));
    let (c, _) = cont(c.step(ConnectOutcome::Text(Some(text.into()))));
    let (c, _) = cont(c.step(ConnectOutcome::Addresses(Ok(vec![Address::V4("1.2.3.4".into())]))));
    let (c, _) = cont(c.step(ConnectOutcome::Ran(Ok(String::new()))));
    let (c, _) = cont(c.step(ConnectOutcome::Text(Some(text.into()))));
    let (c, a) = cont(c.step(ConnectOutcome::DnsHook(true)));
    assert!(matches!(a, ConnectAction::WriteConf { ref path, .. } if path == "/etc/amnezia/amneziawg/orion0.conf"));
    let (c, a) = cont(c.step(ConnectOutcome::Written(Err(WriteFailure::Write("read-only".into())))));
    assert!(matches!(a, ConnectAction::RemoveLock));
    assert_eq!(
        error_of(c.step(ConnectOutcome::Completed)),
        "write /etc/amnezia/amneziawg/orion0.conf: read-only"
    );
}

/// Drives an attempt past the kill switch, up to re-reading the profile.
fn locked() -> Connect {
    let (c, _) = cont(connect("laptop"));
    let (c, _) = cont(c.step(ConnectOutcome::Interface(false)));
    let (c, _) = cont(c.step(ConnectOutcome::Text(Some(PROFILE.into()))));
    let (c, _) = cont(c.step(ConnectOutcome::Addresses(Ok(vec![Address::V4("203.0.113.10".into())]))));
    let (c, a) = cont(c.step(ConnectOutcome::Ran(Ok(String::new()))));
    assert!(matches!(a, ConnectAction::ReadProfile { .. }));
    c
}

#[test]
fn unreadable_configuration_rolls_the_lock_back() {
    let (c, a) = cont(locked().step(ConnectOutcome::Text(None)));
    assert!(matches!(a, ConnectAction::RemoveLock));
    assert_eq!(error_of(c.step(ConnectOutcome::Completed)), "cannot read /etc/orion/profiles/laptop.conf");
}

#[test]
fn failed_chmod_rolls_the_lock_back() {
    let (c, _) = cont(locked().step(ConnectOutcome::Text(Some(PROFILE.into()))));
    let (c, _) = cont(c.step(ConnectOutcome::DnsHook(false)));
    let (c, a) = cont(c.step(ConnectOutcome::Written(Err(WriteFailure::Permissions("operation not permitted".into())))));
    assert!(matches!(a, ConnectAction::RemoveLock));
    assert_eq!(error_of(c.step(ConnectOutcome::Completed)), "operation not permitted");
}

#[test]
fn lock_failure_is_reported() {
    let (c, _) = cont(connect("laptop"));
    let (c, _) = cont(c.step(ConnectOutcome::Interface(false)));
    let (c, _) = cont(c.step(ConnectOutcome::Text(Some(PROFILE.into()))));
    let (c, _) = cont(c.step(ConnectOutcome::Addresses(Ok(vec![Address::V6("2001:db8::1".into())]))));
    assert_eq!(error_of(c.step(ConnectOutcome::Ran(Err("nft: denied".into())))), "nft: denied");
}

#[test]
fn unrelated_outcomes_leave_the_attempt_waiting() {
    let (c, _) = cont(connect("laptop"));
    let (_, a) = cont(c.step(ConnectOutcome::DnsHook(true)));
    assert!(matches!(a, ConnectAction::CheckInterface));
}
