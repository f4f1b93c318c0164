use orion_client::disconnect::{
    bring_down, disconnect, Disconnect, DisconnectAction, DisconnectOutcome, DisconnectStep,
};
use orion_client::protocol::Response;

fn cont(step: DisconnectStep) -> (Disconnect, DisconnectAction) {
    match step {
        DisconnectStep::Continue(d, a) => (d, a),
        DisconnectStep::Finish(r) => panic!("finished early: {r:?}"),
    }
}

#[test]
fn disconnect_brings_the_tunnel_down_then_lifts_the_lock() {
    let (d, a) = cont(disconnect());
    assert!(matches!(a, DisconnectAction::CheckInterface));
    let (d, a) = cont(d.step(DisconnectOutcome::Interface(true)));
    assert!(matches!(a, DisconnectAction::ReadActiveTool));
    let (d, a) = cont(d.step(DisconnectOutcome::ToolFile(Some("awg".into()))));
    match &a {
        DisconnectAction::Run(inv) => {
            assert_eq!(inv.program, "timeout");
            assert_eq!(inv.args, vec!["10", "awg-quick", "down", "orion0"]);
        }
        _ => panic!("expected the tunnel command"),
    }
    let (d, a) = cont(d.step(DisconnectOutcome::Ran(Ok(String::new()))));
    assert!(matches!(a, DisconnectAction::ForgetActiveProfile));
    let (d, a) = cont(d.step(DisconnectOutcome::Completed));
    assert!(matches!(a, DisconnectAction::RemoveLock));
    assert!(matches!(d.step(DisconnectOutcome::Completed), DisconnectStep::Finish(Response::Done)));
}

#[test]
fn a_failed_teardown_is_a_warning_and_the_lock_still_goes() {
    let (d, _) = cont(disconnect());
    let (d, _) = cont(d.step(DisconnectOutcome::Interface(true)));
    let (d, _) = cont(d.step(DisconnectOutcome::ToolFile(None)));
    let (d, _) = cont(d.step(DisconnectOutcome::Ran(Err("busy".into()))));
    let (d, a) = cont(d.step(DisconnectOutcome::Completed));
    assert!(matches!(a, DisconnectAction::RemoveLock));
    match d.step(DisconnectOutcome::Completed) {
        DisconnectStep::Finish(Response::Error { message }) => assert_eq!(message, "wg-quick down: busy"),
        _ => panic!("expected the warning"),
    }
}

#[test]
fn without_a_tunnel_only_the_lock_goes() {
    let (d, _) = cont(disconnect());
    let (d, a) = cont(d.step(DisconnectOutcome::Interface(false)));
    assert!(matches!(a, DisconnectAction::ForgetActiveProfile));
    let (d, _) = cont(d.step(DisconnectOutcome::Completed));
    assert!(matches!(d.step(DisconnectOutcome::Completed), DisconnectStep::Finish(Response::Done)));
}

#[test]
fn emergency_teardown_command() {
    let inv = bring_down("wg-quick");
    assert_eq!(inv.program, "wg-quick");
    assert_eq!(inv.args, vec!["down", "orion0"]);
    assert!(inv.input.is_none());
}
