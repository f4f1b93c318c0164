use orion_client::identity::{
    new_identity, ControlReply, IdentityAction, IdentityOutcome, IdentityStep, NewIdentity,
    OpenFailure,
};
use orion_client::protocol::Response;

fn cont(step: IdentityStep) -> (NewIdentity, IdentityAction) {
    match step {
        IdentityStep::Continue(x, a) => (x, a),
        IdentityStep::Finish(r) => panic!("finished early: {r:?}"),
    }
}

fn error_of(step: IdentityStep) -> String {
    match step {
        IdentityStep::Finish(Response::Error { message }) => message,
        _ => panic!("expected an error"),
    }
}

fn opened() -> NewIdentity {
    let (x, _) = cont(new_identity());
    let (x, a) = cont(x.step(IdentityOutcome::Interface(true)));
    assert!(matches!(a, IdentityAction::ReadPassword));
    let (x, a) = cont(x.step(IdentityOutcome::Password(Some("s3cret\n".into()))));
    assert!(matches!(a, IdentityAction::OpenControl { ref addr } if addr == "10.66.0.1:9051"));
    let (x, a) = cont(x.step(IdentityOutcome::Opened(Ok(()))));
    assert!(matches!(a, IdentityAction::Exchange { ref line } if line == "AUTHENTICATE \"s3cret\"\r\n"));
    x
}

#[test]
fn newnym_follows_authentication() {
    let x = opened();
    let (x, a) = cont(x.step(IdentityOutcome::Replied(ControlReply::Line("250 OK\r\n".into()))));
    assert!(matches!(a, IdentityAction::Exchange { ref line } if line == "SIGNAL NEWNYM\r\n"));
    let (x, a) = cont(x.step(IdentityOutcome::Replied(ControlReply::Line("250 OK\r\n".into()))));
    assert!(matches!(a, IdentityAction::Exchange { ref line } if line == "QUIT\r\n"));
    assert!(matches!(
        x.step(IdentityOutcome::Replied(ControlReply::Line("250 closing connection\r\n".into()))),
        IdentityStep::Finish(Response::Done)
    ));
}

#[test]
fn rejected_authentication_stops_before_newnym() {
    let x = opened();
    assert_eq!(
        error_of(x.step(IdentityOutcome::Replied(ControlReply::Line("515 Authentication failed\r\n".into())))),
        "tor rejected: 515 Authentication failed"
    );
}

#[test]
fn identity_failures() {
    let (x, _) = cont(new_identity());
    assert_eq!(
        error_of(x.step(IdentityOutcome::Interface(false))),
        "tunnel is down; connect before requesting a new identity"
    );
    let (x, _) = cont(new_identity());
    let (x, _) = cont(x.step(IdentityOutcome::Interface(true)));
    assert_eq!(
        error_of(x.step(IdentityOutcome::Password(None))),
        "no control password on file (/etc/orion/control_pass)"
    );
    let (x, _) = cont(new_identity());
    let (x, _) = cont(x.step(IdentityOutcome::Interface(true)));
    let (x, _) = cont(x.step(IdentityOutcome::Password(Some("p".into()))));
    assert_eq!(
        error_of(x.step(IdentityOutcome::Opened(Err(OpenFailure::Unreachable("refused".into()))))),
        "control port unreachable: refused"
    );
    assert_eq!(error_of(opened().step(IdentityOutcome::Replied(ControlReply::Closed))), "control connection closed");
    assert_eq!(error_of(opened().step(IdentityOutcome::Replied(ControlReply::WriteFailed))), "control connection dropped");
    assert_eq!(
        error_of(opened().step(IdentityOutcome::Replied(ControlReply::ReadFailed("reset".into())))),
        "control read: reset"
    );
}
