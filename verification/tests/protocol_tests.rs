use orion_client::protocol::{Request, Response, DEFAULT_SOCKET_PATH};
use orion_client::states;
use orion_client::transport::{
    call, call_at, frame_line, CallAction, CallOutcome, CallStep, IpcError,
};

#[test]
fn disconnected_status_is_bare() {
    match Response::disconnected() {
        Response::Status { state, profile, endpoint, handshake_age_secs, rx_bytes, tx_bytes, detail } => {
            assert_eq!(state, states::DISCONNECTED);
            assert!(profile.is_none() && endpoint.is_none() && detail.is_none());
            assert!(handshake_age_secs.is_none() && rx_bytes.is_none() && tx_bytes.is_none());
        }
        _ => panic!("not a status"),
    }
}

#[test]
fn framed_line_ends_with_one_newline() {
    assert_eq!(frame_line("{\"type\":\"status\"}"), "{\"type\":\"status\"}\n");
    assert_eq!(frame_line(""), "\n");
}

#[test]
fn error_messages() {
    assert_eq!(IpcError::ServerClosed.message(), "helper closed the connection");
    assert_eq!(IpcError::Unsupported("linux only").message(), "linux only");
    let io = IpcError::Io(std::io::Error::new(std::io::ErrorKind::Other, "boom"));
    assert_eq!(io.message(), "helper socket: boom (is orion-helper running?)");
    let json = IpcError::Json(serde_json::from_str::<u8>("x").unwrap_err());
    assert!(json.message().starts_with("protocol error: "));
}

fn cont(step: CallStep) -> (orion_client::transport::Call, CallAction) {
    match step {
        CallStep::Continue(c, a) => (c, a),
        CallStep::Finish(_) => panic!("finished early"),
    }
}

#[test]
fn exchange_sends_one_line_and_decodes_the_trimmed_reply() {
    let (c, a) = cont(call(&Request::Connect { profile: "laptop".into() }));
    assert!(matches!(a, CallAction::Connect { ref path } if path == DEFAULT_SOCKET_PATH));
    let (c, a) = cont(c.step(CallOutcome::Connected(Ok(()))));
    assert!(matches!(a, CallAction::Encode(Request::Connect { ref profile }) if profile == "laptop"));
    let (c, a) = cont(c.step(CallOutcome::Encoded(Ok("{\"type\":\"connect\"}".into()))));
    assert!(matches!(a, CallAction::Send { ref line } if line == "{\"type\":\"connect\"}\n"));
    let (c, a) = cont(c.step(CallOutcome::Sent(Ok(()))));
    assert!(matches!(a, CallAction::ReadLine));
    let (c, a) = cont(c.step(CallOutcome::LineRead(Ok((14, "  {\"type\":\"ok\"}\n".into())))));
    assert!(matches!(a, CallAction::Decode { ref text } if text == "{\"type\":\"ok\"}"));
    match c.step(CallOutcome::Decoded(Ok(Response::Done))) {
        CallStep::Finish(Ok(Response::Done)) => {}
        _ => panic!("expected ok"),
    }
}

#[test]
fn empty_reply_means_the_helper_closed() {
    let (c, _) = cont(call_at("/tmp/x.sock", &Request::Status));
    let (c, _) = cont(c.step(CallOutcome::Connected(Ok(()))));
    let (c, _) = cont(c.step(CallOutcome::Encoded(Ok("{}".into()))));
    let (c, _) = cont(c.step(CallOutcome::Sent(Ok(()))));
    assert!(matches!(
        c.step(CallOutcome::LineRead(Ok((0, String::new())))),
        CallStep::Finish(Err(IpcError::ServerClosed))
    ));
}

#[test]
fn socket_failures_end_the_exchange() {
    let (c, a) = cont(call_at("/nonexistent.sock", &Request::Status));
    assert!(matches!(a, CallAction::Connect { ref path } if path == "/nonexistent.sock"));
    let err = std::io::Error::new(std::io::ErrorKind::NotFound, "no socket");
    assert!(matches!(c.step(CallOutcome::Connected(Err(err))), CallStep::Finish(Err(IpcError::Io(_)))));
}

#[test]
fn an_outcome_for_another_action_is_ignored() {
    let (c, _) = cont(call(&Request::Status));
    let (_, a) = cont(c.step(CallOutcome::Sent(Ok(()))));
    assert!(matches!(a, CallAction::Connect { .. }));
}
