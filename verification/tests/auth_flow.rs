use irma_chat::auth_socket::{finish_session, AuthAction, AuthEvent, AuthSession, AuthState};
use irma_chat::errors::Error;
use irma_chat::irma::{
    IrmaAttributes, IrmaProofPayload, ProofStatus, SessionPointer, SessionResponse, SessionStatus,
    SessionType,
};
use irma_chat::irma_session::IrmaSession;
use irma_chat::jwt::decode;
use irma_chat::socket_request::SocketRequest;
use irma_chat::socket_response::{Action, SocketResponse};

const KEY: &str = "an application secret";
const ATTRIBUTES: &str = r#"[["pbdf.pbdf.idin.initials", "pbdf.pbdf.idin.familyname"]]"#;
const QR: &str = r#"{"action":"qr","payload":"{\"u\":\"http://127.0.0.1:1234/irma/session/NLSNBLePEryjuZcsZ1Vg\",\"irmaqr\":\"disclosing\"}"}"#;

fn frame(text: &str) -> AuthEvent {
    AuthEvent::Frame(SocketRequest::new(text.to_string(), false))
}

fn close_frame() -> AuthEvent {
    AuthEvent::Frame(SocketRequest::new(String::new(), true))
}

fn started() -> AuthEvent {
    let response = SessionResponse {
        token: "P9hCuu0hCQtfFndWXgoQ".to_string(),
        session_ptr: SessionPointer::new(
            "http://127.0.0.1:1234/irma/session/NLSNBLePEryjuZcsZ1Vg".to_string(),
            SessionType::Disclosing,
        ),
    };
    AuthEvent::Started(IrmaSession::from_response(response))
}

fn status(line: &[u8]) -> AuthEvent {
    AuthEvent::Status(IrmaSession::parse_sse(Ok(line.to_vec())).unwrap())
}

fn verified(status: ProofStatus) -> AuthEvent {
    let mut attributes = IrmaAttributes::new();
    attributes.insert("pbdf.pbdf.idin.initials".to_string(), "Foo".to_string());
    attributes.insert("pbdf.pbdf.idin.familyname".to_string(), "Bar".to_string());
    let payload = IrmaProofPayload::new(
        attributes,
        1_700_000_300,
        1_700_000_000,
        "irmaserver".to_string(),
        status,
        "disclosure_result".to_string(),
    );
    AuthEvent::Proof(payload.verify(ATTRIBUTES))
}

/// What the client reads: the frames that the actions put on the wire.
fn wire(actions: &[AuthAction]) -> Vec<String> {
    let mut frames = Vec::new();
    for action in actions {
        if let AuthAction::Send(response) = action {
            frames.push(response.encode().unwrap());
        }
    }
    frames
}

fn kinds(actions: &[AuthAction]) -> Vec<&'static str> {
    actions
        .iter()
        .map(|action| match action {
            AuthAction::StartSession => "start",
            AuthAction::Send(_) => "send",
            AuthAction::Subscribe => "subscribe",
            AuthAction::StopSession => "stop",
            AuthAction::VerifyProof => "verify",
            AuthAction::Close(None) => "close",
            AuthAction::Close(Some(_)) => "fail",
        })
        .collect()
}

/// Runs a connection up to the point where its session is active.
fn active() -> AuthSession {
    let mut bridge = AuthSession::new(KEY.to_string());
    assert_eq!(kinds(&bridge.handle(frame("start"))), vec!["start"]);
    assert_eq!(bridge.state(), AuthState::Starting);
    let actions = bridge.handle(started());
    assert_eq!(kinds(&actions), vec!["send", "subscribe"]);
    assert_eq!(wire(&actions), vec![QR.to_string()]);
    assert_eq!(bridge.state(), AuthState::Active);
    bridge
}

#[test]
fn test_valid_session() {
    let mut bridge = active();

    let actions = bridge.handle(status(b"data: CONNECTED\n\r"));
    assert_eq!(wire(&actions), vec![r#"{"action":"status","payload":"CONNECTED"}"#.to_string()]);
    assert_eq!(kinds(&actions), vec!["send"]);

    let actions = bridge.handle(status(b"data: DONE\n\r"));
    assert_eq!(wire(&actions), vec![r#"{"action":"status","payload":"DONE"}"#.to_string()]);
    assert_eq!(kinds(&actions), vec!["send", "verify"]);
    assert_eq!(bridge.state(), AuthState::Finishing);

    let actions = bridge.handle(verified(ProofStatus::Valid));
    assert_eq!(kinds(&actions), vec!["send", "close"]);
    let token = match &actions[0] {
        AuthAction::Send(response) => {
            assert_eq!(response.action(), Action::Jwt);
            response.payload().to_string()
        }
        other => panic!("expected a token, got {:?}", other),
    };
    let decode_result = decode(KEY.to_string(), token).unwrap();
    assert_eq!(decode_result.sub, "Foo Bar");
    assert!(bridge.is_terminated());
}

#[test]
fn test_invalid_session() {
    let mut bridge = active();

    let actions = bridge.handle(status(b"data: CONNECTED\n\r"));
    assert_eq!(wire(&actions), vec![r#"{"action":"status","payload":"CONNECTED"}"#.to_string()]);

    let actions = bridge.handle(status(b"data: DONE\n\r"));
    assert_eq!(wire(&actions), vec![r#"{"action":"status","payload":"DONE"}"#.to_string()]);

    let actions = bridge.handle(verified(ProofStatus::Invalid));
    assert_eq!(
        wire(&actions),
        vec![r#"{"action":"error","payload":"Could not verify claim"}"#.to_string()]
    );
    assert_eq!(kinds(&actions), vec!["send", "fail"]);
    assert!(matches!(&actions[1], AuthAction::Close(Some(Error::InvalidProofStatus))));
    assert!(bridge.is_terminated());
}

#[test]
fn test_cancel() {
    let mut bridge = active();

    let actions = bridge.handle(status(b"data: CONNECTED\n\r"));
    assert_eq!(wire(&actions), vec![r#"{"action":"status","payload":"CONNECTED"}"#.to_string()]);

    let actions = bridge.handle(status(b"data: CANCELLED\n\r"));
    assert_eq!(wire(&actions), vec![r#"{"action":"status","payload":"CANCELLED"}"#.to_string()]);
    // the session was cancelled by the server: it is not stopped again
    assert_eq!(kinds(&actions), vec!["send", "close"]);
    assert!(bridge.is_terminated());

    // nothing follows
    assert!(bridge.handle(verified(ProofStatus::Valid)).is_empty());
    assert!(bridge.handle(status(b"data: DONE\n\r")).is_empty());
}

#[test]
fn timeout_ends_the_session_after_the_forward() {
    let mut bridge = active();
    let actions = bridge.handle(status(b"data: TIMEOUT"));
    assert_eq!(wire(&actions), vec![r#"{"action":"status","payload":"TIMEOUT"}"#.to_string()]);
    assert_eq!(kinds(&actions), vec!["send", "close"]);
    assert_eq!(bridge.state(), AuthState::Terminated);
}

#[test]
fn initialized_and_connected_keep_the_session_active() {
    let mut bridge = active();
    let actions = bridge.handle(status(b"event: open"));
    assert_eq!(wire(&actions), vec![r#"{"action":"status","payload":"INITIALIZED"}"#.to_string()]);
    assert_eq!(bridge.state(), AuthState::Active);
    let actions = bridge.handle(AuthEvent::Status(SessionStatus::Connected));
    assert_eq!(kinds(&actions), vec!["send"]);
    assert_eq!(bridge.state(), AuthState::Active);
}

#[test]
fn first_frame_must_be_start() {
    let mut bridge = AuthSession::new(KEY.to_string());
    assert_eq!(bridge.state(), AuthState::AwaitingStart);
    let actions = bridge.handle(frame("stop"));
    assert_eq!(kinds(&actions), vec!["close"]);
    assert!(wire(&actions).is_empty());
    assert!(bridge.is_terminated());
    assert!(bridge.session().is_none());
}

#[test]
fn missing_first_frame_ends_silently() {
    let mut bridge = AuthSession::new(KEY.to_string());
    let actions = bridge.handle(AuthEvent::Exhausted);
    assert_eq!(kinds(&actions), vec!["close"]);
    assert!(bridge.is_terminated());
}

#[test]
fn close_as_first_frame_ends_silently() {
    let mut bridge = AuthSession::new(KEY.to_string());
    let actions = bridge.handle(close_frame());
    assert_eq!(kinds(&actions), vec!["close"]);

    // a close frame does not start a session, whatever its text
    let mut bridge = AuthSession::new(KEY.to_string());
    let closing = AuthEvent::Frame(SocketRequest::new("start".to_string(), true));
    assert_eq!(kinds(&bridge.handle(closing)), vec!["close"]);
    assert!(bridge.is_terminated());
}

#[test]
fn client_stop_cancels_the_session_without_a_message() {
    let mut bridge = active();
    let actions = bridge.handle(frame("stop"));
    assert_eq!(kinds(&actions), vec!["stop", "close"]);
    assert!(wire(&actions).is_empty());
    assert!(bridge.is_terminated());
    assert_eq!(bridge.session().unwrap().token, "P9hCuu0hCQtfFndWXgoQ");
}

#[test]
fn client_close_cancels_the_session() {
    let mut bridge = active();
    let actions = bridge.handle(close_frame());
    assert_eq!(kinds(&actions), vec!["stop", "close"]);
    assert!(bridge.is_terminated());
}

#[test]
fn other_frames_are_ignored_while_active() {
    let mut bridge = active();
    assert!(bridge.handle(frame("start")).is_empty());
    assert!(bridge.handle(frame("hello")).is_empty());
    assert_eq!(bridge.state(), AuthState::Active);
}

#[test]
fn exhausted_sources_end_the_session_silently() {
    let mut bridge = active();
    let actions = bridge.handle(AuthEvent::Exhausted);
    assert_eq!(kinds(&actions), vec!["close"]);
    assert!(bridge.is_terminated());
}

#[test]
fn a_failure_ends_the_session_and_is_handed_back() {
    let mut bridge = AuthSession::new(KEY.to_string());
    bridge.handle(frame("start"));
    let actions = bridge.handle(AuthEvent::Failed(Error::RequestError("refused".to_string())));
    assert_eq!(kinds(&actions), vec!["fail"]);
    match &actions[0] {
        AuthAction::Close(Some(Error::RequestError(reason))) => assert_eq!(reason, "refused"),
        other => panic!("unexpected {:?}", other),
    }
    assert!(bridge.is_terminated());

    let mut bridge = active();
    let actions = bridge.handle(AuthEvent::Failed(Error::IoError("broken pipe".to_string())));
    assert!(matches!(&actions[0], AuthAction::Close(Some(Error::IoError(_)))));
    assert!(bridge.is_terminated());
}

#[test]
fn events_out_of_turn_change_nothing() {
    let mut bridge = AuthSession::new(KEY.to_string());
    assert!(bridge.handle(started()).is_empty());
    assert!(bridge.handle(AuthEvent::Status(SessionStatus::Done)).is_empty());
    assert!(bridge.handle(verified(ProofStatus::Valid)).is_empty());
    assert_eq!(bridge.state(), AuthState::AwaitingStart);

    let mut bridge = active();
    assert!(bridge.handle(verified(ProofStatus::Valid)).is_empty());
    assert!(bridge.handle(started()).is_empty());
    assert_eq!(bridge.state(), AuthState::Active);
    bridge.handle(AuthEvent::Status(SessionStatus::Done));
    assert!(bridge.handle(frame("stop")).is_empty());
    assert!(bridge.handle(AuthEvent::Status(SessionStatus::Done)).is_empty());
    assert!(bridge.handle(AuthEvent::Exhausted).is_empty());
    assert_eq!(bridge.state(), AuthState::Finishing);
}

#[test]
fn a_token_that_cannot_be_signed_ends_the_session_without_a_message() {
    let actions = finish_session(
        Ok("Foo Bar".to_string()),
        Some(Err(Error::InvalidJWTKey)),
    );
    assert_eq!(kinds(&actions), vec!["fail"]);
    assert!(matches!(&actions[0], AuthAction::Close(Some(Error::InvalidJWTKey))));

    let actions = finish_session(Ok("Foo Bar".to_string()), Some(Ok("a.b.c".to_string())));
    assert_eq!(wire(&actions), vec![r#"{"action":"jwt","payload":"a.b.c"}"#.to_string()]);
}

#[test]
fn apply_takes_the_signed_token_as_given() {
    let mut bridge = active();
    bridge.apply(AuthEvent::Status(SessionStatus::Done), None);
    let actions = bridge.apply(
        AuthEvent::Proof(Ok("Foo Bar".to_string())),
        Some(Ok("header.claims.signature".to_string())),
    );
    assert_eq!(
        wire(&actions),
        vec![r#"{"action":"jwt","payload":"header.claims.signature"}"#.to_string()]
    );
    assert_eq!(kinds(&actions), vec!["send", "close"]);
}

/// A small generator of pseudo-random numbers, so that the runs below are
/// the same every time.
fn next(seed: &mut u64) -> u64 {
    *seed = seed.wrapping_mul(6364136223846793005).wrapping_add(1442695040888963407);
    *seed >> 33
}

fn any_event(seed: &mut u64) -> AuthEvent {
    match next(seed) % 12 {
        0 => frame("start"),
        1 => frame("stop"),
        2 => close_frame(),
        3 => started(),
        4 => AuthEvent::Status(SessionStatus::Initialized),
        5 => AuthEvent::Status(SessionStatus::Connected),
        6 => AuthEvent::Status(SessionStatus::Cancelled),
        7 => AuthEvent::Status(SessionStatus::Done),
        8 => AuthEvent::Status(SessionStatus::Timeout),
        9 => verified(ProofStatus::Valid),
        10 => verified(ProofStatus::Expired),
        _ => AuthEvent::Exhausted,
    }
}

#[test]
fn at_most_one_verdict_whatever_happens() {
    let mut seed = 7;
    for _ in 0..500 {
        let mut bridge = AuthSession::new(KEY.to_string());
        let mut verdicts = 0;
        let mut closes = 0;
        let mut closed = false;
        for _ in 0..12 {
            // bias the start of a run towards a session that gets going
            let event = any_event(&mut seed);
            for action in bridge.handle(event) {
                assert!(!closed, "an action after the connection was closed");
                match action {
                    AuthAction::Send(response) => {
                        if response.action() == Action::Jwt || response.action() == Action::Error {
                            verdicts += 1;
                        }
                    }
                    AuthAction::Close(_) => {
                        closes += 1;
                        closed = true;
                    }
                    _ => {}
                }
            }
        }
        assert!(verdicts <= 1);
        assert!(closes <= 1);
        assert_eq!(closed, bridge.is_terminated());
    }
}

#[test]
fn status_sequences_give_at_most_one_verdict() {
    let statuses = [
        SessionStatus::Initialized,
        SessionStatus::Connected,
        SessionStatus::Cancelled,
        SessionStatus::Done,
        SessionStatus::Timeout,
    ];
    // every sequence of three statuses, each followed by a proof
    for a in 0..5 {
        for b in 0..5 {
            for c in 0..5 {
                let mut bridge = active();
                let mut verdicts = 0;
                for s in [a, b, c] {
                    let mut actions = bridge.handle(AuthEvent::Status(statuses[s]));
                    actions.extend(bridge.handle(verified(ProofStatus::Valid)));
                    for action in actions {
                        if let AuthAction::Send(response) = action {
                            if response.action() != Action::Status {
                                verdicts += 1;
                            }
                        }
                    }
                }
                assert!(verdicts <= 1);
                let done_first = [a, b, c]
                    .iter()
                    .find(|s| **s >= 2)
                    .map(|s| statuses[*s] == SessionStatus::Done)
                    .unwrap_or(false);
                assert_eq!(verdicts == 1, done_first);
            }
        }
    }
}

#[test]
fn responses_are_built_with_their_action() {
    assert_eq!(SocketResponse::qr("x".to_string()).action(), Action::Qr);
    assert_eq!(SocketResponse::status("x".to_string()).action(), Action::Status);
    assert_eq!(SocketResponse::error("x".to_string()).action(), Action::Error);
    assert_eq!(SocketResponse::jwt("x".to_string()).action(), Action::Jwt);
    assert_eq!(SocketResponse::jwt("x".to_string()).payload(), "x");
    assert_eq!(Action::Qr.name(), "qr");
    assert_eq!(Action::Status.name(), "status");
    assert_eq!(Action::Jwt.name(), "jwt");
    assert_eq!(Action::Error.name(), "error");
}

#[test]
fn responses_escape_their_payload() {
    let response = SocketResponse::error("a \"quoted\" line\nand a \\ backslash".to_string());
    assert_eq!(
        response.encode().unwrap(),
        r#"{"action":"error","payload":"a \"quoted\" line\nand a \\ backslash"}"#
    );
    assert_eq!(response.frame("null"), r#"{"action":"error","payload":null}"#);
}
