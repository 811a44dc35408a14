use irma_chat::errors::Error;
use irma_chat::irma::SessionStatus;
use irma_chat::irma_session::IrmaSession;

fn parse(text: &str) -> Result<SessionStatus, Error> {
    IrmaSession::parse_sse(Ok(text.as_bytes().to_vec()))
}

fn parse_error(r: Result<SessionStatus, Error>) -> String {
    match r {
        Err(Error::ParseError(reason)) => reason,
        other => panic!("unexpected {:?}", other),
    }
}

#[test]
fn data_fields_name_a_status() {
    assert_eq!(parse("data: CONNECTED\n\r").unwrap(), SessionStatus::Connected);
    assert_eq!(parse("data: DONE\n\r").unwrap(), SessionStatus::Done);
    assert_eq!(parse("data: CANCELLED\n\r").unwrap(), SessionStatus::Cancelled);
    assert_eq!(parse("data:TIMEOUT").unwrap(), SessionStatus::Timeout);
    assert_eq!(parse("data:INITIALIZED").unwrap(), SessionStatus::Initialized);
}

#[test]
fn white_space_and_quotes_around_the_value_are_taken_off() {
    assert_eq!(parse("data: \"DONE\"\n\n").unwrap(), SessionStatus::Done);
    assert_eq!(parse("data:\t \"\"DONE\"\"\"  \r\n").unwrap(), SessionStatus::Done);
    assert_eq!(parse("data:\u{a0}\u{2003}DONE\u{3000}\u{85}").unwrap(), SessionStatus::Done);
}

#[test]
fn white_space_inside_the_quotes_stays() {
    assert_eq!(
        parse_error(parse("data: \" DONE\"")),
        "Could not parse SSE to sessions status ' DONE'"
    );
    assert_eq!(
        parse_error(parse("data: DO NE")),
        "Could not parse SSE to sessions status 'DO NE'"
    );
    assert_eq!(parse_error(parse("data:")), "Could not parse SSE to sessions status ''");
    assert_eq!(parse_error(parse("data: \"\"")), "Could not parse SSE to sessions status ''");
    assert_eq!(
        parse_error(parse("data: \u{200b}DONE")),
        "Could not parse SSE to sessions status '\u{200b}DONE'"
    );
}

#[test]
fn only_the_first_colon_splits() {
    assert_eq!(
        parse_error(parse("data: DONE: really")),
        "Could not parse SSE to sessions status 'DONE: really'"
    );
    assert_eq!(parse("event:a:b").unwrap(), SessionStatus::Initialized);
}

#[test]
fn event_fields_report_an_initialized_session() {
    assert_eq!(parse("event: open").unwrap(), SessionStatus::Initialized);
    assert_eq!(parse("event:").unwrap(), SessionStatus::Initialized);
    assert_eq!(parse("event: DONE").unwrap(), SessionStatus::Initialized);
}

#[test]
fn anything_else_is_malformed() {
    for text in ["", "data", "event", "DONE", " data: DONE", "Data: DONE", "data : DONE", "id: 1", ": DONE", "retry: 5"] {
        assert_eq!(parse_error(parse(text)), "Could not parse session status SSE", "{:?}", text);
    }
}

#[test]
fn the_text_of_an_event_is_parsed_like_its_bytes() {
    assert_eq!(IrmaSession::parse_sse_text("data: DONE").unwrap(), SessionStatus::Done);
    assert_eq!(
        parse_error(IrmaSession::parse_sse_text("nothing")),
        "Could not parse session status SSE"
    );
}

#[test]
fn bytes_that_are_no_utf8_are_a_parse_error() {
    let reason = parse_error(IrmaSession::parse_sse(Ok(vec![b'd', b'a', 0xff, b':'])));
    let expected = String::from_utf8(vec![b'd', b'a', 0xff, b':']).unwrap_err().to_string();
    assert_eq!(reason, format!("Could not parse session status SSE {}", expected));
    assert!(reason.contains("invalid utf-8"), "{}", reason);

    let cut_short = parse_error(IrmaSession::parse_sse(Ok(vec![b'd', 0xe2, 0x82])));
    let expected = String::from_utf8(vec![b'd', 0xe2, 0x82]).unwrap_err().to_string();
    assert_eq!(cut_short, format!("Could not parse session status SSE {}", expected));
}

#[test]
fn a_failed_read_is_a_parse_error_with_its_reason() {
    assert_eq!(
        parse_error(IrmaSession::parse_sse(Err("connection reset".to_string()))),
        "Could not parse session status SSE connection reset"
    );
}

#[test]
fn the_endpoints_of_a_session_hang_off_the_server() {
    let session = IrmaSession { qr: String::new(), token: "P9hCuu0hCQtfFndWXgoQ".to_string() };
    assert_eq!(IrmaSession::start_url("http://irma:8088"), "http://irma:8088/session");
    assert_eq!(session.url("http://irma:8088"), "http://irma:8088/session/P9hCuu0hCQtfFndWXgoQ");
    assert_eq!(
        session.updates_url("http://irma:8088"),
        "http://irma:8088/session/P9hCuu0hCQtfFndWXgoQ/statusevents"
    );
    assert_eq!(
        session.proof_url("http://irma:8088"),
        "http://irma:8088/session/P9hCuu0hCQtfFndWXgoQ/getproof"
    );
    assert_eq!(IrmaSession::start_url(""), "/session");
}
