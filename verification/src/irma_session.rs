//! One disclosure session with the credential server: where its endpoints
//! are, and how the events of its status stream read.

use crate::errors::Error;
use crate::irma::{SessionResponse, SessionStatus};
use crate::text::{
    chars_of, find, find_char, str_eq, trim, trim_range, utf8_fault_text, utf8_text, Strip,
};
use vstd::prelude::*;
use vstd::string::*;
use vstd::utf8::{decode_utf8, valid_utf8};

verus! {

/// A session that the credential server has opened.
#[derive(Debug)]
pub struct IrmaSession {
    /// What a wallet needs to join the session, as JSON text.
    pub qr: String,
    /// The token by which the application refers to the session.
    pub token: String,
}

/// An [`IrmaSession`] as contracts see it.
pub struct IrmaSessionView {
    pub qr: Seq<char>,
    pub token: Seq<char>,
}

impl View for IrmaSession {
    type V = IrmaSessionView;

    open spec fn view(&self) -> IrmaSessionView {
        IrmaSessionView { qr: self.qr@, token: self.token@ }
    }
}

/// One event of the status stream, read as far as its field.
pub enum SseLine {
    /// A `data` field with its value, trimmed.
    Data(Seq<char>),
    /// An `event` field.
    Event,
    /// Anything else.
    Malformed,
}

/// What the error says of an event that is no status.
pub open spec fn malformed_sse_text() -> Seq<char> {
    "Could not parse session status SSE"@
}

/// What the error says of an event that could not be read at all, with the
/// reason.
pub open spec fn unreadable_sse_text(reason: Seq<char>) -> Seq<char> {
    "Could not parse session status SSE "@ + reason
}

/// The value of a `data` field: what follows the colon, without white space
/// at its ends, and then without double quotes at its ends.
pub open spec fn sse_value(rest: Seq<char>) -> Seq<char> {
    trim(trim(rest, Strip::Whitespace), Strip::Quote)
}

/// An event of the status stream, split at its first colon.
pub open spec fn sse_line(message: Seq<char>) -> SseLine {
    let colon = find(message, ':');
    if colon >= message.len() {
        SseLine::Malformed
    } else if message.take(colon) == "data"@ {
        SseLine::Data(sse_value(message.skip(colon + 1)))
    } else if message.take(colon) == "event"@ {
        SseLine::Event
    } else {
        SseLine::Malformed
    }
}

/// The status that an event of the status stream reports, or what the error
/// says of it. An `event` field, whatever its value, reports a session that
/// has been initialized.
pub open spec fn sse_status(message: Seq<char>) -> Result<SessionStatus, Seq<char>> {
    match sse_line(message) {
        SseLine::Data(value) => match SessionStatus::from_name(value) {
            Some(status) => Ok(status),
            None => Err(SessionStatus::unknown_name_text(value)),
        },
        SseLine::Event => Ok(SessionStatus::Initialized),
        SseLine::Malformed => Err(malformed_sse_text()),
    }
}

/// Whether a result is the status that is expected, or a parse error with
/// the text that is expected.
pub open spec fn reports(
    r: Result<SessionStatus, Error>,
    expected: Result<SessionStatus, Seq<char>>,
) -> bool {
    match expected {
        Ok(status) => r == Ok::<SessionStatus, Error>(status),
        Err(text) => r matches Err(Error::ParseError(reason)) && reason@ == text,
    }
}

impl IrmaSession {
    /// The session that the credential server has opened with this answer.
    pub fn from_response(response: SessionResponse) -> (r: IrmaSession)
        ensures
            r.token == response.token,
            r.qr@ == response.session_ptr.text(),
    {
        let qr = response.session_ptr.to_json();
        IrmaSession { token: response.token, qr }
    }

    /// Where sessions are started, on the credential server at `server`.
    pub fn start_url(server: &str) -> (r: String)
        ensures
            r@ == server@ + "/session"@,
    {
        let mut url = server.to_owned();
        url.append("/session");
        url
    }

    /// Where this session lives; a `DELETE` there cancels it.
    pub fn url(&self, server: &str) -> (r: String)
        ensures
            r@ == server@ + "/session/"@ + self.token@,
    {
        let mut url = server.to_owned();
        url.append("/session/");
        url.append(self.token.as_str());
        url
    }

    /// Where the status stream of this session is served.
    pub fn updates_url(&self, server: &str) -> (r: String)
        ensures
            r@ == server@ + "/session/"@ + self.token@ + "/statusevents"@,
    {
        let mut url = self.url(server);
        url.append("/statusevents");
        url
    }

    /// Where the signed proof of this session is served.
    pub fn proof_url(&self, server: &str) -> (r: String)
        ensures
            r@ == server@ + "/session/"@ + self.token@ + "/getproof"@,
    {
        let mut url = self.url(server);
        url.append("/getproof");
        url
    }

    /// Reads the status that the text of one event reports.
    pub fn parse_sse_text(message: &str) -> (r: Result<SessionStatus, Error>)
        ensures
            reports(r, sse_status(message@)),
    {
        let chars = chars_of(message);
        let colon = find_char(&chars, ':');
        if colon >= chars.len() {
            return Err(Error::ParseError("Could not parse session status SSE".to_owned()));
        }
        proof {
            assert(message@.subrange(0, colon as int) =~= message@.take(colon as int));
            assert(message@.subrange(colon + 1, message@.len() as int) =~= message@.skip(
                colon + 1,
            ));
        }
        let field = message.substring_char(0, colon);
        if str_eq(field, "data") {
            let (from, to) = trim_range(&chars, colon + 1, chars.len(), Strip::Whitespace);
            let (from, to) = trim_range(&chars, from, to, Strip::Quote);
            let value = message.substring_char(from, to).to_owned();
            SessionStatus::try_from(value)
        } else if str_eq(field, "event") {
            Ok(SessionStatus::Initialized)
        } else {
            Err(Error::ParseError("Could not parse session status SSE".to_owned()))
        }
    }

    /// Reads the status that one event of the status stream reports.
    ///
    /// `event` is what the stream gave: the bytes of the event, or the text
    /// of the failure to read them. The bytes have to be UTF-8. A `data`
    /// field reports the status that its value names, an `event` field a
    /// session that has been initialized; anything else is a parse error.
    pub fn parse_sse(event: Result<Vec<u8>, String>) -> (r: Result<SessionStatus, Error>)
        ensures
            match event {
                Err(reason) => reports(r, Err(unreadable_sse_text(reason@))),
                Ok(bytes) => if valid_utf8(bytes@) {
                    reports(r, sse_status(decode_utf8(bytes@)))
                } else {
                    reports(r, Err(unreadable_sse_text(utf8_fault_text(bytes@))))
                },
            },
    {
        let bytes = match event {
            Ok(bytes) => bytes,
            Err(reason) => {
                return Err(Self::unreadable(reason.as_str()));
            },
        };
        match utf8_text(bytes) {
            Ok(message) => Self::parse_sse_text(message.as_str()),
            Err(reason) => Err(Self::unreadable(reason.as_str())),
        }
    }

    fn unreadable(reason: &str) -> (r: Error)
        ensures
            r matches Error::ParseError(text) && text@ == unreadable_sse_text(reason@),
    {
        let mut text = "Could not parse session status SSE ".to_owned();
        text.append(reason);
        Error::ParseError(text)
    }
}

} // verus!
