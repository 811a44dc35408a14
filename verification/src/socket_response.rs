//! What the server says to a client on the authentication channel.

use crate::errors::Error;
use crate::json::{json_string_text, json_text};
use vstd::prelude::*;
use vstd::string::*;

verus! {

/// The four kinds of message on the authentication channel.
#[derive(Clone, Copy, Debug, PartialEq, Eq, Structural)]
pub enum Action {
    /// The payload of the QR code that opens the disclosure session.
    Qr,
    /// A status of the disclosure session, as the server reported it.
    Status,
    /// The bearer token that ends a successful session.
    Jwt,
    /// The report that ends a failed session.
    Error,
}

impl Action {
    /// The value of the `action` member on the wire.
    pub open spec fn name_text(self) -> Seq<char> {
        match self {
            Action::Qr => "qr"@,
            Action::Status => "status"@,
            Action::Jwt => "jwt"@,
            Action::Error => "error"@,
        }
    }

    /// The value of the `action` member on the wire.
    pub fn name(self) -> (r: &'static str)
        ensures
            r@ == self.name_text(),
    {
        match self {
            Action::Qr => "qr",
            Action::Status => "status",
            Action::Jwt => "jwt",
            Action::Error => "error",
        }
    }
}

/// A message to the client: its kind and one string.
#[derive(Debug)]
pub struct SocketResponse {
    action: Action,
    payload: String,
}

/// A [`SocketResponse`] as contracts see it.
pub struct SocketResponseView {
    pub action: Action,
    pub payload: Seq<char>,
}

impl SocketResponseView {
    /// The response as one JSON object, given the JSON text of its payload.
    pub open spec fn frame_text(action: Action, payload_json: Seq<char>) -> Seq<char> {
        "{\"action\":\""@ + action.name_text() + "\",\"payload\":"@ + payload_json + "}"@
    }

    /// The text that goes on the wire.
    pub open spec fn wire_text(self) -> Seq<char> {
        Self::frame_text(self.action, json_string_text(self.payload))
    }
}

impl View for SocketResponse {
    type V = SocketResponseView;

    closed spec fn view(&self) -> SocketResponseView {
        SocketResponseView { action: self.action, payload: self.payload@ }
    }
}

impl SocketResponse {
    /// The message that shows a QR code, or sends the user to the wallet.
    pub fn qr(qr: String) -> (r: Self)
        ensures
            r@ == (SocketResponseView { action: Action::Qr, payload: qr@ }),
    {
        SocketResponse { action: Action::Qr, payload: qr }
    }

    /// A status update of the session.
    pub fn status(status: String) -> (r: SocketResponse)
        ensures
            r@ == (SocketResponseView { action: Action::Status, payload: status@ }),
    {
        SocketResponse { action: Action::Status, payload: status }
    }

    /// The report of a failed session.
    pub fn error(error: String) -> (r: SocketResponse)
        ensures
            r@ == (SocketResponseView { action: Action::Error, payload: error@ }),
    {
        SocketResponse { action: Action::Error, payload: error }
    }

    /// The bearer token of a finished session.
    pub fn jwt(jwt: String) -> (r: SocketResponse)
        ensures
            r@ == (SocketResponseView { action: Action::Jwt, payload: jwt@ }),
    {
        SocketResponse { action: Action::Jwt, payload: jwt }
    }

    /// The kind of the message.
    pub fn action(&self) -> (r: Action)
        ensures
            r == self@.action,
    {
        self.action
    }

    /// The string that the message carries.
    pub fn payload(&self) -> (r: &str)
        ensures
            r@ == self@.payload,
    {
        self.payload.as_str()
    }

    /// Frames the message around the JSON text of its payload.
    pub fn frame(&self, payload_json: &str) -> (r: String)
        ensures
            r@ == SocketResponseView::frame_text(self@.action, payload_json@),
    {
        let mut text = "{\"action\":\"".to_owned();
        text.append(self.action.name());
        text.append("\",\"payload\":");
        text.append(payload_json);
        text.append("}");
        text
    }

    /// Encodes the message as the JSON object that goes on the wire. It
    /// always succeeds.
    pub fn encode(&self) -> (r: Result<String, Error>)
        ensures
            r matches Ok(text) && text@ == self@.wire_text(),
    {
        let payload_json = json_text(self.payload.as_str());
        Ok(self.frame(payload_json.as_str()))
    }
}

} // verus!
