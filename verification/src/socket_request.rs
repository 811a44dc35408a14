//! What a client says to the server on either channel.

use crate::errors::Error;
use crate::text::str_eq;
use vstd::prelude::*;
use vstd::string::*;

verus! {

/// One websocket message from a client: the text it shows as, and whether
/// it is a close frame.
#[derive(Debug)]
pub struct SocketRequest {
    text: String,
    close: bool,
}

/// A [`SocketRequest`] as contracts see it.
pub struct SocketRequestView {
    pub text: Seq<char>,
    pub close: bool,
}

impl SocketRequestView {
    /// The request that starts a disclosure session.
    pub open spec fn is_start(self) -> bool {
        self.text == "start"@
    }

    /// The request that stops the current session.
    pub open spec fn is_stop(self) -> bool {
        self.text == "stop"@
    }
}

impl View for SocketRequest {
    type V = SocketRequestView;

    closed spec fn view(&self) -> SocketRequestView {
        SocketRequestView { text: self.text@, close: self.close }
    }
}

impl SocketRequest {
    /// A request from the text that the message shows as and its kind.
    pub fn new(text: String, close: bool) -> (r: Self)
        ensures
            r@ == (SocketRequestView { text: text@, close }),
    {
        SocketRequest { text, close }
    }

    /// Takes what a read on the socket gave: nothing, a failure with its
    /// text, or a message as its text and whether it is a close frame.
    pub fn from_message(message: Option<Result<(String, bool), String>>) -> (r: Result<
        Self,
        Error,
    >)
        ensures
            match message {
                None => r matches Err(Error::IgnorableError),
                Some(Err(reason)) => r matches Err(Error::WebsocketError(text)) && text == reason,
                Some(Ok((text, close))) => r matches Ok(request) && request@ == (
                SocketRequestView { text: text@, close }),
            },
    {
        match message {
            None => Err(Error::IgnorableError),
            Some(Err(reason)) => Err(Error::WebsocketError(reason)),
            Some(Ok((text, close))) => Ok(SocketRequest { text, close }),
        }
    }

    /// Whether this asks to start a disclosure session.
    pub fn is_start(&self) -> (r: bool)
        ensures
            r == self@.is_start(),
    {
        str_eq(self.text.as_str(), "start")
    }

    /// Whether this asks to stop the current session.
    pub fn is_stop(&self) -> (r: bool)
        ensures
            r == self@.is_stop(),
    {
        str_eq(self.text.as_str(), "stop")
    }

    /// Whether the connection was closed.
    pub fn is_close(&self) -> (r: bool)
        ensures
            r == self@.close,
    {
        self.close
    }

    /// The text of the message.
    pub fn to_string(&self) -> (r: String)
        ensures
            r@ == self@.text,
    {
        self.text.clone()
    }
}

} // verus!
