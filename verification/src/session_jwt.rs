//! The bearer token that admits its holder to the chat.

use crate::clock::{unix_time, CLOCK_END};
use crate::errors::Error;
use crate::json::{int_decimal, int_text, json_string_text, json_text};
use crate::jwt::{encode, hs256_token, signed};
use vstd::prelude::*;
use vstd::string::*;

verus! {

/// The seconds for which a session token is good.
pub const SESSION_LIFETIME: i64 = 3600;

/// The claims of a session token: who holds it, and until when it is good.
#[derive(Debug)]
pub struct SessionJwt {
    /// The second, counted from the Unix epoch, at which the token expires.
    pub exp: i64,
    /// The identity of the holder.
    pub sub: String,
}

impl SessionJwt {
    /// The claims as one JSON object, given the JSON text of the subject.
    pub open spec fn frame_text(exp: int, sub_json: Seq<char>) -> Seq<char> {
        "{\"exp\":"@ + int_text(exp) + ",\"sub\":"@ + sub_json + "}"@
    }

    /// The claims as the JSON text that is signed.
    pub open spec fn claims_text(&self) -> Seq<char> {
        Self::frame_text(self.exp as int, json_string_text(self.sub@))
    }

    /// The claims of a token for `sub` that is issued at `now`: it expires
    /// an hour later.
    pub fn issued_at(sub: String, now: i64) -> (r: Self)
        requires
            now + SESSION_LIFETIME <= i64::MAX,
        ensures
            r.exp == now + SESSION_LIFETIME,
            r.sub == sub,
    {
        SessionJwt { exp: now + SESSION_LIFETIME, sub }
    }

    /// The claims of a token for `sub` that is issued now, by the wall
    /// clock.
    pub fn new(sub: String) -> (r: Self)
        ensures
            r.sub == sub,
            SESSION_LIFETIME <= r.exp < CLOCK_END + SESSION_LIFETIME,
    {
        Self::issued_at(sub, unix_time())
    }

    /// The claims of a verified token, where it has both claims of a
    /// session.
    pub fn from_claims(exp: Option<i64>, sub: Option<String>) -> (r: Result<Self, Error>)
        ensures
            match (exp, sub) {
                (Some(exp), Some(sub)) => r matches Ok(claims) && claims.exp == exp && claims.sub
                    == sub,
                _ => r matches Err(Error::InvalidJWT),
            },
    {
        match (exp, sub) {
            (Some(exp), Some(sub)) => Ok(SessionJwt { exp, sub }),
            _ => Err(Error::InvalidJWT),
        }
    }

    /// Frames the claims around the JSON text of the subject.
    pub fn frame(&self, sub_json: &str) -> (r: String)
        ensures
            r@ == Self::frame_text(self.exp as int, sub_json@),
    {
        let mut text = "{\"exp\":".to_owned();
        let exp = int_decimal(self.exp);
        text.append(exp.as_str());
        text.append(",\"sub\":");
        text.append(sub_json);
        text.append("}");
        text
    }

    /// The claims as the JSON text that is signed.
    pub fn claims_json(&self) -> (r: String)
        ensures
            r@ == self.claims_text(),
    {
        let sub_json = json_text(self.sub.as_str());
        self.frame(sub_json.as_str())
    }

    /// Signs the claims with HS256 under the secret of the application. It
    /// succeeds exactly where the signing crate makes a token of the secret
    /// and the claims.
    pub fn as_jwt(&self, key: &str) -> (r: Result<String, Error>)
        ensures
            signed(r, hs256_token(key@, self.claims_text())),
    {
        let claims = self.claims_json();
        encode(key.to_owned(), claims.as_str())
    }
}

} // verus!
