//! Signing and verifying JSON web tokens.
//!
//! The claims of a token are handed over as JSON text, which this crate
//! frames itself; `jsonwebtoken` signs and verifies.

use crate::errors::Error;
use crate::session_jwt::SessionJwt;
use jsonwebtoken::errors::Error as JwtError;
use jsonwebtoken::{Algorithm, DecodingKey, EncodingKey, Header, Validation};
use vstd::prelude::*;

verus! {

/// The token that `jsonwebtoken` makes of claims with HMAC and SHA-256
/// under a secret, where it makes one. The text of the claims is signed as
/// it stands.
pub uninterp spec fn hs256_token(secret: Seq<char>, claims_json: Seq<char>) -> Option<Seq<char>>;

/// The token that `jsonwebtoken` makes of claims with RSA (PKCS #1 v1.5) and
/// SHA-256 under a private key in PEM, with the name of the key in its
/// header, where it makes one. The text of the claims is signed as it
/// stands.
pub uninterp spec fn rs256_token(
    key_pem: Seq<u8>,
    key_id: Seq<char>,
    claims_json: Seq<char>,
) -> Option<Seq<char>>;

/// Takes the claims as they stand, with `RawValue::from_string`, and calls
/// `jsonwebtoken::encode` on them, with a header of type `JWT` for HS256 and
/// the secret as the key. Whether a token comes out, and which, depends on
/// the two arguments alone, so both go by the name [`hs256_token`]. Claims
/// that are no JSON make it fail.
#[verifier::external_body]
fn sign_hs256(secret: &str, claims_json: &str) -> (r: Result<String, JwtError>)
    ensures
        match r {
            Ok(token) => hs256_token(secret@, claims_json@) == Some(token@),
            Err(_) => hs256_token(secret@, claims_json@) is None,
        },
{
    let claims = serde_json::value::RawValue::from_string(claims_json.to_owned())?;
    let typ = Some("JWT".to_string());
    let header = Header { typ, alg: Algorithm::HS256, ..Default::default() };
    jsonwebtoken::encode(&header, &claims, &EncodingKey::from_secret(secret.as_bytes()))
}

/// Takes the claims as they stand, with `RawValue::from_string`, and calls
/// `jsonwebtoken::encode` on them, with a header of type `JWT` for RS256
/// that names the key, and the key read by `EncodingKey::from_rsa_pem`. The
/// padding of this signature takes no random input, so whether a token comes
/// out, and which, depends on the three arguments alone, and both go by the
/// name [`rs256_token`]. A key that is no RSA key in PEM, or claims that are
/// no JSON, make it fail.
#[verifier::external_body]
fn sign_rs256(key_pem: &[u8], key_id: &str, claims_json: &str) -> (r: Result<String, JwtError>)
    ensures
        match r {
            Ok(token) => rs256_token(key_pem@, key_id@, claims_json@) == Some(token@),
            Err(_) => rs256_token(key_pem@, key_id@, claims_json@) is None,
        },
{
    let claims = serde_json::value::RawValue::from_string(claims_json.to_owned())?;
    let (typ, kid) = (Some("JWT".to_string()), Some(key_id.to_string()));
    let header = Header { typ, alg: Algorithm::RS256, kid, ..Default::default() };
    jsonwebtoken::encode(&header, &claims, &EncodingKey::from_rsa_pem(key_pem)?)
}

/// The two claims of a session that a token carries: `exp`, where it is an
/// integer of 64 bits, and `sub`, where it is a string. `jsonwebtoken` reads
/// them from the middle part of the token, so they depend on the text of the
/// token alone, whoever signed it and whenever it is looked at.
pub uninterp spec fn token_claims(token: Seq<char>) -> (Option<i64>, Option<Seq<char>>);

/// A text that may be missing, as contracts see it.
pub open spec fn optional_text(text: Option<String>) -> Option<Seq<char>> {
    match text {
        Some(text) => Some(text@),
        None => None,
    }
}

/// Calls `jsonwebtoken::decode` with the secret as the key and the default
/// validation for HS256, which checks the signature and compares the `exp`
/// claim with the system clock. Whether a token passes is for the secret and
/// the clock to decide, so nothing is stated of that. Of a token that passes
/// it hands out the claims that the token carries, which go by the name
/// [`token_claims`].
#[verifier::external_body]
fn verify_hs256(secret: &str, token: &str) -> (r: Result<(Option<i64>, Option<String>), JwtError>)
    ensures
        r matches Ok((exp, sub)) ==> token_claims(token@) == (exp, optional_text(sub)),
{
    let key = DecodingKey::from_secret(secret.as_bytes());
    let validation = Validation::new(Algorithm::HS256);
    let data = jsonwebtoken::decode::<serde_json::Value>(token, &key, &validation)?;
    Ok((data.claims["exp"].as_i64(), data.claims["sub"].as_str().map(str::to_owned)))
}

/// Whether a signing gave what it was owed: the token, where there is one to
/// be had, and an error of the signing crate where there is none.
pub open spec fn signed(r: Result<String, Error>, owed: Option<Seq<char>>) -> bool {
    match r {
        Ok(token) => owed == Some(token@),
        Err(e) => e is JWTError && owed is None,
    }
}

/// Signs claims, given as JSON text, with HS256 under a secret. The text is
/// signed as it stands. It succeeds exactly where the signing crate makes a
/// token of the two.
pub fn encode(key: String, claims_json: &str) -> (r: Result<String, Error>)
    ensures
        signed(r, hs256_token(key@, claims_json@)),
{
    match sign_hs256(key.as_str(), claims_json) {
        Ok(token) => Ok(token),
        Err(e) => Err(Error::JWTError(e)),
    }
}

/// Signs claims, given as JSON text, with RS256 under a private key in PEM.
/// The header of the token names the key as `key_id`, and the text is signed
/// as it stands. It succeeds exactly where the signing crate makes a token of
/// the three.
pub fn encode_rsa(key_pem: &[u8], key_id: &str, claims_json: &str) -> (r: Result<String, Error>)
    ensures
        signed(r, rs256_token(key_pem@, key_id@, claims_json@)),
{
    match sign_rs256(key_pem, key_id, claims_json) {
        Ok(token) => Ok(token),
        Err(e) => Err(Error::JWTError(e)),
    }
}

/// Verifies a bearer token under a secret, with HS256, and reads the claims
/// of a session from it.
///
/// Whether a token passes depends on the clock as well as on the arguments.
/// The session of one that passes has the expiry and the subject that the
/// token carries. One that passes but lacks either of them is not a session
/// token.
pub fn decode(key: String, token: String) -> (r: Result<SessionJwt, Error>)
    ensures
        match r {
            Ok(claims) => token_claims(token@) == (Some(claims.exp), Some(claims.sub@)),
            Err(Error::InvalidJWT) => token_claims(token@).0 is None || token_claims(
                token@,
            ).1 is None,
            Err(e) => e is JWTError,
        },
{
    match verify_hs256(key.as_str(), token.as_str()) {
        Ok((exp, sub)) => SessionJwt::from_claims(exp, sub),
        Err(e) => Err(Error::JWTError(e)),
    }
}

} // verus!
