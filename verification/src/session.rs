//! Sessions: the display name a bearer token carries, the name rule enforced
//! at login, and the signing of tokens through the JWT crate.

use crate::error::Error;
use vstd::prelude::*;

verus! {

/// Shortest display name accepted at login.
pub const NAME_LEN_MIN: u64 = 1;

/// A display name must be shorter than this many bytes.
pub const NAME_LEN_MAX: u64 = 16;

/// A display name is valid when its length, in bytes of its UTF-8 encoding,
/// is at least [`NAME_LEN_MIN`] and under [`NAME_LEN_MAX`].
pub open spec fn valid_name(name: Seq<char>) -> bool {
    NAME_LEN_MIN <= vstd::utf8::encode_utf8(name).len() < NAME_LEN_MAX
}

/// The claim set a bearer token carries: the caller's display name.
#[derive(Debug, Clone)]
pub struct UserSession {
    pub name: String,
}

/// The body of a login request.
#[derive(Debug)]
pub struct LoginForm {
    pub name: String,
}

/// The process configuration: the token-signing secret and the base URI the
/// transport mounts the routes under. Read from the environment by the
/// program around the library.
#[derive(Debug)]
pub struct Config {
    pub jwt_secret: String,
    pub uri: String,
}

/// The token that signing a name under a secret produces. Relied on below:
/// the JWT crate's HMAC signing is a function of the secret and the claims
/// alone.
pub uninterp spec fn token_of(secret: Seq<char>, name: Seq<char>) -> Seq<char>;

/// Relies on `jsonwebtoken::encode` under the default HS256 header, with a
/// single-entry claim map built from the name: the compact token it returns
/// is a deterministic function of the secret and the name. Signing never
/// fails here: the key family matches the header's algorithm, an HMAC key
/// accepts any length, the HMAC signer is infallible, and both the header
/// and the string-keyed claim object serialize without error.
#[verifier::external_body]
fn encode_claims(secret: &str, name: &str) -> (r: Result<String, String>)
    ensures
        r is Ok,
        r matches Ok(t) ==> t@ == token_of(secret@, name@),
{
    let mut claims = serde_json::Map::new();
    claims.insert("name".to_string(), serde_json::Value::String(name.to_string()));
    match jsonwebtoken::encode(
        &jsonwebtoken::Header::default(),
        &serde_json::Value::Object(claims),
        &jsonwebtoken::EncodingKey::from_secret(secret.as_bytes()),
    ) {
        Ok(t) => Ok(t),
        Err(e) => Err(format!("{:?}", e)),
    }
}

impl UserSession {
    /// Accepts a session exactly when the display name is valid, measured in
    /// bytes; a name out of range is rejected as invalid. The rejection
    /// clause carries the machine bound every real string meets: its bytes
    /// fit in a machine word.
    pub fn new(name: String) -> (r: Result<Self, Error>)
        ensures
            valid_name(name@) ==> (r matches Ok(s) && s.name == name),
            !valid_name(name@) && vstd::utf8::encode_utf8(name@).len() <= usize::MAX ==> r is Err,
            r is Err ==> (r matches Err(e) && e == Error::InvalidName),
            r matches Ok(s) ==> s.name == name,
    {
        let len = name.as_str().len();
        if 1 <= len && len < 16 {
            Ok(UserSession { name })
        } else {
            Err(Error::InvalidName)
        }
    }

    /// Signs this session's claim set under the secret; the token is the one
    /// the secret and the name determine.
    pub fn encode(&self, secret: &str) -> (r: Result<String, Error>)
        ensures
            r matches Ok(t) && t@ == token_of(secret@, self.name@),
    {
        match encode_claims(secret, self.name.as_str()) {
            Ok(t) => Ok(t),
            Err(msg) => Err(Error::from(msg)),
        }
    }
}

} // verus!
