//! Who may command what.
use vstd::prelude::*;
use vstd::string::*;
use vstd::utf8::*;

use crate::text::same_text;

verus! {

/// The name and password that a request carries.
pub struct Credentials {
    pub username: String,
    pub password: String,
}

/// Why a request is turned down.
#[derive(Clone, Copy, Debug, PartialEq, Eq, Structural)]
pub enum Refusal {
    /// The request names another user than the one it commands.
    Forbidden,
    /// There is nothing under the requested id.
    NotFound,
    /// The password is not the token.
    Unauthorized,
    /// The request was allowed but could not be carried out.
    InternalServerError,
}

impl Refusal {
    /// The HTTP status code of the reply.
    pub open spec fn status(self) -> u16 {
        match self {
            Refusal::Forbidden => 403,
            Refusal::NotFound => 404,
            Refusal::Unauthorized => 401,
            Refusal::InternalServerError => 500,
        }
    }

    /// Gives the HTTP status code of the reply.
    pub fn code(&self) -> (code: u16)
        ensures
            code == self.status(),
    {
        match self {
            Refusal::Forbidden => 403,
            Refusal::NotFound => 404,
            Refusal::Unauthorized => 401,
            Refusal::InternalServerError => 500,
        }
    }
}

/// `constant_time_eq`: whether two byte strings are equal. That the time it takes does not
/// depend on their contents is not stated.
pub assume_specification[ constant_time_eq::constant_time_eq ](a: &[u8], b: &[u8]) -> (equal: bool)
    ensures
        equal == (a@ == b@),
;

/// How a request on `key` is judged, given the token that guards what stands under `key`,
/// if anything does. The user name is looked at first, then the existence, then the password.
pub open spec fn judgement(
    key: Seq<char>,
    username: Seq<char>,
    password: Seq<char>,
    token: Option<Seq<char>>,
) -> Result<(), Refusal> {
    if username != key {
        Err(Refusal::Forbidden)
    } else {
        match token {
            None => Err(Refusal::NotFound),
            Some(expected) => if password == expected {
                Ok(())
            } else {
                Err(Refusal::Unauthorized)
            },
        }
    }
}

/// The view of an optional text.
pub open spec fn optional_view(text: Option<&String>) -> Option<Seq<char>> {
    match text {
        Some(s) => Some(s@),
        None => None,
    }
}

/// Whether a password is the token, compared without leaking where they differ.
pub fn token_matches(password: &str, token: &str) -> (matches: bool)
    ensures
        matches == (password@ == token@),
{
    proof {
        encode_utf8_decode_utf8(password@);
        encode_utf8_decode_utf8(token@);
    }
    constant_time_eq::constant_time_eq(password.as_bytes(), token.as_bytes())
}

/// Judges a request on `key`, where `token` guards what stands under `key`.
pub fn authorize(key: &str, credentials: &Credentials, token: Option<&String>) -> (verdict: Result<
    (),
    Refusal,
>)
    ensures
        verdict == judgement(
            key@,
            credentials.username@,
            credentials.password@,
            optional_view(token),
        ),
{
    if !same_text(credentials.username.as_str(), key) {
        return Err(Refusal::Forbidden);
    }
    match token {
        None => Err(Refusal::NotFound),
        Some(expected) => if token_matches(credentials.password.as_str(), expected.as_str()) {
            Ok(())
        } else {
            Err(Refusal::Unauthorized)
        },
    }
}

/// Each verdict says why: another user name is forbidden; under the own name, what does not exist is
/// not found, what is guarded by another token is unauthorized, and the rest is allowed.
pub proof fn verdicts_say_why(
    key: Seq<char>,
    username: Seq<char>,
    password: Seq<char>,
    token: Option<Seq<char>>,
)
    ensures
        judgement(key, username, password, token) == Err::<(), Refusal>(Refusal::Forbidden)
            <==> username != key,
        judgement(key, username, password, token) == Err::<(), Refusal>(Refusal::NotFound)
            <==> username == key && token is None,
        judgement(key, username, password, token) == Err::<(), Refusal>(Refusal::Unauthorized)
            <==> username == key && token is Some && token != Some(password),
        judgement(key, username, password, token) is Ok <==> username == key && token == Some(
            password,
        ),
        Refusal::Forbidden.status() == 403,
        Refusal::NotFound.status() == 404,
        Refusal::Unauthorized.status() == 401,
        Refusal::InternalServerError.status() == 500,
{
}

} // verus!
