//! Gateway authentication: the token in force and the check of a presented token.

use vstd::prelude::*;
use crate::types::{AuthConfig, AuthMode, Error};

verus! {

broadcast use vstd::string::group_string_axioms;

proof fn lemma_or_zero(d: u8, x: u8, y: u8)
    ensures
        (d | (x ^ y)) == 0 <==> (d == 0 && x == y),
{
    assert((d | (x ^ y)) == 0 <==> (d == 0 && x == y)) by (bit_vector);
}

/// Compares two byte strings in time that depends only on their lengths.
pub fn constant_time_eq(a: &[u8], b: &[u8]) -> (r: bool)
    ensures
        r == (a@ == b@),
{
    if a.len() != b.len() {
        return false;
    }
    let mut diff: u8 = 0;
    let mut i: usize = 0;
    while i < a.len()
        invariant
            i <= a@.len(),
            a@.len() == b@.len(),
            (diff == 0) <==> (forall|j: int| 0 <= j < i ==> a@[j] == b@[j]),
        decreases a.len() - i,
    {
        proof {
            lemma_or_zero(diff, a@[i as int], b@[i as int]);
        }
        diff = diff | (a[i] ^ b[i]);
        i = i + 1;
    }
    if diff == 0 {
        assert(a@ =~= b@);
    }
    diff == 0
}

/// The authentication in force: the mode, and the expected token.
#[derive(Clone, Debug)]
pub struct ResolvedAuth {
    pub mode: AuthMode,
    pub token: Option<String>,
}

/// Why a presented token is refused.
pub enum AuthRefusal {
    NoTokenConfigured,
    TokenRequired,
    InvalidToken,
}

/// The outcome of checking a presented token: accepted, or refused and why.
pub open spec fn token_check(mode: AuthMode, expected: Option<Seq<char>>, provided: Option<Seq<char>>) -> Option<AuthRefusal> {
    match mode {
        AuthMode::Disabled => None,
        AuthMode::Token => match expected {
            None => Some(AuthRefusal::NoTokenConfigured),
            Some(e) => match provided {
                None => Some(AuthRefusal::TokenRequired),
                Some(p) => if p == e {
                    None
                } else {
                    Some(AuthRefusal::InvalidToken)
                },
            },
        },
    }
}

/// The reason given for a refusal.
pub open spec fn refusal_reason(r: AuthRefusal) -> Seq<char> {
    match r {
        AuthRefusal::NoTokenConfigured => "no token configured"@,
        AuthRefusal::TokenRequired => "token required"@,
        AuthRefusal::InvalidToken => "invalid token"@,
    }
}

impl ResolvedAuth {
    /// The token in force: the configured one, else the one from the environment.
    pub fn from_config(config: &AuthConfig, env_token: Option<String>) -> (a: Self)
        ensures
            a.mode == config.mode,
            (match config.token {
                Some(t) => a.token matches Some(x) && x@ == t@,
                None => a.token == env_token,
            }),
    {
        let token = match &config.token {
            Some(t) => Some(t.clone()),
            None => env_token,
        };
        ResolvedAuth { mode: config.mode, token }
    }

    /// Checks a presented token: anything passes when authentication is disabled; otherwise a
    /// token must be configured, presented, and equal to it.
    pub fn verify_token(&self, provided: Option<&str>) -> (r: Result<(), Error>)
        ensures
            ({
                let expected = match self.token {
                    Some(t) => Some(t@),
                    None => None,
                };
                let given = match provided {
                    Some(p) => Some(p@),
                    None => None,
                };
                match token_check(self.mode, expected, given) {
                    None => r is Ok,
                    Some(why) => r matches Err(Error::AuthFailed { reason }) && reason@
                        == refusal_reason(why),
                }
            }),
    {
        match self.mode {
            AuthMode::Disabled => Ok(()),
            AuthMode::Token => {
                let expected = match &self.token {
                    Some(t) => t,
                    None => {
                        return Err(Error::auth_failed("no token configured"));
                    },
                };
                let provided = match provided {
                    Some(p) => p,
                    None => {
                        return Err(Error::auth_failed("token required"));
                    },
                };
                let same = constant_time_eq(expected.as_str().as_bytes(), provided.as_bytes());
                proof {
                    vstd::utf8::encode_utf8_decode_utf8(expected@);
                    vstd::utf8::encode_utf8_decode_utf8(provided@);
                }
                if !same {
                    return Err(Error::auth_failed("invalid token"));
                }
                Ok(())
            },
        }
    }
}

} // verus!
