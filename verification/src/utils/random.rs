//! Opaque random strings: refresh tokens, verification tokens, authorization
//! codes and password salts.

use vstd::prelude::*;

verus! {

/// The length of every opaque string the service hands out.
pub const TOKEN_LENGTH: usize = 16;

/// Whether the character is an ASCII letter or digit.
pub open spec fn is_alphanumeric(c: char) -> bool {
    ('0' <= c <= '9') || ('a' <= c <= 'z') || ('A' <= c <= 'Z')
}

/// Whether a text has the shape of an opaque string: sixteen ASCII letters and
/// digits.
pub open spec fn is_opaque(s: Seq<char>) -> bool {
    s.len() == TOKEN_LENGTH && forall|i: int| 0 <= i < s.len() ==> is_alphanumeric(#[trigger] s[i])
}

/// Draws one byte from `rand::distributions::Alphanumeric` with the thread's
/// generator.
///
/// Trusted: the byte is an ASCII letter or digit. Which one is chance.
#[verifier::external_body]
pub(crate) fn random_alphanumeric() -> (b: u8)
    ensures
        is_alphanumeric(b as char),
{
    rand::Rng::sample(&mut rand::thread_rng(), rand::distributions::Alphanumeric)
}

/// A fresh opaque string of sixteen random letters and digits.
pub fn generate_refresh_token() -> (token: String)
    ensures
        is_opaque(token@),
{
    let mut token = String::new();
    let mut i: usize = 0;
    while i < TOKEN_LENGTH
        invariant
            i <= TOKEN_LENGTH,
            token@.len() == i,
            forall|k: int| 0 <= k < i ==> is_alphanumeric(#[trigger] token@[k]),
        decreases TOKEN_LENGTH - i,
    {
        token.push(random_alphanumeric() as char);
        i += 1;
    }
    token
}

} // verus!
