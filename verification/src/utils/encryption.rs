//! Salted password hashes: SHA-256 over password and salt, written in hex.

use crate::utils::text::join;
use sha2::Digest;
use vstd::prelude::*;
use vstd::utf8::encode_utf8;

verus! {

/// The SHA-256 digest of a byte string, as the `sha2` crate computes it.
pub uninterp spec fn sha256(data: Seq<u8>) -> Seq<u8>;

/// Calls `sha2::Sha256::digest`.
///
/// Trusted: the bytes returned are the named digest of the bytes given, and
/// there are thirty-two of them.
#[verifier::external_body]
pub(crate) fn sha256_digest(data: &[u8]) -> (digest: Vec<u8>)
    ensures
        digest@ == sha256(data@),
        digest@.len() == 32,
{
    sha2::Sha256::digest(data).to_vec()
}

/// The lower-case hexadecimal digit of a number below sixteen.
pub open spec fn hex_digit(n: int) -> char
    recommends
        0 <= n < 16,
{
    if n < 10 {
        (('0' as int) + n) as char
    } else {
        (('a' as int) + n - 10) as char
    }
}

/// The bytes written as lower-case hexadecimal, two digits a byte, high digit
/// first.
pub open spec fn hex_of(bytes: Seq<u8>) -> Seq<char> {
    Seq::new(
        2 * bytes.len(),
        |i: int|
            if i % 2 == 0 {
                hex_digit(bytes[i / 2] as int / 16)
            } else {
                hex_digit(bytes[i / 2] as int % 16)
            },
    )
}

/// The salted hash of a password: the hexadecimal SHA-256 digest of the UTF-8
/// text of the password followed by the salt.
pub open spec fn salted(password: Seq<char>, salt: Seq<char>) -> Seq<char> {
    hex_of(sha256(encode_utf8(password + salt)))
}

/// The lower-case hexadecimal digit of a number below sixteen.
pub fn hex_char(n: u8) -> (c: char)
    requires
        n < 16,
    ensures
        c == hex_digit(n as int),
{
    if n < 10 {
        (48u8 + n) as char
    } else {
        (87u8 + n) as char
    }
}

/// Writes bytes as lower-case hexadecimal.
pub fn hex(bytes: &[u8]) -> (text: String)
    ensures
        text@ == hex_of(bytes@),
{
    let mut text = String::new();
    let mut i: usize = 0;
    proof {
        assert(text@ =~= hex_of(bytes@.take(0)));
    }
    while i < bytes.len()
        invariant
            i <= bytes.len(),
            text@ == hex_of(bytes@.take(i as int)),
        decreases bytes.len() - i,
    {
        let byte = bytes[i];
        let ghost before = text@;
        text.push(hex_char(byte / 16));
        text.push(hex_char(byte % 16));
        proof {
            let longer = bytes@.take(i + 1);
            let shorter = bytes@.take(i as int);
            assert(text@.len() == 2 * longer.len());
            assert forall|k: int| 0 <= k < text@.len() implies text@[k] == hex_of(longer)[k] by {
                if k < 2 * i {
                    assert(text@[k] == before[k]);
                    assert(shorter[k / 2] == longer[k / 2]);
                } else {
                    assert(longer[k / 2] == byte);
                }
            }
            assert(text@ =~= hex_of(longer));
        }
        i += 1;
    }
    proof {
        assert(bytes@.take(bytes@.len() as int) =~= bytes@);
    }
    text
}

/// The salted hash of a password under a user's salt: sixty-four
/// hexadecimal digits.
pub fn salt_password(password: &str, salt: &str) -> (hash: String)
    ensures
        hash@ == salted(password@, salt@),
        hash@.len() == 64,
{
    let text = join(password, salt);
    let digest = sha256_digest(text.as_str().as_bytes());
    hex(digest.as_slice())
}

} // verus!
