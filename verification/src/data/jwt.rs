//! Signing and reading of compact tokens, done by the `jsonwebtoken` crate.
//!
//! The library hands the crate a flat set of numeric claims and a secret, and
//! gets back a token string, or the claims that a token string carries. What
//! the crate computes is not proved here: it is named, and the contracts below
//! say what is taken on trust of it.

use vstd::prelude::*;

verus! {

/// The token that `jsonwebtoken::encode` makes of a claim list under a secret
/// with the default header (HS256), or `None` where it fails.
pub uninterp spec fn jwt_encoded(claims: Seq<(Seq<char>, u64)>, secret: Seq<u8>) -> Option<
    Seq<char>,
>;

/// The claims that `jsonwebtoken::decode` reads from a token under a secret,
/// when it checks the structure, the HS256 signature and that the payload is
/// an object of unsigned numbers, and nothing else; `None` where it refuses.
pub uninterp spec fn jwt_decoded(token: Seq<char>, secret: Seq<u8>) -> Option<Map<Seq<char>, u64>>;

/// No claim name occurs twice in the list.
pub open spec fn distinct_names(claims: Seq<(Seq<char>, u64)>) -> bool {
    forall|i: int, j: int| 0 <= i < j < claims.len() ==> claims[i].0 != claims[j].0
}

/// The list read as a map from claim name to value.
pub open spec fn claim_map(claims: Seq<(Seq<char>, u64)>) -> Map<Seq<char>, u64> {
    Map::new(
        |name: Seq<char>| exists|i: int| 0 <= i < claims.len() && claims[i].0 == name,
        |name: Seq<char>| claims[choose|i: int| 0 <= i < claims.len() && claims[i].0 == name].1,
    )
}

/// Whether `index` lies in the signature of a token: behind its last dot.
pub open spec fn in_signature(token: Seq<char>, index: int) -> bool {
    &&& 0 <= index < token.len()
    &&& exists|dot: int| 0 <= dot < index && token[dot] == '.'
    &&& forall|j: int| index <= j < token.len() ==> token[j] != '.'
}

/// Whether a token shows tampering with its signature: every text that
/// differs from it in one character of the signature is refused.
pub open spec fn tamper_evident(token: Seq<char>, secret: Seq<u8>) -> bool {
    forall|index: int, c: char|
        in_signature(token, index) && c != token[index] ==> jwt_decoded(
            #[trigger] token.update(index, c),
            secret,
        ) is None
}

/// Calls `jsonwebtoken::encode` with the default header, the claims as a JSON
/// object and the secret as an HMAC key.
///
/// Trusted: the call succeeds, since with an HMAC secret, the default header
/// and an object of unsigned numbers the crate has nothing to refuse; the
/// result is the named token; it reads back, under the same secret, as
/// exactly the claims that went in; and it shows tampering, as every token
/// that is accepted does (see `read_claims`).
#[verifier::external_body]
pub(crate) fn sign_claims(claims: &Vec<(String, u64)>, secret: &[u8]) -> (token: Option<String>)
    requires
        distinct_names(claims.deep_view()),
    ensures
        token is Some,
        match token {
            Some(t) => {
                &&& jwt_encoded(claims.deep_view(), secret@) == Some(t@)
                &&& jwt_decoded(t@, secret@) == Some(claim_map(claims.deep_view()))
                &&& tamper_evident(t@, secret@)
            },
            None => jwt_encoded(claims.deep_view(), secret@) is None,
        },
{
    let object: std::collections::BTreeMap<&str, u64> = claims.iter().map(
        |claim| (claim.0.as_str(), claim.1),
    ).collect();
    let key = jsonwebtoken::EncodingKey::from_secret(secret);
    jsonwebtoken::encode(&jsonwebtoken::Header::default(), &object, &key).ok()
}

/// Calls `jsonwebtoken::decode` for HS256 with the secret as an HMAC key, with
/// its own expiry check and its list of required claims switched off, so that
/// the answer depends on the token and the secret alone.
///
/// Trusted: the result is the named one, and each claim name comes once. An
/// accepted token shows tampering: the crate signs the text before the last
/// dot anew and accepts only if the text behind the dot equals that signature
/// byte for byte, so no other text can stand there; and with a dot put into
/// the signature, the part that then counts as the header has a dot in it
/// and cannot be decoded.
#[verifier::external_body]
pub(crate) fn read_claims(token: &str, secret: &[u8]) -> (claims: Option<Vec<(String, u64)>>)
    ensures
        match claims {
            Some(list) => {
                &&& distinct_names(list.deep_view())
                &&& jwt_decoded(token@, secret@) == Some(claim_map(list.deep_view()))
                &&& tamper_evident(token@, secret@)
            },
            None => jwt_decoded(token@, secret@) is None,
        },
{
    let mut validation = jsonwebtoken::Validation::new(jsonwebtoken::Algorithm::HS256);
    validation.validate_exp = false;
    validation.required_spec_claims.clear();
    let key = jsonwebtoken::DecodingKey::from_secret(secret);
    let data = jsonwebtoken::decode::<std::collections::BTreeMap<String, u64>>(
        token,
        &key,
        &validation,
    ).ok()?;
    Some(data.claims.into_iter().collect())
}

} // verus!
