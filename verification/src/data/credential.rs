//! Session and access tokens: what they claim, how they are minted and how a
//! presented token is judged.
//!
//! A token is a signed set of three numbers: the second at which it expires,
//! the user it speaks for and, for an access token, the mask of the scopes it
//! was granted. Verification looks at the signature first, then at the expiry,
//! and only then at the scopes that the route asks for.

use crate::data::error::{yields, Error};
use crate::data::jwt::{
    claim_map, distinct_names, in_signature, jwt_decoded, jwt_encoded, read_claims, sign_claims,
    tamper_evident,
};
use crate::data::scope::{contains_mask, encode, lemma_bits, satisfies, ALL_SCOPES};
pub use crate::data::scope::{scopes, Scope};
use crate::utils::clock::{expires_at, expiry, now};
use vstd::prelude::*;
use vstd::slice::slice_to_vec;

verus! {

/// How long a session or access token lives: thirty minutes.
pub const SESSION_TTL: u64 = 30 * 60;

/// The server's signing secret, loaded once when the process starts.
pub struct Keys {
    secret: Vec<u8>,
}

impl View for Keys {
    type V = Seq<u8>;

    closed spec fn view(&self) -> Seq<u8> {
        self.secret@
    }
}

impl Keys {
    /// Keys that sign and check with `secret`.
    pub fn new(secret: &[u8]) -> (keys: Keys)
        ensures
            keys@ == secret@,
    {
        Keys { secret: slice_to_vec(secret) }
    }
}

/// What a token says: when it expires, whom it speaks for and, if it is
/// scoped, which scopes it was granted.
#[derive(Clone, Copy, Debug, PartialEq, Eq)]
pub struct Claims {
    pub exp: u64,
    pub uid: u32,
    pub scopes: Option<u16>,
}

impl Claims {
    /// The mask that the token was granted; none at all counts as empty.
    pub open spec fn granted(self) -> u16 {
        match self.scopes {
            Some(mask) => mask,
            None => 0,
        }
    }

    /// The claims as the named numbers that are signed.
    pub open spec fn entries(self) -> Seq<(Seq<char>, u64)> {
        let base = seq![("exp"@, self.exp), ("uid"@, self.uid as u64)];
        match self.scopes {
            Some(mask) => base.push(("scopes"@, mask as u64)),
            None => base,
        }
    }

    /// The claims that three looked-up numbers amount to, if they are there
    /// and fit: `exp` and `uid` must be present, `scopes` may be.
    pub open spec fn assemble(exp: Option<u64>, uid: Option<u64>, scopes: Option<u64>) -> Option<
        Claims,
    > {
        if exp is Some && uid is Some && uid->0 <= u32::MAX && (scopes is Some ==> scopes->0
            <= u16::MAX) {
            Some(
                Claims {
                    exp: exp->0,
                    uid: uid->0 as u32,
                    scopes: match scopes {
                        Some(mask) => Some(mask as u16),
                        None => None,
                    },
                },
            )
        } else {
            None
        }
    }

    /// The claims that a list of named numbers holds, each name taken where it
    /// first occurs.
    pub open spec fn in_list(list: Seq<(Seq<char>, u64)>) -> Option<Claims> {
        Claims::assemble(entry(list, "exp"@), entry(list, "uid"@), entry(list, "scopes"@))
    }

    /// The claims that a map of named numbers holds.
    pub open spec fn in_map(map: Map<Seq<char>, u64>) -> Option<Claims> {
        Claims::assemble(map_entry(map, "exp"@), map_entry(map, "uid"@), map_entry(map, "scopes"@))
    }
}

/// The first value listed under `name`.
pub open spec fn entry(list: Seq<(Seq<char>, u64)>, name: Seq<char>) -> Option<u64>
    decreases list.len(),
{
    if list.len() == 0 {
        None
    } else if list[0].0 == name {
        Some(list[0].1)
    } else {
        entry(list.drop_first(), name)
    }
}

/// The value that the map holds under `name`.
pub open spec fn map_entry(map: Map<Seq<char>, u64>, name: Seq<char>) -> Option<u64> {
    if map.dom().contains(name) {
        Some(map[name])
    } else {
        None
    }
}

/// The claims that a token carries under a secret: `None` where the token is
/// malformed, signed otherwise, or lacks a claim.
pub open spec fn token_claims(token: Seq<char>, secret: Seq<u8>) -> Option<Claims> {
    match jwt_decoded(token, secret) {
        Some(map) => Claims::in_map(map),
        None => None,
    }
}

/// Whether a token speaks for exactly these claims under a secret: it is
/// well formed, signed with the secret, and reads back as them.
pub open spec fn carries(token: Seq<char>, secret: Seq<u8>, claims: Claims) -> bool {
    token_claims(token, secret) == Some(claims)
}

/// How a presented token is judged at second `now`, given the claims that
/// were read from it (`None` where its signature or structure was refused) and
/// the mask that the route requires, if it requires one.
pub open spec fn verdict(claims: Option<Claims>, required: Option<u16>, now: u64) -> Result<
    Claims,
    Error,
> {
    match claims {
        None => Err(Error::InvalidToken),
        Some(c) => if now > c.exp {
            Err(Error::ExpiredToken)
        } else if required is Some && !contains_mask(c.granted(), required->0) {
            Err(Error::MissingScope)
        } else {
            Ok(c)
        },
    }
}

/// What minting yields: the signed token of the claims that expire `ttl`
/// seconds after `now`, or an internal error where the expiry does not fit or
/// signing fails.
pub open spec fn minted(secret: Seq<u8>, uid: u32, scopes: Option<u16>, now: u64, ttl: u64) -> Result<
    Seq<char>,
    Error,
> {
    if now + ttl > u64::MAX {
        Err(Error::InternalServerError)
    } else {
        match jwt_encoded(Claims { exp: (now + ttl) as u64, uid, scopes }.entries(), secret) {
            Some(token) => Ok(token),
            None => Err(Error::InternalServerError),
        }
    }
}

/// In a list without repeated names, looking a name up in the list and in the
/// map of the list give the same.
proof fn lemma_entry_in_map(list: Seq<(Seq<char>, u64)>, name: Seq<char>)
    requires
        distinct_names(list),
    ensures
        entry(list, name) == map_entry(claim_map(list), name),
    decreases list.len(),
{
    if list.len() == 0 {
    } else if list[0].0 == name {
        let i = choose|i: int| 0 <= i < list.len() && list[i].0 == name;
        if i != 0 {
            assert(list[0].0 != list[i].0);
        }
    } else {
        let rest = list.drop_first();
        assert(distinct_names(rest)) by {
            assert forall|i: int, j: int| 0 <= i < j < rest.len() implies rest[i].0 != rest[j].0 by {
                assert(rest[i] == list[i + 1]);
                assert(rest[j] == list[j + 1]);
            }
        }
        lemma_entry_in_map(rest, name);
        if claim_map(rest).dom().contains(name) {
            let k = choose|k: int| 0 <= k < rest.len() && rest[k].0 == name;
            assert(list[k + 1].0 == name);
            let i = choose|i: int| 0 <= i < list.len() && list[i].0 == name;
            assert(i != 0);
            assert(rest[i - 1].0 == name);
            if i - 1 != k {
                if i - 1 < k {
                    assert(rest[i - 1].0 != rest[k].0);
                } else {
                    assert(rest[k].0 != rest[i - 1].0);
                }
            }
        } else {
            if claim_map(list).dom().contains(name) {
                let i = choose|i: int| 0 <= i < list.len() && list[i].0 == name;
                assert(rest[i - 1].0 == name);
            }
        }
    }
}

/// Reading a list without repeated names gives the claims of its map.
proof fn lemma_claims_in_map(list: Seq<(Seq<char>, u64)>)
    requires
        distinct_names(list),
    ensures
        Claims::in_list(list) == Claims::in_map(claim_map(list)),
{
    lemma_entry_in_map(list, "exp"@);
    lemma_entry_in_map(list, "uid"@);
    lemma_entry_in_map(list, "scopes"@);
}

/// The three claim names differ from one another.
proof fn lemma_claim_names()
    ensures
        "exp"@ != "uid"@,
        "exp"@ != "scopes"@,
        "uid"@ != "scopes"@,
{
    reveal_strlit("exp");
    reveal_strlit("uid");
    reveal_strlit("scopes");
    assert("exp"@[0] != "uid"@[0]);
}

/// The signed entries of a set of claims name nothing twice and read back as
/// the same claims.
pub proof fn lemma_entries_read_back(c: Claims)
    ensures
        distinct_names(c.entries()),
        Claims::in_list(c.entries()) == Some(c),
{
    lemma_claim_names();
    let list = c.entries();
    reveal_with_fuel(entry, 4);
    assert(list.drop_first().drop_first().len() == list.len() - 2);
    match c.scopes {
        Some(mask) => {
            assert(list.len() == 3);
            assert(list.drop_first()[0] == list[1]);
            assert(list.drop_first().drop_first()[0] == list[2]);
            assert(entry(list, "exp"@) == Some(c.exp));
            assert(entry(list, "uid"@) == Some(c.uid as u64));
            assert(entry(list, "scopes"@) == Some(mask as u64));
        },
        None => {
            assert(list.len() == 2);
            assert(list.drop_first()[0] == list[1]);
            assert(entry(list, "exp"@) == Some(c.exp));
            assert(entry(list, "uid"@) == Some(c.uid as u64));
            assert(entry(list, "scopes"@) == None::<u64>);
        },
    }
}

/// A token that is well formed and correctly signed, judged after the second
/// it expires at, is expired: never invalid, never short of a scope.
pub proof fn lemma_expired_after_expiry(c: Claims, required: Option<u16>, now: u64)
    requires
        now > c.exp,
    ensures
        verdict(Some(c), required, now) == Err::<Claims, Error>(Error::ExpiredToken),
{
}

/// A token that shows tampering, once a character of its signature is
/// changed, is invalid: whenever it is judged and whatever is required.
pub proof fn lemma_tampered_token_invalid(
    token: Seq<char>,
    secret: Seq<u8>,
    index: int,
    c: char,
    required: Option<u16>,
    now: u64,
)
    requires
        tamper_evident(token, secret),
        in_signature(token, index),
        c != token[index],
    ensures
        verdict(token_claims(token.update(index, c), secret), required, now) == Err::<
            Claims,
            Error,
        >(Error::InvalidToken),
{
}

/// Claims judged no later than their expiry, against the very mask they were
/// granted or against none, are accepted unchanged.
pub proof fn lemma_own_mask_accepted(c: Claims, now: u64)
    requires
        now <= c.exp,
    ensures
        verdict(Some(c), c.scopes, now) == Ok::<Claims, Error>(c),
        verdict(Some(c), None, now) == Ok::<Claims, Error>(c),
{
    let m = c.granted();
    assert(m & m == m) by (bit_vector);
}

/// The first value listed under `name`.
pub fn find_claim(list: &Vec<(String, u64)>, name: &str) -> (found: Option<u64>)
    ensures
        found == entry(list.deep_view(), name@),
{
    let wanted = name.to_owned();
    let mut i: usize = 0;
    proof {
        assert(list.deep_view().skip(0) =~= list.deep_view());
    }
    while i < list.len()
        invariant
            i <= list.len(),
            wanted@ == name@,
            entry(list.deep_view(), name@) == entry(list.deep_view().skip(i as int), name@),
        decreases list.len() - i,
    {
        proof {
            let rest = list.deep_view().skip(i as int);
            assert(rest[0] == list.deep_view()[i as int]);
            assert(list.deep_view()[i as int] == (list@[i as int].0@, list@[i as int].1));
            assert(rest.drop_first() =~= list.deep_view().skip(i + 1));
        }
        if list[i].0 == wanted {
            return Some(list[i].1);
        }
        i += 1;
    }
    None
}

impl Claims {
    /// Claims for user `uid` that expire thirty minutes from now, unscoped.
    ///
    /// The clock decides the expiry: it lies thirty minutes after whatever
    /// second the clock reads.
    pub fn new(uid: u32) -> (claims: Claims)
        ensures
            claims.uid == uid,
            claims.scopes is None,
            exists|now: u64| now <= i64::MAX && claims.exp == #[trigger] expiry(now, SESSION_TTL),
    {
        let at = now();
        let exp = expires_at(at, SESSION_TTL);
        proof {
            assert(at <= i64::MAX && exp == expiry(at, SESSION_TTL));
        }
        Claims { exp, uid, scopes: None }
    }

    /// Reads claims from a list of named numbers.
    pub fn from_entries(list: &Vec<(String, u64)>) -> (claims: Option<Claims>)
        ensures
            claims == Claims::in_list(list.deep_view()),
    {
        let exp = find_claim(list, "exp");
        let uid = find_claim(list, "uid");
        let mask = find_claim(list, "scopes");
        match (exp, uid) {
            (Some(exp), Some(uid)) => {
                if uid > u32::MAX as u64 {
                    return None;
                }
                match mask {
                    Some(mask) => {
                        if mask > u16::MAX as u64 {
                            None
                        } else {
                            Some(Claims { exp, uid: uid as u32, scopes: Some(mask as u16) })
                        }
                    },
                    None => Some(Claims { exp, uid: uid as u32, scopes: None }),
                }
            },
            _ => None,
        }
    }

    /// The claims as the named numbers that are signed.
    pub fn to_entries(&self) -> (list: Vec<(String, u64)>)
        ensures
            list.deep_view() == self.entries(),
    {
        let mut list: Vec<(String, u64)> = Vec::new();
        list.push(("exp".to_owned(), self.exp));
        list.push(("uid".to_owned(), self.uid as u64));
        if let Some(mask) = self.scopes {
            list.push(("scopes".to_owned(), mask as u64));
        }
        proof {
            assert(list.deep_view() =~= self.entries());
        }
        list
    }
}

/// Judges the claims read from a presented token: `None` stands for a token
/// whose structure or signature was refused.
///
/// The order is fixed. An unreadable token is invalid whatever else holds; a
/// readable one is expired once `now` is past its expiry; and only a token
/// that is still good is held against the required mask.
pub fn judge(claims: Option<Claims>, required: Option<u16>, now: u64) -> (outcome: Result<
    Claims,
    Error,
>)
    ensures
        outcome == verdict(claims, required, now),
{
    match claims {
        None => Err(Error::InvalidToken),
        Some(c) => {
            if now > c.exp {
                return Err(Error::ExpiredToken);
            }
            if let Some(mask) = required {
                let granted = match c.scopes {
                    Some(m) => m,
                    None => 0,
                };
                if !satisfies(granted, mask) {
                    return Err(Error::MissingScope);
                }
            }
            Ok(c)
        },
    }
}

/// Signs a token for user `uid` that expires `ttl` seconds after `now` and
/// carries `scope_mask` if one is given. It succeeds whenever the expiry
/// fits.
///
/// The token it returns is accepted by [`verify`] under the same keys, with
/// the same user and mask, at every second up to its expiry.
pub fn mint(keys: &Keys, uid: u32, scope_mask: Option<u16>, now: u64, ttl: u64) -> (token: Result<
    String,
    Error,
>)
    ensures
        yields(token, minted(keys@, uid, scope_mask, now, ttl)),
        now + ttl <= u64::MAX ==> token is Ok,
        token matches Ok(t) ==> carries(
            t@,
            keys@,
            Claims { exp: (now + ttl) as u64, uid, scopes: scope_mask },
        ),
        token matches Ok(t) ==> forall|at: u64|
            at <= now + ttl ==> #[trigger] verdict(token_claims(t@, keys@), scope_mask, at) == Ok::<
                Claims,
                Error,
            >(Claims { exp: (now + ttl) as u64, uid, scopes: scope_mask }),
        token matches Ok(t) ==> tamper_evident(t@, keys@),
{
    let exp = match now.checked_add(ttl) {
        Some(exp) => exp,
        None => {
            return Err(Error::InternalServerError);
        },
    };
    let claims = Claims { exp, uid, scopes: scope_mask };
    let list = claims.to_entries();
    proof {
        lemma_entries_read_back(claims);
        lemma_claims_in_map(claims.entries());
    }
    match sign_claims(&list, keys.secret.as_slice()) {
        Some(t) => {
            proof {
                assert forall|at: u64| at <= now + ttl implies #[trigger] verdict(
                    token_claims(t@, keys@),
                    scope_mask,
                    at,
                ) == Ok::<Claims, Error>(claims) by {
                    lemma_own_mask_accepted(claims, at);
                }
            }
            Ok(t)
        },
        None => Err(Error::InternalServerError),
    }
}

/// Judges a presented token at second `now`: the signature and structure
/// first, then the expiry, then the required mask if there is one.
pub fn verify(keys: &Keys, token: &str, required: Option<u16>, now: u64) -> (outcome: Result<
    Claims,
    Error,
>)
    ensures
        outcome == verdict(token_claims(token@, keys@), required, now),
        outcome != Err::<Claims, Error>(Error::InvalidToken) ==> tamper_evident(token@, keys@),
{
    let claims = match read_claims(token, keys.secret.as_slice()) {
        Some(list) => {
            proof {
                lemma_claims_in_map(list.deep_view());
            }
            Claims::from_entries(&list)
        },
        None => None,
    };
    judge(claims, required, now)
}

/// The claims of an access token with its scopes listed by name rather than
/// packed into a mask.
#[derive(Clone, Debug, PartialEq, Eq)]
pub struct OAuthClaims {
    pub exp: u64,
    pub uid: u32,
    pub scopes: Vec<Scope>,
}

/// The scopes whose bits are set in a mask, in the order of their bits.
pub open spec fn listed(mask: u16) -> Seq<Scope> {
    (if mask & Scope::ProfileRead.bit() != 0 {
        seq![Scope::ProfileRead]
    } else {
        Seq::empty()
    }) + (if mask & Scope::ProfileWrite.bit() != 0 {
        seq![Scope::ProfileWrite]
    } else {
        Seq::empty()
    })
}

/// Listing a mask and encoding the list gives the mask back, without the
/// bits that belong to no scope.
pub proof fn lemma_listed_encodes(mask: u16)
    ensures
        encode(listed(mask).to_set()) == mask & ALL_SCOPES,
{
    lemma_bits();
    let scopes = listed(mask);
    assert(scopes.to_set().contains(Scope::ProfileRead) == (mask & 1 != 0)) by {
        if mask & 1 != 0 {
            assert(scopes[0] == Scope::ProfileRead);
        }
    }
    assert(scopes.to_set().contains(Scope::ProfileWrite) == (mask & 2 != 0)) by {
        if mask & 2 != 0 {
            assert(scopes[scopes.len() - 1] == Scope::ProfileWrite);
        }
    }
    assert((if mask & 1 != 0 {
        1u16
    } else {
        0u16
    }) | (if mask & 2 != 0 {
        2u16
    } else {
        0u16
    }) == mask & 3) by (bit_vector);
}

/// The scopes whose bits are set in a mask, in the order of their bits.
pub fn scopes_of(mask: u16) -> (scopes: Vec<Scope>)
    ensures
        scopes@ == listed(mask),
{
    let mut scopes: Vec<Scope> = Vec::new();
    if mask & Scope::ProfileRead.mask() != 0 {
        scopes.push(Scope::ProfileRead);
    }
    if mask & Scope::ProfileWrite.mask() != 0 {
        scopes.push(Scope::ProfileWrite);
    }
    proof {
        assert(scopes@ =~= listed(mask));
    }
    scopes
}

impl OAuthClaims {
    /// The same claims with the scopes packed into a mask.
    pub fn claims(&self) -> (claims: Claims)
        ensures
            claims == (Claims {
                exp: self.exp,
                uid: self.uid,
                scopes: Some(encode(self.scopes@.to_set())),
            }),
    {
        Claims { exp: self.exp, uid: self.uid, scopes: Some(scopes(self.scopes.as_slice())) }
    }

    /// The claims of a judged token with its granted scopes listed. A token
    /// without a mask lists none.
    pub fn from_claims(claims: &Claims) -> (listing: OAuthClaims)
        ensures
            listing.exp == claims.exp,
            listing.uid == claims.uid,
            listing.scopes@ == listed(claims.granted()),
    {
        let granted = match claims.scopes {
            Some(mask) => mask,
            None => 0,
        };
        OAuthClaims { exp: claims.exp, uid: claims.uid, scopes: scopes_of(granted) }
    }
}

/// Whether `token` is what minting at second `now` comes to: the named token
/// of the claims, which reads back as them, or the error.
pub open spec fn mints(
    token: Result<String, Error>,
    secret: Seq<u8>,
    uid: u32,
    scopes: Option<u16>,
    now: u64,
    ttl: u64,
) -> bool {
    &&& yields(token, minted(secret, uid, scopes, now, ttl))
    &&& now + ttl <= u64::MAX ==> token is Ok
    &&& token matches Ok(t) ==> carries(
        t@,
        secret,
        Claims { exp: (now + ttl) as u64, uid, scopes },
    ) && tamper_evident(t@, secret)
}

/// Signs a session token for user `uid`: unscoped, good for thirty minutes
/// from now.
///
/// The clock decides the expiry; whatever it reads, the token is the one
/// that [`mint`] makes at that second.
pub fn generate_token(keys: &Keys, uid: u32) -> (token: Result<String, Error>)
    ensures
        exists|now: u64|
            now <= i64::MAX && #[trigger] mints(token, keys@, uid, None, now, SESSION_TTL),
        token is Ok,
{
    let at = now();
    let token = mint(keys, uid, None, at, SESSION_TTL);
    proof {
        assert(at <= i64::MAX && mints(token, keys@, uid, None, at, SESSION_TTL));
    }
    token
}

/// Signs an access token for user `uid` that is granted the scopes in `s`,
/// good for thirty minutes from now.
///
/// The clock decides the expiry; whatever it reads, the token is the one
/// that [`mint`] makes at that second.
pub fn generate_oauth_token(keys: &Keys, uid: u32, s: Vec<Scope>) -> (token: Result<String, Error>)
    ensures
        exists|now: u64|
            now <= i64::MAX && #[trigger] mints(
                token,
                keys@,
                uid,
                Some(encode(s@.to_set())),
                now,
                SESSION_TTL,
            ),
        token is Ok,
{
    let at = now();
    let mask = scopes(s.as_slice());
    let token = mint(keys, uid, Some(mask), at, SESSION_TTL);
    proof {
        assert(at <= i64::MAX && mints(
            token,
            keys@,
            uid,
            Some(encode(s@.to_set())),
            at,
            SESSION_TTL,
        ));
    }
    token
}

/// Judges a presented token as of now: what a route does with the bearer
/// token of a request, asking for `required` if the route is scoped.
///
/// The clock decides the second; whatever it reads, the outcome is that of
/// [`verify`] at that second.
pub fn authenticate(keys: &Keys, token: &str, required: Option<u16>) -> (outcome: Result<
    Claims,
    Error,
>)
    ensures
        exists|now: u64|
            now <= i64::MAX && outcome == #[trigger] verdict(
                token_claims(token@, keys@),
                required,
                now,
            ),
{
    let at = now();
    let outcome = verify(keys, token, required, at);
    proof {
        assert(at <= i64::MAX && outcome == verdict(token_claims(token@, keys@), required, at));
    }
    outcome
}

} // verus!
