//! Logging in with a password, and trading a refresh token for a new session.

use crate::data::credential::{carries, mint, minted, Claims, Keys, SESSION_TTL};
use crate::data::error::{yields, Error};
use crate::entity::user::Model;
use crate::utils::captcha::Captcha;
use crate::utils::clock::{expiry, now};
use crate::utils::encryption::{salt_password, salted};
use crate::utils::random::{generate_refresh_token, is_opaque};
use crate::utils::store::{
    apply_all, refresh_key, refresh_key_of, refresh_record, store_refresh_token, value_at,
    Stored, StoreCommand, Write, REFRESH_TTL,
};
use crate::utils::text::{denoted, lemma_numeral_denotes, numeral, parse_u32};
use vstd::prelude::*;

verus! {

/// A session: the bearer token and the refresh token that renews it once.
#[derive(Debug, Clone, PartialEq, Eq)]
pub struct Token {
    pub token: String,
    pub refresh_token: String,
}

/// A session, as mathematics.
pub struct TokenView {
    pub token: Seq<char>,
    pub refresh_token: Seq<char>,
}

impl DeepView for Token {
    type V = TokenView;

    open spec fn deep_view(&self) -> TokenView {
        TokenView { token: self.token@, refresh_token: self.refresh_token@ }
    }
}

/// What a login request carries.
#[derive(Debug, Clone)]
pub struct LoginBody {
    pub email: String,
    pub hashed_password: String,
    pub captcha: Captcha,
}

/// What a login comes to.
///
/// The captcha's verdict is looked at first and its error is passed on. Then
/// the user must exist and the salted hash of the presented password must
/// equal the stored one: both failures read the same, so that nobody learns
/// which e-mail addresses are registered. A login that passes gets a session
/// token that lives `SESSION_TTL` seconds from `now`, and the refresh token
/// `fresh`, filed for the user.
pub open spec fn login_outcome(
    secret: Seq<u8>,
    captcha: Result<(), Error>,
    user: Option<Model>,
    hashed_password: Seq<char>,
    fresh: Seq<char>,
    now: u64,
) -> Result<(TokenView, Seq<Write>), Error> {
    match captcha {
        Err(error) => Err(error),
        Ok(_) => match user {
            None => Err(Error::IncorrectEmailOrPassword),
            Some(user) => if user.salted_password@ != salted(hashed_password, user.salt@) {
                Err(Error::IncorrectEmailOrPassword)
            } else {
                match minted(secret, user.id, None, now, SESSION_TTL) {
                    Err(error) => Err(error),
                    Ok(token) => Ok(
                        (
                            TokenView { token, refresh_token: fresh },
                            seq![refresh_record(fresh, user.id)],
                        ),
                    ),
                }
            },
        },
    }
}

/// What redeeming a refresh token comes to, given the value `found` under its
/// key.
///
/// A token that is not on file is unauthorized. One that is gets a new
/// session token and the refresh token `fresh`; the record of the presented
/// token is deleted and `fresh` is filed for the same user.
pub open spec fn refresh_outcome(
    secret: Seq<u8>,
    presented: Seq<char>,
    found: Option<Seq<char>>,
    fresh: Seq<char>,
    now: u64,
) -> Result<(TokenView, Seq<Write>), Error> {
    match found {
        None => Err(Error::Unauthorized),
        Some(value) => match denoted(value) {
            None => Err(Error::InternalServerError),
            Some(id) => match minted(secret, id, None, now, SESSION_TTL) {
                Err(error) => Err(error),
                Ok(token) => Ok(
                    (
                        TokenView { token, refresh_token: fresh },
                        seq![
                            Write::Delete { key: refresh_key_of(presented) },
                            refresh_record(fresh, id),
                        ],
                    ),
                ),
            },
        },
    }
}

/// Whether a login passes every question asked of it: the captcha was
/// accepted, the user exists, and the salted hash of the presented password
/// equals the stored one.
pub open spec fn login_passes(
    captcha: Result<(), Error>,
    user: Option<Model>,
    hashed_password: Seq<char>,
) -> bool {
    &&& captcha is Ok
    &&& user is Some
    &&& user->0.salted_password@ == salted(hashed_password, user->0.salt@)
}

/// Whether the value on file under a refresh token names a user.
pub open spec fn refresh_passes(found: Option<Seq<char>>) -> bool {
    found is Some && denoted(found->0) is Some
}

/// Whether `outcome` is what a login comes to: the outcome stated by
/// [`login_outcome`], which is a success whenever the login passes and the
/// expiry fits, with a session token that speaks for the user until thirty
/// minutes after `now`.
pub open spec fn login_decided(
    outcome: Result<(Token, Vec<StoreCommand>), Error>,
    secret: Seq<u8>,
    captcha: Result<(), Error>,
    user: Option<Model>,
    hashed_password: Seq<char>,
    fresh: Seq<char>,
    now: u64,
) -> bool {
    &&& yields(outcome, login_outcome(secret, captcha, user, hashed_password, fresh, now))
    &&& login_passes(captcha, user, hashed_password) && now + SESSION_TTL <= u64::MAX
        ==> outcome is Ok
    &&& outcome matches Ok(granted) ==> carries(
        granted.0.token@,
        secret,
        Claims { exp: (now + SESSION_TTL) as u64, uid: user->0.id, scopes: None },
    )
}

/// Whether `outcome` is what redeeming a refresh token comes to: the outcome
/// stated by [`refresh_outcome`], with a session token that speaks for the
/// user on file until thirty minutes after `now`.
pub open spec fn refresh_decided(
    outcome: Result<(Token, Vec<StoreCommand>), Error>,
    secret: Seq<u8>,
    presented: Seq<char>,
    found: Option<Seq<char>>,
    fresh: Seq<char>,
    now: u64,
) -> bool {
    &&& yields(outcome, refresh_outcome(secret, presented, found, fresh, now))
    &&& refresh_passes(found) && now + SESSION_TTL <= u64::MAX ==> outcome is Ok
    &&& outcome matches Ok(granted) ==> carries(
        granted.0.token@,
        secret,
        Claims { exp: (now + SESSION_TTL) as u64, uid: denoted(found->0)->0, scopes: None },
    )
}

/// Decides a login with the refresh token and the time given.
pub fn login_with(
    keys: &Keys,
    captcha: Result<(), Error>,
    user: &Option<Model>,
    data: &LoginBody,
    fresh: String,
    now: u64,
) -> (outcome: Result<(Token, Vec<StoreCommand>), Error>)
    ensures
        login_decided(outcome, keys@, captcha, *user, data.hashed_password@, fresh@, now),
{
    if let Err(error) = captcha {
        return Err(error);
    }
    match user {
        None => Err(Error::IncorrectEmailOrPassword),
        Some(user) => {
            let hash = salt_password(data.hashed_password.as_str(), user.salt.as_str());
            if user.salted_password != hash {
                return Err(Error::IncorrectEmailOrPassword);
            }
            let mut commands: Vec<StoreCommand> = Vec::new();
            commands.push(store_refresh_token(fresh.as_str(), user.id));
            match mint(keys, user.id, None, now, SESSION_TTL) {
                Err(error) => Err(error),
                Ok(token) => {
                    proof {
                        assert(commands.deep_view() =~= seq![refresh_record(fresh@, user.id)]);
                    }
                    Ok((Token { token, refresh_token: fresh }, commands))
                },
            }
        },
    }
}

/// Decides a login: `captcha` is the verifier's verdict on the captcha of the
/// request and `user` the row found under the e-mail address of the request.
///
/// The refresh token is drawn at random and the session token is timed by the
/// clock; whatever they are, the outcome is that of [`login_with`], and a
/// login that passes is granted.
pub fn login(keys: &Keys, captcha: Result<(), Error>, user: &Option<Model>, data: &LoginBody) -> (outcome:
    Result<(Token, Vec<StoreCommand>), Error>)
    ensures
        exists|fresh: Seq<char>, now: u64|
            now <= i64::MAX && is_opaque(fresh) && #[trigger] login_decided(
                outcome,
                keys@,
                captcha,
                *user,
                data.hashed_password@,
                fresh,
                now,
            ),
        login_passes(captcha, *user, data.hashed_password@) ==> outcome is Ok,
{
    let fresh = generate_refresh_token();
    let at = now();
    let ghost token = fresh@;
    let outcome = login_with(keys, captcha, user, data, fresh, at);
    proof {
        assert(at <= i64::MAX && is_opaque(token) && login_decided(
            outcome,
            keys@,
            captcha,
            *user,
            data.hashed_password@,
            token,
            at,
        ));
    }
    outcome
}

/// Decides the redemption of the refresh token `presented`, with the new
/// refresh token and the time given. `found` is the value on file under
/// [`refresh_key`] of the presented token.
pub fn refresh_token_with(
    keys: &Keys,
    presented: &str,
    found: &Option<String>,
    fresh: String,
    now: u64,
) -> (outcome: Result<(Token, Vec<StoreCommand>), Error>)
    ensures
        refresh_decided(outcome, keys@, presented@, found.deep_view(), fresh@, now),
{
    match found {
        None => Err(Error::Unauthorized),
        Some(value) => match parse_u32(value.as_str()) {
            None => Err(Error::InternalServerError),
            Some(id) => {
                let mut commands: Vec<StoreCommand> = Vec::new();
                commands.push(StoreCommand::Delete { key: refresh_key(presented) });
                commands.push(store_refresh_token(fresh.as_str(), id));
                match mint(keys, id, None, now, SESSION_TTL) {
                    Err(error) => Err(error),
                    Ok(token) => {
                        proof {
                            assert(commands.deep_view() =~= seq![
                                Write::Delete { key: refresh_key_of(presented@) },
                                refresh_record(fresh@, id),
                            ]);
                        }
                        Ok((Token { token, refresh_token: fresh }, commands))
                    },
                }
            },
        },
    }
}

/// Decides the redemption of the refresh token `presented`; `found` is the
/// value on file under [`refresh_key`] of it.
///
/// The new refresh token is drawn at random and the session token is timed by
/// the clock; whatever they are, the outcome is that of
/// [`refresh_token_with`], and a token that names a user is renewed.
pub fn refresh_token(keys: &Keys, presented: &str, found: &Option<String>) -> (outcome: Result<
    (Token, Vec<StoreCommand>),
    Error,
>)
    ensures
        exists|fresh: Seq<char>, now: u64|
            now <= i64::MAX && is_opaque(fresh) && #[trigger] refresh_decided(
                outcome,
                keys@,
                presented@,
                found.deep_view(),
                fresh,
                now,
            ),
        refresh_passes(found.deep_view()) ==> outcome is Ok,
{
    let fresh = generate_refresh_token();
    let at = now();
    let ghost token = fresh@;
    let outcome = refresh_token_with(keys, presented, found, fresh, at);
    proof {
        assert(at <= i64::MAX && is_opaque(token) && refresh_decided(
            outcome,
            keys@,
            presented@,
            found.deep_view(),
            token,
            at,
        ));
    }
    outcome
}

/// Two keys of refresh records are the same only for the same token.
pub proof fn lemma_refresh_keys_differ(a: Seq<char>, b: Seq<char>)
    requires
        a != b,
    ensures
        refresh_key_of(a) != refresh_key_of(b),
{
    let prefix = "refresh:"@;
    assert(refresh_key_of(a).skip(prefix.len() as int) =~= a);
    assert(refresh_key_of(b).skip(prefix.len() as int) =~= b);
}

/// A refresh token is good for one redemption. Once the writes of a
/// successful redemption are carried out, nothing is on file under the
/// presented token any more, and presenting it again is unauthorized,
/// whenever that happens and whatever new token is offered.
///
/// This holds where the new refresh token differs from the presented one, as
/// two random strings do.
pub proof fn lemma_refresh_token_single_use(
    records: Map<Seq<char>, Stored>,
    secret: Seq<u8>,
    presented: Seq<char>,
    fresh: Seq<char>,
    now: u64,
    session: TokenView,
    writes: Seq<Write>,
    later: u64,
    other: Seq<char>,
)
    requires
        fresh != presented,
        refresh_outcome(
            secret,
            presented,
            value_at(records, refresh_key_of(presented), now),
            fresh,
            now,
        ) == Ok::<(TokenView, Seq<Write>), Error>((session, writes)),
    ensures
        value_at(apply_all(records, writes, now), refresh_key_of(presented), later) is None,
        refresh_outcome(
            secret,
            presented,
            value_at(apply_all(records, writes, now), refresh_key_of(presented), later),
            other,
            later,
        ) == Err::<(TokenView, Seq<Write>), Error>(Error::Unauthorized),
{
    lemma_refresh_keys_differ(fresh, presented);
    reveal_with_fuel(apply_all, 3);
    assert(writes.len() == 2);
    assert(writes.drop_first().len() == 1);
    assert(writes.drop_first().drop_first().len() == 0);
    assert(writes.drop_first()[0] == writes[1]);
}

/// The refresh token of a login can be redeemed for as long as it is on
/// file: once the writes of a successful login are carried out, presenting
/// the refresh token before its ninety days are over is never unauthorized,
/// and renews the session of the very user who logged in.
pub proof fn lemma_login_token_redeemable(
    records: Map<Seq<char>, Stored>,
    secret: Seq<u8>,
    user: Model,
    hashed_password: Seq<char>,
    fresh: Seq<char>,
    now: u64,
    session: TokenView,
    writes: Seq<Write>,
    later: u64,
    next: Seq<char>,
)
    requires
        login_outcome(secret, Ok(()), Some(user), hashed_password, fresh, now) == Ok::<
            (TokenView, Seq<Write>),
            Error,
        >((session, writes)),
        later < expiry(now, REFRESH_TTL),
    ensures
        session.refresh_token == fresh,
        value_at(apply_all(records, writes, now), refresh_key_of(fresh), later) == Some(
            numeral(user.id as nat),
        ),
        refresh_outcome(
            secret,
            fresh,
            value_at(apply_all(records, writes, now), refresh_key_of(fresh), later),
            next,
            later,
        ) == (match minted(secret, user.id, None, later, SESSION_TTL) {
            Err(error) => Err::<(TokenView, Seq<Write>), Error>(error),
            Ok(token) => Ok(
                (
                    TokenView { token, refresh_token: next },
                    seq![
                        Write::Delete { key: refresh_key_of(fresh) },
                        refresh_record(next, user.id),
                    ],
                ),
            ),
        }),
{
    reveal_with_fuel(apply_all, 2);
    assert(writes.len() == 1);
    assert(writes.drop_first().len() == 0);
    lemma_numeral_denotes(user.id);
}

} // verus!
