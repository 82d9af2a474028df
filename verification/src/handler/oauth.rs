//! The authorization-code grant: a signed-in user hands a client a code, and
//! the client trades the code and its secret for a scoped access token.

use crate::data::credential::{carries, mint, minted, Claims, Keys, SESSION_TTL};
use crate::data::error::{yields, Error};
use crate::data::scope::{encode, parse_scopes, requested, scopes};
use crate::entity::oauth_client::Model;
use crate::utils::clock::{expiry, now};
use crate::utils::random::{generate_refresh_token, is_opaque};
use crate::utils::store::{
    apply, apply_all, field, field_at, oauth_key, oauth_key_of, Stored, StoreCommand, Write,
    OAUTH_CODE_TTL,
};
use crate::utils::text::{decimal, denoted, join, lemma_numeral_denotes, numeral, parse_u32};
use vstd::prelude::*;

verus! {

/// What an authorization request carries.
#[derive(Debug, Clone)]
pub struct OAuthParams {
    /// The scopes asked for: names with single spaces between them.
    pub scopes: String,
    pub redirect_uri: String,
    pub client_id: u32,
    pub state: String,
    /// The kind of grant asked for, as the request spells it.
    pub response_type: String,
}

/// The kinds of grant that are served.
#[derive(Debug, Clone, Copy, PartialEq, Eq, Structural)]
pub enum ResponseType {
    /// The authorization-code grant, spelled `code`.
    Code,
}

/// What a token exchange carries.
#[derive(Debug, Clone)]
pub struct ExchangeTokenParams {
    pub code: String,
    pub client_secret: String,
}

/// The kind of grant that a spelling stands for.
pub open spec fn response_type_of(name: Seq<char>) -> Option<ResponseType> {
    if name == "code"@ {
        Some(ResponseType::Code)
    } else {
        None
    }
}

impl ResponseType {
    /// The kind of grant that a spelling stands for.
    pub fn from_name(name: &String) -> (kind: Option<ResponseType>)
        ensures
            kind == response_type_of(name@),
    {
        if *name == "code".to_owned() {
            Some(ResponseType::Code)
        } else {
            None
        }
    }
}

/// The record behind an authorization code.
pub open spec fn code_record(code: Seq<char>, client_id: u32, scopes: Seq<char>, uid: u32) -> Write {
    Write::PutFields {
        key: oauth_key_of(code),
        fields: seq![
            ("client_id"@, numeral(client_id as nat)),
            ("scopes"@, scopes),
            ("uid"@, numeral(uid as nat)),
        ],
        ttl: OAUTH_CODE_TTL,
    }
}

/// Where the user is sent with the code: the redirect address with `state`
/// and `code` appended as a query, literally.
pub open spec fn redirect_of(redirect_uri: Seq<char>, state: Seq<char>, code: Seq<char>) -> Seq<
    char,
> {
    redirect_uri + "?state="@ + state + "&code="@ + code
}

/// What an authorization request of user `uid` comes to.
///
/// A grant other than the authorization code is a bad request, and nothing is
/// written. Otherwise the client, the scopes asked for and the user are filed
/// under `code` for five minutes, and the user is sent back with it.
pub open spec fn oauth_outcome(
    uid: u32,
    scopes: Seq<char>,
    redirect_uri: Seq<char>,
    client_id: u32,
    state: Seq<char>,
    response_type: Seq<char>,
    code: Seq<char>,
) -> Result<(Seq<char>, Seq<Write>), Error> {
    if response_type_of(response_type) != Some(ResponseType::Code) {
        Err(Error::BadRequest)
    } else {
        Ok((redirect_of(redirect_uri, state, code), seq![code_record(code, client_id, scopes, uid)]))
    }
}

/// The client that a code record names, given its three fields: not found
/// where a field is missing, an internal error where the client's number
/// cannot be read.
pub open spec fn named_client(
    client_id: Option<Seq<char>>,
    scopes: Option<Seq<char>>,
    uid: Option<Seq<char>>,
) -> Result<u32, Error> {
    if client_id is None || scopes is None || uid is None {
        Err(Error::NotFound)
    } else {
        match denoted(client_id->0) {
            Some(id) => Ok(id),
            None => Err(Error::InternalServerError),
        }
    }
}

/// What a token exchange comes to, given the three fields found under the
/// code's key and the client found under the number they name.
///
/// In this order: a record with a field missing is not found; a client number
/// that cannot be read is an internal error; a client that does not exist is
/// a bad request; a wrong secret is unauthorized, and the record stays; a
/// user number that cannot be read is an internal error. What passes gets an
/// access token for the user, granted the recognized ones among the scopes
/// asked for, and the record is deleted.
pub open spec fn exchange_outcome(
    secret: Seq<u8>,
    code: Seq<char>,
    client_secret: Seq<char>,
    client_id: Option<Seq<char>>,
    scopes: Option<Seq<char>>,
    uid: Option<Seq<char>>,
    client: Option<Model>,
    now: u64,
) -> Result<(Seq<char>, Seq<Write>), Error> {
    match named_client(client_id, scopes, uid) {
        Err(error) => Err(error),
        Ok(_) => match client {
            None => Err(Error::BadRequest),
            Some(client) => if client.client_secret@ != client_secret {
                Err(Error::Unauthorized)
            } else {
                match denoted(uid->0) {
                    None => Err(Error::InternalServerError),
                    Some(user) => match minted(
                        secret,
                        user,
                        Some(encode(requested(scopes->0).to_set())),
                        now,
                        SESSION_TTL,
                    ) {
                        Err(error) => Err(error),
                        Ok(token) => Ok((token, seq![Write::Delete { key: oauth_key_of(code) }])),
                    },
                }
            },
        },
    }
}

/// Whether an exchange passes every question asked of it: the record is
/// whole and names a client and a user, the client exists, and the secret
/// presented is the client's.
pub open spec fn exchange_passes(
    client_secret: Seq<char>,
    client_id: Option<Seq<char>>,
    scopes: Option<Seq<char>>,
    uid: Option<Seq<char>>,
    client: Option<Model>,
) -> bool {
    &&& named_client(client_id, scopes, uid) is Ok
    &&& client is Some
    &&& client->0.client_secret@ == client_secret
    &&& denoted(uid->0) is Some
}

/// Whether `outcome` is what a token exchange comes to: the outcome stated
/// by [`exchange_outcome`], which is a success whenever the exchange passes
/// and the expiry fits, with an access token that speaks for the user of the
/// record until thirty minutes after `now`, granted the recognized ones among
/// the scopes asked for.
pub open spec fn exchange_decided(
    outcome: Result<(String, Vec<StoreCommand>), Error>,
    secret: Seq<u8>,
    code: Seq<char>,
    client_secret: Seq<char>,
    client_id: Option<Seq<char>>,
    scopes: Option<Seq<char>>,
    uid: Option<Seq<char>>,
    client: Option<Model>,
    now: u64,
) -> bool {
    &&& yields(
        outcome,
        exchange_outcome(secret, code, client_secret, client_id, scopes, uid, client, now),
    )
    &&& exchange_passes(client_secret, client_id, scopes, uid, client) && now + SESSION_TTL
        <= u64::MAX ==> outcome is Ok
    &&& outcome matches Ok(granted) ==> carries(
        granted.0@,
        secret,
        Claims {
            exp: (now + SESSION_TTL) as u64,
            uid: denoted(uid->0)->0,
            scopes: Some(encode(requested(scopes->0).to_set())),
        },
    )
}

/// Decides an authorization request with the code given. `claims` are those
/// of the session token that the request came with.
pub fn oauth_with(claims: &Claims, params: &OAuthParams, code: &str) -> (outcome: Result<
    (String, Vec<StoreCommand>),
    Error,
>)
    ensures
        yields(
            outcome,
            oauth_outcome(
                claims.uid,
                params.scopes@,
                params.redirect_uri@,
                params.client_id,
                params.state@,
                params.response_type@,
                code@,
            ),
        ),
{
    match ResponseType::from_name(&params.response_type) {
        Some(ResponseType::Code) => {},
        None => {
            return Err(Error::BadRequest);
        },
    }
    let mut fields: Vec<(String, String)> = Vec::new();
    fields.push(("client_id".to_owned(), decimal(params.client_id)));
    fields.push(("scopes".to_owned(), params.scopes.clone()));
    fields.push(("uid".to_owned(), decimal(claims.uid)));
    let mut commands: Vec<StoreCommand> = Vec::new();
    commands.push(StoreCommand::PutFields { key: oauth_key(code), fields, ttl: OAUTH_CODE_TTL });
    let mut target = join(params.redirect_uri.as_str(), "?state=");
    target.append(params.state.as_str());
    target.append("&code=");
    target.append(code);
    proof {
        assert(fields.deep_view() =~= seq![
            ("client_id"@, numeral(params.client_id as nat)),
            ("scopes"@, params.scopes@),
            ("uid"@, numeral(claims.uid as nat)),
        ]);
        assert(commands.deep_view() =~= seq![
            code_record(code@, params.client_id, params.scopes@, claims.uid),
        ]);
    }
    Ok((target, commands))
}

/// Decides an authorization request; `claims` are those of the session token
/// that the request came with.
///
/// The code is drawn at random; whatever it is, the outcome is that of
/// [`oauth_with`].
pub fn oauth(claims: &Claims, params: &OAuthParams) -> (outcome: Result<
    (String, Vec<StoreCommand>),
    Error,
>)
    ensures
        exists|code: Seq<char>|
            is_opaque(code) && yields(
                outcome,
                #[trigger] oauth_outcome(
                    claims.uid,
                    params.scopes@,
                    params.redirect_uri@,
                    params.client_id,
                    params.state@,
                    params.response_type@,
                    code,
                ),
            ),
{
    let code = generate_refresh_token();
    let outcome = oauth_with(claims, params, code.as_str());
    proof {
        assert(is_opaque(code@) && yields(
            outcome,
            oauth_outcome(
                claims.uid,
                params.scopes@,
                params.redirect_uri@,
                params.client_id,
                params.state@,
                params.response_type@,
                code@,
            ),
        ));
    }
    outcome
}

/// The number of the client to look up for a code, given the three fields
/// found under [`oauth_key`] of the code.
pub fn exchange_client(
    client_id: &Option<String>,
    scopes: &Option<String>,
    uid: &Option<String>,
) -> (client: Result<u32, Error>)
    ensures
        client == named_client(client_id.deep_view(), scopes.deep_view(), uid.deep_view()),
{
    match (client_id, scopes, uid) {
        (Some(client_id), Some(_), Some(_)) => match parse_u32(client_id.as_str()) {
            Some(id) => Ok(id),
            None => Err(Error::InternalServerError),
        },
        _ => Err(Error::NotFound),
    }
}

/// Decides a token exchange at second `now`. The three fields are those found
/// under [`oauth_key`] of the code, and `client` is the row found under the
/// number that [`exchange_client`] gives for them.
pub fn exchange_token_at(
    keys: &Keys,
    params: &ExchangeTokenParams,
    client_id: &Option<String>,
    scopes_asked: &Option<String>,
    uid: &Option<String>,
    client: &Option<Model>,
    now: u64,
) -> (outcome: Result<(String, Vec<StoreCommand>), Error>)
    ensures
        exchange_decided(
            outcome,
            keys@,
            params.code@,
            params.client_secret@,
            client_id.deep_view(),
            scopes_asked.deep_view(),
            uid.deep_view(),
            *client,
            now,
        ),
{
    if let Err(error) = exchange_client(client_id, scopes_asked, uid) {
        return Err(error);
    }
    match (scopes_asked, uid, client) {
        (Some(scopes_asked), Some(uid), Some(client)) => {
            if client.client_secret != params.client_secret {
                return Err(Error::Unauthorized);
            }
            let user = match parse_u32(uid.as_str()) {
                Some(user) => user,
                None => {
                    return Err(Error::InternalServerError);
                },
            };
            let granted = parse_scopes(scopes_asked.as_str());
            let mask = scopes(granted.as_slice());
            match mint(keys, user, Some(mask), now, SESSION_TTL) {
                Err(error) => Err(error),
                Ok(token) => {
                    let mut commands: Vec<StoreCommand> = Vec::new();
                    commands.push(StoreCommand::Delete { key: oauth_key(params.code.as_str()) });
                    proof {
                        assert(commands.deep_view() =~= seq![
                            Write::Delete { key: oauth_key_of(params.code@) },
                        ]);
                    }
                    Ok((token, commands))
                },
            }
        },
        _ => Err(Error::BadRequest),
    }
}

/// Decides a token exchange. The three fields are those found under
/// [`oauth_key`] of the code, and `client` is the row found under the number
/// that [`exchange_client`] gives for them.
///
/// The access token is timed by the clock; whatever it reads, the outcome is
/// that of [`exchange_token_at`], and an exchange that passes is served.
pub fn exchange_token(
    keys: &Keys,
    params: &ExchangeTokenParams,
    client_id: &Option<String>,
    scopes_asked: &Option<String>,
    uid: &Option<String>,
    client: &Option<Model>,
) -> (outcome: Result<(String, Vec<StoreCommand>), Error>)
    ensures
        exists|now: u64|
            now <= i64::MAX && #[trigger] exchange_decided(
                outcome,
                keys@,
                params.code@,
                params.client_secret@,
                client_id.deep_view(),
                scopes_asked.deep_view(),
                uid.deep_view(),
                *client,
                now,
            ),
        exchange_passes(
            params.client_secret@,
            client_id.deep_view(),
            scopes_asked.deep_view(),
            uid.deep_view(),
            *client,
        ) ==> outcome is Ok,
{
    let at = now();
    let outcome = exchange_token_at(keys, params, client_id, scopes_asked, uid, client, at);
    proof {
        assert(at <= i64::MAX && exchange_decided(
            outcome,
            keys@,
            params.code@,
            params.client_secret@,
            client_id.deep_view(),
            scopes_asked.deep_view(),
            uid.deep_view(),
            *client,
            at,
        ));
    }
    outcome
}

/// The three field names of a code record differ from one another.
pub proof fn lemma_code_fields()
    ensures
        "client_id"@ != "scopes"@,
        "client_id"@ != "uid"@,
        "scopes"@ != "uid"@,
{
    reveal_strlit("client_id");
    reveal_strlit("scopes");
    reveal_strlit("uid");
    assert("client_id"@.len() != "scopes"@.len());
    assert("client_id"@.len() != "uid"@.len());
    assert("scopes"@.len() != "uid"@.len());
}

/// An authorization code is on file for five minutes: once its write is
/// carried out, the three fields are read back under the code's key until the
/// record expires, and nothing is read from then on.
pub proof fn lemma_code_on_file(
    records: Map<Seq<char>, Stored>,
    code: Seq<char>,
    client_id: u32,
    scopes: Seq<char>,
    uid: u32,
    now: u64,
    later: u64,
    name: Seq<char>,
)
    ensures
        ({
            let filed = apply(records, code_record(code, client_id, scopes, uid), now);
            let key = oauth_key_of(code);
            if later < expiry(now, OAUTH_CODE_TTL) {
                &&& field_at(filed, key, "client_id"@, later) == Some(numeral(client_id as nat))
                &&& field_at(filed, key, "scopes"@, later) == Some(scopes)
                &&& field_at(filed, key, "uid"@, later) == Some(numeral(uid as nat))
                &&& named_client(
                    field_at(filed, key, "client_id"@, later),
                    field_at(filed, key, "scopes"@, later),
                    field_at(filed, key, "uid"@, later),
                ) == Ok::<u32, Error>(client_id)
            } else {
                field_at(filed, key, name, later) is None
            }
        }),
{
    lemma_code_fields();
    lemma_numeral_denotes(client_id);
    let fields = seq![
        ("client_id"@, numeral(client_id as nat)),
        ("scopes"@, scopes),
        ("uid"@, numeral(uid as nat)),
    ];
    reveal_with_fuel(field, 4);
    assert(fields.drop_last().last() == ("scopes"@, scopes));
    assert(fields.drop_last().drop_last().last() == ("client_id"@, numeral(client_id as nat)));
}

/// A code is exchanged once. Once the writes of a successful exchange are
/// carried out, nothing is on file under the code any more, and presenting it
/// again finds nothing, whatever secret comes with it.
pub proof fn lemma_code_single_use(
    records: Map<Seq<char>, Stored>,
    secret: Seq<u8>,
    code: Seq<char>,
    client_secret: Seq<char>,
    client: Option<Model>,
    now: u64,
    token: Seq<char>,
    writes: Seq<Write>,
    later: u64,
    other_secret: Seq<char>,
    other_client: Option<Model>,
)
    requires
        exchange_outcome(
            secret,
            code,
            client_secret,
            field_at(records, oauth_key_of(code), "client_id"@, now),
            field_at(records, oauth_key_of(code), "scopes"@, now),
            field_at(records, oauth_key_of(code), "uid"@, now),
            client,
            now,
        ) == Ok::<(Seq<char>, Seq<Write>), Error>((token, writes)),
    ensures
        forall|name: Seq<char>| #[trigger]
            field_at(apply_all(records, writes, now), oauth_key_of(code), name, later) is None,
        exchange_outcome(
            secret,
            code,
            other_secret,
            field_at(apply_all(records, writes, now), oauth_key_of(code), "client_id"@, later),
            field_at(apply_all(records, writes, now), oauth_key_of(code), "scopes"@, later),
            field_at(apply_all(records, writes, now), oauth_key_of(code), "uid"@, later),
            other_client,
            later,
        ) == Err::<(Seq<char>, Seq<Write>), Error>(Error::NotFound),
{
    reveal_with_fuel(apply_all, 2);
    assert(writes.len() == 1);
    assert(writes.drop_first().len() == 0);
}

} // verus!
