//! Registering with an e-mail address, and opening the link that was mailed.
//!
//! A registration creates no user. It files the address and the password
//! hash under a fresh token and mails a link that carries the token. The
//! user row is made when the link is opened, once, while the record is still
//! on file.

use crate::data::error::{yields, Error};
use crate::entity::user::{Model, NewUser, NewUserView};
use crate::handler::login::login_passes;
use crate::utils::captcha::Captcha;
use crate::utils::clock::expiry;
use crate::utils::encryption::{salt_password, salted};
use crate::utils::random::{generate_refresh_token, is_opaque};
use crate::utils::store::{
    apply, apply_all, email_verify_key, email_verify_key_of, field, field_at, Stored,
    StoreCommand, Write, EMAIL_VERIFY_TTL,
};
use crate::utils::text::{before, join, prefix_before};
use crate::utils::validation::{
    email_accepted, mailbox_accepted, parses_as_mailbox, validate_email,
};
use vstd::prelude::*;

verus! {

/// What a registration request carries.
#[derive(Debug, Clone)]
pub struct RegisterPayload {
    pub email: String,
    pub hashed_password: String,
    pub captcha: Captcha,
}

/// What the opened verification link carries.
#[derive(Debug, Clone)]
pub struct TokenQuery {
    pub token: String,
}

/// The mail that a registration is owed: to whom, and the link to put in it.
#[derive(Debug, Clone, PartialEq, Eq)]
pub struct Verification {
    pub to: String,
    pub link: String,
}

/// The mail that a registration is owed, as mathematics.
pub struct VerificationView {
    pub to: Seq<char>,
    pub link: Seq<char>,
}

impl DeepView for Verification {
    type V = VerificationView;

    open spec fn deep_view(&self) -> VerificationView {
        VerificationView { to: self.to@, link: self.link@ }
    }
}

/// The link that is mailed for a verification token.
pub open spec fn verification_link_of(token: Seq<char>) -> Seq<char> {
    "https://nuke.websxz.org/verify?code="@ + token
}

/// The record of a pending registration.
pub open spec fn pending_record(token: Seq<char>, email: Seq<char>, hashed_password: Seq<char>) -> Write {
    Write::PutFields {
        key: email_verify_key_of(token),
        fields: seq![("email"@, email), ("hashed_password"@, hashed_password)],
        ttl: EMAIL_VERIFY_TTL,
    }
}

/// What a registration comes to.
///
/// In this order: an address that is no e-mail address is a bad request; the
/// captcha's error is passed on; an address that has a user already is
/// refused as registered; an address that cannot head a mail is a bad
/// request. What passes is filed under the token `fresh` for a day, and owed
/// a mail with the link of that token.
pub open spec fn register_outcome(
    email: Seq<char>,
    hashed_password: Seq<char>,
    email_ok: bool,
    captcha: Result<(), Error>,
    registered: bool,
    mailbox_ok: bool,
    fresh: Seq<char>,
) -> Result<(VerificationView, Seq<Write>), Error> {
    if !email_ok {
        Err(Error::BadRequest)
    } else if captcha is Err {
        Err(captcha->Err_0)
    } else if registered {
        Err(Error::RegisteredEmail)
    } else if !mailbox_ok {
        Err(Error::BadRequest)
    } else {
        Ok(
            (
                VerificationView { to: email, link: verification_link_of(fresh) },
                seq![pending_record(fresh, email, hashed_password)],
            ),
        )
    }
}

/// What opening a verification link comes to, given the two fields found
/// under the token's key and the salt for the new user.
///
/// If either field is missing the record is gone or never was: not found.
/// Otherwise the record is deleted and a user is made of it: named by what
/// stands before the `@` of the address, with the password hash salted anew
/// and no avatar. An address on file without an `@` is an internal error.
pub open spec fn verify_outcome(
    token: Seq<char>,
    email: Option<Seq<char>>,
    hashed_password: Option<Seq<char>>,
    salt: Seq<char>,
) -> Result<(NewUserView, Seq<Write>), Error> {
    if email is None || hashed_password is None {
        Err(Error::NotFound)
    } else {
        match before(email->0, '@') {
            None => Err(Error::InternalServerError),
            Some(name) => Ok(
                (
                    NewUserView {
                        name,
                        email: email->0,
                        avatar: None,
                        salted_password: salted(hashed_password->0, salt),
                        salt,
                    },
                    seq![Write::Delete { key: email_verify_key_of(token) }],
                ),
            ),
        }
    }
}

impl RegisterPayload {
    /// Checks the request before anything is asked about it: the address
    /// must be an e-mail address, or the request is bad.
    pub fn validate(&self) -> (outcome: Result<(), Error>)
        ensures
            outcome is Ok == email_accepted(self.email@),
            outcome is Err ==> outcome == Err::<(), Error>(Error::BadRequest),
    {
        if validate_email(self.email.as_str()) {
            Ok(())
        } else {
            Err(Error::BadRequest)
        }
    }
}

/// The link that is mailed for a verification token.
pub fn verification_link(token: &str) -> (link: String)
    ensures
        link@ == verification_link_of(token@),
{
    join("https://nuke.websxz.org/verify?code=", token)
}

/// Decides a registration from the answers to every question it asks:
/// whether the address is an e-mail address, the captcha's verdict, whether
/// the address has a user, whether the address can head a mail, and the
/// token to file it under.
pub fn register_checked(
    payload: &RegisterPayload,
    email_ok: bool,
    captcha: Result<(), Error>,
    registered: bool,
    mailbox_ok: bool,
    fresh: &str,
) -> (outcome: Result<(Verification, Vec<StoreCommand>), Error>)
    ensures
        yields(
            outcome,
            register_outcome(
                payload.email@,
                payload.hashed_password@,
                email_ok,
                captcha,
                registered,
                mailbox_ok,
                fresh@,
            ),
        ),
{
    if !email_ok {
        return Err(Error::BadRequest);
    }
    if let Err(error) = captcha {
        return Err(error);
    }
    if registered {
        return Err(Error::RegisteredEmail);
    }
    if !mailbox_ok {
        return Err(Error::BadRequest);
    }
    let mut fields: Vec<(String, String)> = Vec::new();
    fields.push(("email".to_owned(), payload.email.clone()));
    fields.push(("hashed_password".to_owned(), payload.hashed_password.clone()));
    let mut commands: Vec<StoreCommand> = Vec::new();
    commands.push(
        StoreCommand::PutFields { key: email_verify_key(fresh), fields, ttl: EMAIL_VERIFY_TTL },
    );
    let mail = Verification { to: payload.email.clone(), link: verification_link(fresh) };
    proof {
        assert(fields.deep_view() =~= seq![
            ("email"@, payload.email@),
            ("hashed_password"@, payload.hashed_password@),
        ]);
        assert(commands.deep_view() =~= seq![
            pending_record(fresh@, payload.email@, payload.hashed_password@),
        ]);
    }
    Ok((mail, commands))
}

/// Decides a registration: `captcha` is the verifier's verdict on the captcha
/// of the request, `registered` says whether a user has the address already.
///
/// The address is held against `validator` and `lettre`, and the token is
/// drawn at random; whatever it is, the outcome is that of
/// [`register_checked`].
pub fn register(payload: &RegisterPayload, captcha: Result<(), Error>, registered: bool) -> (outcome:
    Result<(Verification, Vec<StoreCommand>), Error>)
    ensures
        exists|fresh: Seq<char>|
            is_opaque(fresh) && yields(
                outcome,
                #[trigger] register_outcome(
                    payload.email@,
                    payload.hashed_password@,
                    email_accepted(payload.email@),
                    captcha,
                    registered,
                    mailbox_accepted(payload.email@),
                    fresh,
                ),
            ),
{
    let email_ok = payload.validate().is_ok();
    let mailbox_ok = parses_as_mailbox(payload.email.as_str());
    let fresh = generate_refresh_token();
    let outcome = register_checked(
        payload,
        email_ok,
        captcha,
        registered,
        mailbox_ok,
        fresh.as_str(),
    );
    proof {
        assert(is_opaque(fresh@) && yields(
            outcome,
            register_outcome(
                payload.email@,
                payload.hashed_password@,
                email_accepted(payload.email@),
                captcha,
                registered,
                mailbox_accepted(payload.email@),
                fresh@,
            ),
        ));
    }
    outcome
}

/// Decides the opening of a verification link with the salt given. `email`
/// and `hashed_password` are the fields of those names found under
/// [`email_verify_key`] of the token. The hash that is stored has sixty-four
/// digits.
pub fn verify_with(
    query: &TokenQuery,
    email: &Option<String>,
    hashed_password: &Option<String>,
    salt: String,
) -> (outcome: Result<(NewUser, Vec<StoreCommand>), Error>)
    ensures
        yields(
            outcome,
            verify_outcome(query.token@, email.deep_view(), hashed_password.deep_view(), salt@),
        ),
        outcome matches Ok(made) ==> made.0.salted_password@.len() == 64,
{
    match (email, hashed_password) {
        (Some(email), Some(hashed_password)) => {
            match prefix_before(email.as_str(), '@') {
                None => Err(Error::InternalServerError),
                Some(name) => {
                    let salted_password = salt_password(hashed_password.as_str(), salt.as_str());
                    let mut commands: Vec<StoreCommand> = Vec::new();
                    commands.push(
                        StoreCommand::Delete { key: email_verify_key(query.token.as_str()) },
                    );
                    proof {
                        assert(commands.deep_view() =~= seq![
                            Write::Delete { key: email_verify_key_of(query.token@) },
                        ]);
                    }
                    Ok(
                        (
                            NewUser {
                                name,
                                email: email.clone(),
                                avatar: None,
                                salted_password,
                                salt,
                            },
                            commands,
                        ),
                    )
                },
            }
        },
        _ => Err(Error::NotFound),
    }
}

/// Decides the opening of a verification link; `email` and
/// `hashed_password` are the fields of those names found under
/// [`email_verify_key`] of the token.
///
/// The new user's salt is drawn at random; whatever it is, the outcome is
/// that of [`verify_with`]. The hash that is stored has sixty-four digits:
/// it is never a raw hash of another length.
pub fn verify(query: &TokenQuery, email: &Option<String>, hashed_password: &Option<String>) -> (outcome:
    Result<(NewUser, Vec<StoreCommand>), Error>)
    ensures
        exists|salt: Seq<char>|
            is_opaque(salt) && yields(
                outcome,
                #[trigger] verify_outcome(
                    query.token@,
                    email.deep_view(),
                    hashed_password.deep_view(),
                    salt,
                ),
            ),
        outcome matches Ok(made) ==> made.0.salted_password@.len() == 64,
{
    let salt = generate_refresh_token();
    let ghost drawn = salt@;
    let outcome = verify_with(query, email, hashed_password, salt);
    proof {
        assert(is_opaque(drawn) && yields(
            outcome,
            verify_outcome(query.token@, email.deep_view(), hashed_password.deep_view(), drawn),
        ));
    }
    outcome
}

/// The two field names of a pending registration differ.
pub proof fn lemma_pending_fields()
    ensures
        "email"@ != "hashed_password"@,
{
    reveal_strlit("email");
    reveal_strlit("hashed_password");
    assert("email"@.len() != "hashed_password"@.len());
}

/// A registration is on file for a day: once its write is carried out, both
/// fields are read back under the token's key until the record expires, and
/// nothing is read from then on.
pub proof fn lemma_registration_on_file(
    records: Map<Seq<char>, Stored>,
    token: Seq<char>,
    email: Seq<char>,
    hashed_password: Seq<char>,
    now: u64,
    later: u64,
    name: Seq<char>,
)
    ensures
        ({
            let filed = apply(records, pending_record(token, email, hashed_password), now);
            let key = email_verify_key_of(token);
            if later < expiry(now, EMAIL_VERIFY_TTL) {
                &&& field_at(filed, key, "email"@, later) == Some(email)
                &&& field_at(filed, key, "hashed_password"@, later) == Some(hashed_password)
            } else {
                field_at(filed, key, name, later) is None
            }
        }),
{
    lemma_pending_fields();
    let fields = seq![("email"@, email), ("hashed_password"@, hashed_password)];
    reveal_with_fuel(field, 3);
    assert(fields.drop_last().last() == ("email"@, email));
}

/// A verification link opens once. Once the writes of a successful opening
/// are carried out, nothing is on file under the token any more, and opening
/// the link again finds nothing.
pub proof fn lemma_verification_single_use(
    records: Map<Seq<char>, Stored>,
    token: Seq<char>,
    now: u64,
    salt: Seq<char>,
    user: NewUserView,
    writes: Seq<Write>,
    later: u64,
    other: Seq<char>,
)
    requires
        verify_outcome(
            token,
            field_at(records, email_verify_key_of(token), "email"@, now),
            field_at(records, email_verify_key_of(token), "hashed_password"@, now),
            salt,
        ) == Ok::<(NewUserView, Seq<Write>), Error>((user, writes)),
    ensures
        forall|name: Seq<char>| #[trigger]
            field_at(apply_all(records, writes, now), email_verify_key_of(token), name, later)
                is None,
        verify_outcome(
            token,
            field_at(apply_all(records, writes, now), email_verify_key_of(token), "email"@, later),
            field_at(
                apply_all(records, writes, now),
                email_verify_key_of(token),
                "hashed_password"@,
                later,
            ),
            other,
        ) == Err::<(NewUserView, Seq<Write>), Error>(Error::NotFound),
{
    reveal_with_fuel(apply_all, 2);
    assert(writes.len() == 1);
    assert(writes.drop_first().len() == 0);
}

/// The user made by opening a verification link can log in with the
/// password hash that was registered: a row that holds the salt and the
/// salted hash of the new user passes the password question of a login with
/// that hash.
pub proof fn lemma_verified_user_logs_in(
    token: Seq<char>,
    email: Seq<char>,
    hashed_password: Seq<char>,
    salt: Seq<char>,
    made: NewUserView,
    writes: Seq<Write>,
    row: Model,
)
    requires
        verify_outcome(token, Some(email), Some(hashed_password), salt) == Ok::<
            (NewUserView, Seq<Write>),
            Error,
        >((made, writes)),
        row.salted_password@ == made.salted_password,
        row.salt@ == made.salt,
    ensures
        login_passes(Ok(()), Some(row), hashed_password),
{
}

} // verus!
