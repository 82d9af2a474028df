use chrono::{DateTime, NaiveDateTime};
use websxz_accounts_backend::data::credential::{verify, Claims, Keys, SESSION_TTL};
use websxz_accounts_backend::data::error::Error;
use websxz_accounts_backend::entity::user::Model;
use websxz_accounts_backend::handler::login::{
    login, login_with, refresh_token, refresh_token_with, LoginBody, Token,
};
use websxz_accounts_backend::utils::captcha::Captcha;
use websxz_accounts_backend::utils::encryption::salt_password;
use websxz_accounts_backend::utils::store::{
    refresh_key, EphemeralStore, StoreCommand, REFRESH_TTL,
};

fn moment(seconds: i64) -> NaiveDateTime {
    DateTime::from_timestamp(seconds, 0).unwrap().naive_utc()
}

fn alice() -> Model {
    Model {
        id: 17,
        name: "alice".to_string(),
        email: "alice@example.com".to_string(),
        avatar: None,
        salted_password: salt_password("hash-of-password", "0123456789abcdef"),
        salt: "0123456789abcdef".to_string(),
        created_at: moment(1_000),
        updated_at: moment(2_000),
    }
}

fn body(password: &str) -> LoginBody {
    LoginBody {
        email: "alice@example.com".to_string(),
        hashed_password: password.to_string(),
        captcha: Captcha::Turnstile("response".to_string()),
    }
}

#[test]
fn login_with_right_password_grants_a_session() {
    let keys = Keys::new(b"secret");
    let (token, commands) = login_with(
        &keys,
        Ok(()),
        &Some(alice()),
        &body("hash-of-password"),
        "REFRESHrefresh01".to_string(),
        5_000,
    )
    .unwrap();
    assert_eq!(token.refresh_token, "REFRESHrefresh01");
    assert_eq!(
        verify(&keys, &token.token, None, 5_000),
        Ok(Claims { exp: 5_000 + SESSION_TTL, uid: 17, scopes: None })
    );
    assert_eq!(commands.len(), 1);
    match &commands[0] {
        StoreCommand::SetWithTtl { key, value, ttl } => {
            assert_eq!(key, "refresh:REFRESHrefresh01");
            assert_eq!(value, "17");
            assert_eq!(*ttl, REFRESH_TTL);
        }
        other => panic!("unexpected command {:?}", other),
    }
}

#[test]
fn login_passes_the_captcha_error_on_before_anything_else() {
    let keys = Keys::new(b"secret");
    for error in [Error::InvalidCaptcha, Error::MissingCaptchaToken, Error::TimeOutOrDuplicateCaptcha] {
        let outcome = login_with(
            &keys,
            Err(error),
            &Some(alice()),
            &body("hash-of-password"),
            "REFRESHrefresh01".to_string(),
            5_000,
        );
        assert_eq!(outcome.unwrap_err(), error);
        let outcome =
            login_with(&keys, Err(error), &None, &body("x"), "REFRESHrefresh01".to_string(), 5_000);
        assert_eq!(outcome.unwrap_err(), error);
    }
}

#[test]
fn login_does_not_tell_unknown_user_from_wrong_password() {
    let keys = Keys::new(b"secret");
    let unknown =
        login_with(&keys, Ok(()), &None, &body("hash-of-password"), "r".to_string(), 5_000);
    let wrong = login_with(&keys, Ok(()), &Some(alice()), &body("other"), "r".to_string(), 5_000);
    assert_eq!(unknown.unwrap_err(), Error::IncorrectEmailOrPassword);
    assert_eq!(wrong.unwrap_err(), Error::IncorrectEmailOrPassword);
}

#[test]
fn login_compares_the_salted_hash() {
    let keys = Keys::new(b"secret");
    let mut user = alice();
    user.salted_password = "hash-of-password".to_string();
    let outcome =
        login_with(&keys, Ok(()), &Some(user), &body("hash-of-password"), "r".to_string(), 5_000);
    assert_eq!(outcome.unwrap_err(), Error::IncorrectEmailOrPassword);
    let mut user = alice();
    user.salt = "another-salt".to_string();
    let outcome =
        login_with(&keys, Ok(()), &Some(user), &body("hash-of-password"), "r".to_string(), 5_000);
    assert_eq!(outcome.unwrap_err(), Error::IncorrectEmailOrPassword);
}

#[test]
fn login_fails_inside_when_the_expiry_does_not_fit() {
    let keys = Keys::new(b"secret");
    let outcome = login_with(
        &keys,
        Ok(()),
        &Some(alice()),
        &body("hash-of-password"),
        "r".to_string(),
        u64::MAX,
    );
    assert_eq!(outcome.unwrap_err(), Error::InternalServerError);
}

#[test]
fn refresh_without_a_record_is_unauthorized() {
    let keys = Keys::new(b"secret");
    let outcome = refresh_token_with(&keys, "presented", &None, "fresh".to_string(), 10);
    assert_eq!(outcome.unwrap_err(), Error::Unauthorized);
}

#[test]
fn refresh_with_an_unreadable_record_is_an_internal_error() {
    let keys = Keys::new(b"secret");
    for value in ["", "seventeen", "-1", "4294967296"] {
        let outcome = refresh_token_with(
            &keys,
            "presented",
            &Some(value.to_string()),
            "fresh".to_string(),
            10,
        );
        assert_eq!(outcome.unwrap_err(), Error::InternalServerError);
    }
}

#[test]
fn refresh_rotates_the_token() {
    let keys = Keys::new(b"secret");
    let (token, commands) =
        refresh_token_with(&keys, "old", &Some("17".to_string()), "new".to_string(), 10).unwrap();
    assert_eq!(token.refresh_token, "new");
    assert_eq!(
        verify(&keys, &token.token, None, 10),
        Ok(Claims { exp: 10 + SESSION_TTL, uid: 17, scopes: None })
    );
    assert_eq!(commands.len(), 2);
    match &commands[0] {
        StoreCommand::Delete { key } => assert_eq!(key, "refresh:old"),
        other => panic!("unexpected command {:?}", other),
    }
    match &commands[1] {
        StoreCommand::SetWithTtl { key, value, ttl } => {
            assert_eq!(key, "refresh:new");
            assert_eq!(value, "17");
            assert_eq!(*ttl, REFRESH_TTL);
        }
        other => panic!("unexpected command {:?}", other),
    }
}

fn redeem(keys: &Keys, store: &mut EphemeralStore, presented: &str, at: u64) -> Result<Token, Error> {
    let found = store.get(&refresh_key(presented), at);
    let (token, commands) = refresh_token(keys, presented, &found)?;
    store.execute_all(&commands, at);
    Ok(token)
}

#[test]
fn refresh_token_redeems_only_once() {
    let keys = Keys::new(b"secret");
    let mut store = EphemeralStore::new();
    let (session, commands) =
        login(&keys, Ok(()), &Some(alice()), &body("hash-of-password")).unwrap();
    store.execute_all(&commands, 100);

    let renewed = redeem(&keys, &mut store, &session.refresh_token, 200).unwrap();
    assert_ne!(renewed.refresh_token, session.refresh_token);
    assert_eq!(verify(&keys, &renewed.token, None, 0).unwrap().uid, 17);

    assert_eq!(redeem(&keys, &mut store, &session.refresh_token, 201), Err(Error::Unauthorized));
    assert_eq!(redeem(&keys, &mut store, &session.refresh_token, 202), Err(Error::Unauthorized));

    let again = redeem(&keys, &mut store, &renewed.refresh_token, 300).unwrap();
    assert_eq!(redeem(&keys, &mut store, &renewed.refresh_token, 301), Err(Error::Unauthorized));
    assert!(store.contains_key(&refresh_key(&again.refresh_token), 301));
}

#[test]
fn refresh_token_expires_after_ninety_days() {
    let keys = Keys::new(b"secret");
    let mut store = EphemeralStore::new();
    let (session, commands) =
        login(&keys, Ok(()), &Some(alice()), &body("hash-of-password")).unwrap();
    store.execute_all(&commands, 100);
    assert_eq!(
        redeem(&keys, &mut store, &session.refresh_token, 100 + REFRESH_TTL),
        Err(Error::Unauthorized)
    );
    assert!(redeem(&keys, &mut store, &session.refresh_token, 100 + REFRESH_TTL - 1).is_ok());
}

#[test]
fn unknown_refresh_token_is_unauthorized() {
    let keys = Keys::new(b"secret");
    let mut store = EphemeralStore::new();
    assert_eq!(redeem(&keys, &mut store, "never-issued", 5), Err(Error::Unauthorized));
}

#[test]
fn two_logins_give_two_independent_refresh_tokens() {
    let keys = Keys::new(b"secret");
    let mut store = EphemeralStore::new();
    let (first, first_commands) =
        login(&keys, Ok(()), &Some(alice()), &body("hash-of-password")).unwrap();
    let (second, second_commands) =
        login(&keys, Ok(()), &Some(alice()), &body("hash-of-password")).unwrap();
    store.execute_all(&second_commands, 100);
    store.execute_all(&first_commands, 100);

    assert_ne!(first.refresh_token, second.refresh_token);
    assert_eq!(first.refresh_token.len(), 16);
    assert_eq!(second.refresh_token.len(), 16);
    assert_eq!(verify(&keys, &first.token, None, 0).unwrap().uid, 17);
    assert_eq!(verify(&keys, &second.token, None, 0).unwrap().uid, 17);

    assert!(redeem(&keys, &mut store, &first.refresh_token, 150).is_ok());
    assert!(redeem(&keys, &mut store, &second.refresh_token, 150).is_ok());
    assert_eq!(redeem(&keys, &mut store, &first.refresh_token, 151), Err(Error::Unauthorized));
    assert_eq!(redeem(&keys, &mut store, &second.refresh_token, 151), Err(Error::Unauthorized));
}
