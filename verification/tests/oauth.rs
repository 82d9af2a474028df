use websxz_accounts_backend::data::credential::{verify, Claims, Keys, SESSION_TTL};
use websxz_accounts_backend::data::error::Error;
use websxz_accounts_backend::data::scope::{satisfies, scopes, Scope};
use websxz_accounts_backend::entity::oauth_client::Model;
use websxz_accounts_backend::handler::oauth::{
    exchange_client, exchange_token, exchange_token_at, oauth, oauth_with, ExchangeTokenParams,
    OAuthParams, ResponseType,
};
use websxz_accounts_backend::utils::store::{
    oauth_key, EphemeralStore, StoreCommand, OAUTH_CODE_TTL,
};

fn params(scopes: &str, response_type: &str) -> OAuthParams {
    OAuthParams {
        scopes: scopes.to_string(),
        redirect_uri: "https://client.example/callback".to_string(),
        client_id: 1,
        state: "xyz".to_string(),
        response_type: response_type.to_string(),
    }
}

fn client(secret: &str) -> Model {
    Model {
        client_id: 1,
        official: false,
        client_secret: secret.to_string(),
        created_at: None,
        updated_at: None,
    }
}

fn session() -> Claims {
    Claims { exp: 10_000, uid: 17, scopes: None }
}

fn text(s: &str) -> Option<String> {
    Some(s.to_string())
}

fn exchange_params(code: &str, secret: &str) -> ExchangeTokenParams {
    ExchangeTokenParams { code: code.to_string(), client_secret: secret.to_string() }
}

fn exchange(
    keys: &Keys,
    store: &mut EphemeralStore,
    code: &str,
    secret: &str,
    at: u64,
) -> Result<String, Error> {
    let key = oauth_key(code);
    let client_id = store.get_field(&key, "client_id", at);
    let asked = store.get_field(&key, "scopes", at);
    let uid = store.get_field(&key, "uid", at);
    let found = match exchange_client(&client_id, &asked, &uid) {
        Ok(1) => Some(client("right-secret")),
        Ok(_) => None,
        Err(error) => return Err(error),
    };
    let (token, commands) =
        exchange_token(keys, &exchange_params(code, secret), &client_id, &asked, &uid, &found)?;
    store.execute_all(&commands, at);
    Ok(token)
}

#[test]
fn response_type_is_spelled_code() {
    assert_eq!(ResponseType::from_name(&"code".to_string()), Some(ResponseType::Code));
    assert_eq!(ResponseType::from_name(&"token".to_string()), None);
    assert_eq!(ResponseType::from_name(&"Code".to_string()), None);
    assert_eq!(ResponseType::from_name(&"".to_string()), None);
}

#[test]
fn oauth_with_files_the_code_and_redirects() {
    let (target, commands) =
        oauth_with(&session(), &params("profile.read", "code"), "CODEcode01234567").unwrap();
    assert_eq!(target, "https://client.example/callback?state=xyz&code=CODEcode01234567");
    assert_eq!(commands.len(), 1);
    match &commands[0] {
        StoreCommand::PutFields { key, fields, ttl } => {
            assert_eq!(key, "oauth:CODEcode01234567");
            assert_eq!(
                fields,
                &vec![
                    ("client_id".to_string(), "1".to_string()),
                    ("scopes".to_string(), "profile.read".to_string()),
                    ("uid".to_string(), "17".to_string()),
                ]
            );
            assert_eq!(*ttl, OAUTH_CODE_TTL);
        }
        other => panic!("unexpected command {:?}", other),
    }
}

#[test]
fn oauth_appends_the_query_literally() {
    let mut p = params("", "code");
    p.redirect_uri = "https://client.example/cb?x=1".to_string();
    p.state = "a b&c".to_string();
    let (target, _) = oauth_with(&session(), &p, "c").unwrap();
    assert_eq!(target, "https://client.example/cb?x=1?state=a b&c&code=c");
}

#[test]
fn oauth_refuses_other_grants_before_writing() {
    for kind in ["token", "", "CODE", "code ", "id_token"] {
        assert_eq!(
            oauth_with(&session(), &params("profile.read", kind), "c").unwrap_err(),
            Error::BadRequest
        );
        assert_eq!(oauth(&session(), &params("profile.read", kind)).unwrap_err(), Error::BadRequest);
    }
}

#[test]
fn oauth_draws_a_fresh_code_each_time() {
    let (first, _) = oauth(&session(), &params("profile.read", "code")).unwrap();
    let (second, _) = oauth(&session(), &params("profile.read", "code")).unwrap();
    assert_ne!(first, second);
    let prefix = "https://client.example/callback?state=xyz&code=";
    assert!(first.starts_with(prefix));
    assert_eq!(first.len(), prefix.len() + 16);
}

#[test]
fn exchange_client_reads_the_client_number() {
    assert_eq!(exchange_client(&text("12"), &text(""), &text("x")), Ok(12));
    assert_eq!(exchange_client(&None, &text(""), &text("1")), Err(Error::NotFound));
    assert_eq!(exchange_client(&text("12"), &None, &text("1")), Err(Error::NotFound));
    assert_eq!(exchange_client(&text("12"), &text(""), &None), Err(Error::NotFound));
    assert_eq!(exchange_client(&None, &None, &None), Err(Error::NotFound));
    assert_eq!(exchange_client(&text("twelve"), &text(""), &text("1")), Err(Error::InternalServerError));
    assert_eq!(exchange_client(&text(""), &text(""), &text("1")), Err(Error::InternalServerError));
}

#[test]
fn exchange_token_at_refuses_in_order() {
    let keys = Keys::new(b"secret");
    let p = exchange_params("c", "right-secret");
    let run = |client_id: Option<String>,
               asked: Option<String>,
               uid: Option<String>,
               found: Option<Model>| {
        exchange_token_at(&keys, &p, &client_id, &asked, &uid, &found, 100).map(|r| r.0)
    };
    assert_eq!(run(None, text("profile.read"), text("x"), None), Err(Error::NotFound));
    assert_eq!(run(text("1"), None, text("17"), Some(client("wrong"))), Err(Error::NotFound));
    assert_eq!(
        run(text("one"), text("profile.read"), text("x"), None),
        Err(Error::InternalServerError)
    );
    assert_eq!(run(text("1"), text("profile.read"), text("x"), None), Err(Error::BadRequest));
    assert_eq!(
        run(text("1"), text("profile.read"), text("x"), Some(client("wrong"))),
        Err(Error::Unauthorized)
    );
    assert_eq!(
        run(text("1"), text("profile.read"), text("x"), Some(client("right-secret"))),
        Err(Error::InternalServerError)
    );
    assert!(run(text("1"), text("profile.read"), text("17"), Some(client("right-secret"))).is_ok());
}

#[test]
fn exchange_token_at_grants_the_recognized_scopes() {
    let keys = Keys::new(b"secret");
    let p = exchange_params("c", "s");
    for (asked, mask) in [
        ("profile.read", 1u16),
        ("profile.write", 2),
        ("profile.read profile.write", 3),
        ("profile.write admin profile.write", 2),
        ("", 0),
        ("everything", 0),
    ] {
        let (token, commands) =
            exchange_token_at(&keys, &p, &text("1"), &text(asked), &text("17"), &Some(client("s")), 100)
                .unwrap();
        assert_eq!(
            verify(&keys, &token, None, 100),
            Ok(Claims { exp: 100 + SESSION_TTL, uid: 17, scopes: Some(mask) })
        );
        assert_eq!(commands.len(), 1);
        match &commands[0] {
            StoreCommand::Delete { key } => assert_eq!(key, "oauth:c"),
            other => panic!("unexpected command {:?}", other),
        }
    }
}

#[test]
fn code_is_exchanged_once_for_a_scoped_token() {
    let keys = Keys::new(b"secret");
    let mut store = EphemeralStore::new();
    let (target, commands) = oauth(&session(), &params("profile.read", "code")).unwrap();
    store.execute_all(&commands, 1_000);
    let code = target.rsplit('=').next().unwrap().to_string();

    assert_eq!(exchange(&keys, &mut store, &code, "wrong-secret", 1_001), Err(Error::Unauthorized));
    assert_eq!(exchange(&keys, &mut store, "wrong-code", "right-secret", 1_001), Err(Error::NotFound));

    let token = exchange(&keys, &mut store, &code, "right-secret", 1_002).unwrap();
    let claims = verify(&keys, &token, Some(scopes(&[Scope::ProfileRead])), 0).unwrap();
    assert_eq!(claims.uid, 17);
    assert!(satisfies(claims.scopes.unwrap(), scopes(&[Scope::ProfileRead])));
    assert!(!satisfies(claims.scopes.unwrap(), scopes(&[Scope::ProfileWrite])));
    assert_eq!(
        verify(&keys, &token, Some(scopes(&[Scope::ProfileWrite])), 0),
        Err(Error::MissingScope)
    );

    assert_eq!(exchange(&keys, &mut store, &code, "right-secret", 1_003), Err(Error::NotFound));
}

#[test]
fn code_lapses_after_five_minutes() {
    let keys = Keys::new(b"secret");
    let mut store = EphemeralStore::new();
    let (target, commands) = oauth(&session(), &params("profile.read", "code")).unwrap();
    store.execute_all(&commands, 1_000);
    let code = target.rsplit('=').next().unwrap().to_string();
    assert_eq!(
        exchange(&keys, &mut store, &code, "right-secret", 1_000 + OAUTH_CODE_TTL),
        Err(Error::NotFound)
    );
    assert!(exchange(&keys, &mut store, &code, "right-secret", 1_000 + OAUTH_CODE_TTL - 1).is_ok());
}
