use chrono::{DateTime, NaiveDateTime};
use websxz_accounts_backend::data::error::Error;
use websxz_accounts_backend::data::scope::{scopes, Scope};
use websxz_accounts_backend::entity::user::Model;
use websxz_accounts_backend::handler::profile::{
    edit, edit_scopes, me, me_scopes, MyProfile, ProfileEdit, NAME_MAX, NAME_MIN,
};

fn moment(seconds: i64) -> NaiveDateTime {
    DateTime::from_timestamp(seconds, 0).unwrap().naive_utc()
}

fn alice() -> Model {
    Model {
        id: 17,
        name: "alice".to_string(),
        email: "alice@example.com".to_string(),
        avatar: Some("https://img.example/a.png".to_string()),
        salted_password: "digest".to_string(),
        salt: "0123456789abcdef".to_string(),
        created_at: moment(1_000),
        updated_at: moment(2_000),
    }
}

fn rename(name: &str) -> ProfileEdit {
    ProfileEdit { name: Some(name.to_string()) }
}

#[test]
fn routes_ask_for_their_scope() {
    assert_eq!(me_scopes(), scopes(&[Scope::ProfileRead]));
    assert_eq!(edit_scopes(), scopes(&[Scope::ProfileWrite]));
    assert_eq!(me_scopes(), 1);
    assert_eq!(edit_scopes(), 2);
}

#[test]
fn me_shows_the_row_without_the_password() {
    assert_eq!(
        me(Some(alice())),
        Ok(MyProfile {
            email: "alice@example.com".to_string(),
            name: "alice".to_string(),
            id: 17,
            created_at: moment(1_000),
            updated_at: moment(2_000),
            avatar: Some("https://img.example/a.png".to_string()),
        })
    );
}

#[test]
fn me_without_a_row_is_not_found() {
    assert_eq!(me(None), Err(Error::NotFound));
}

#[test]
fn name_bounds_are_three_and_twenty_five() {
    assert_eq!(NAME_MIN, 3);
    assert_eq!(NAME_MAX, 25);
}

#[test]
fn names_are_counted_in_characters() {
    assert_eq!(ProfileEdit { name: None }.validate(), Ok(()));
    assert_eq!(rename("").validate(), Err(Error::BadRequest));
    assert_eq!(rename("ab").validate(), Err(Error::BadRequest));
    assert_eq!(rename("abc").validate(), Ok(()));
    assert_eq!(rename("äöü").validate(), Ok(()));
    assert_eq!(rename("é").validate(), Err(Error::BadRequest));
    assert_eq!(rename(&"x".repeat(25)).validate(), Ok(()));
    assert_eq!(rename(&"ü".repeat(25)).validate(), Ok(()));
    assert_eq!(rename(&"x".repeat(26)).validate(), Err(Error::BadRequest));
}

#[test]
fn edit_changes_the_name_only() {
    let mut expected = alice();
    expected.name = "alicia".to_string();
    assert_eq!(edit(Some(alice()), rename("alicia")), Ok(expected));
}

#[test]
fn edit_without_changes_keeps_the_row() {
    assert_eq!(edit(Some(alice()), ProfileEdit { name: None }), Ok(alice()));
}

#[test]
fn edit_checks_the_changes_before_the_user() {
    assert_eq!(edit(None, rename("ab")), Err(Error::BadRequest));
    assert_eq!(edit(Some(alice()), rename("ab")), Err(Error::BadRequest));
    assert_eq!(edit(None, rename("alicia")), Err(Error::NotFound));
    assert_eq!(edit(None, ProfileEdit { name: None }), Err(Error::NotFound));
}
