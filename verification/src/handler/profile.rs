//! Reading and editing one's own profile: the two operations that a scoped
//! access token can open.

use crate::data::error::{yields, Error};
use crate::data::scope::{encode, lemma_encode_single, Scope};
use crate::entity::user::{Model, ModelView};
use crate::utils::validation::validate_length;
use chrono::NaiveDateTime;
use vstd::prelude::*;

verus! {

/// The shortest name a user may take, in characters.
pub const NAME_MIN: u64 = 3;

/// The longest name a user may take, in characters.
pub const NAME_MAX: u64 = 25;

/// The changes asked of a profile. What is `None` stays as it is.
#[derive(Debug, Clone)]
pub struct ProfileEdit {
    pub name: Option<String>,
}

/// A user's profile as the user may see it: the row without the password.
#[derive(Debug, PartialEq, Eq)]
pub struct MyProfile {
    pub email: String,
    pub name: String,
    pub id: u32,
    pub created_at: NaiveDateTime,
    pub updated_at: NaiveDateTime,
    pub avatar: Option<String>,
}

/// A profile, as mathematics.
pub struct MyProfileView {
    pub email: Seq<char>,
    pub name: Seq<char>,
    pub id: u32,
    pub created_at: NaiveDateTime,
    pub updated_at: NaiveDateTime,
    pub avatar: Option<Seq<char>>,
}

impl DeepView for MyProfile {
    type V = MyProfileView;

    open spec fn deep_view(&self) -> MyProfileView {
        MyProfileView {
            email: self.email@,
            name: self.name@,
            id: self.id,
            created_at: self.created_at,
            updated_at: self.updated_at,
            avatar: self.avatar.deep_view(),
        }
    }
}

/// Whether the changes asked are acceptable: a new name has three to
/// twenty-five characters.
pub open spec fn acceptable(name: Option<Seq<char>>) -> bool {
    name is Some ==> NAME_MIN <= name->0.len() <= NAME_MAX
}

/// What reading the profile comes to, given the row found under the token's
/// user.
pub open spec fn me_outcome(user: Option<ModelView>) -> Result<MyProfileView, Error> {
    match user {
        None => Err(Error::NotFound),
        Some(user) => Ok(
            MyProfileView {
                email: user.email,
                name: user.name,
                id: user.id,
                created_at: user.created_at,
                updated_at: user.updated_at,
                avatar: user.avatar,
            },
        ),
    }
}

/// What editing the profile comes to, given the row found under the token's
/// user: unacceptable changes are a bad request whoever asks; then the user
/// must exist; then the row is returned with the new name in it, if one was
/// asked for, and is otherwise unchanged.
pub open spec fn edit_outcome(user: Option<ModelView>, name: Option<Seq<char>>) -> Result<
    ModelView,
    Error,
> {
    if !acceptable(name) {
        Err(Error::BadRequest)
    } else {
        match user {
            None => Err(Error::NotFound),
            Some(user) => Ok(
                ModelView {
                    name: match name {
                        Some(name) => name,
                        None => user.name,
                    },
                    ..user
                },
            ),
        }
    }
}

/// The mask that a token must be granted to read the profile.
pub fn me_scopes() -> (mask: u16)
    ensures
        mask == encode(set![Scope::ProfileRead]),
{
    proof {
        lemma_encode_single(Scope::ProfileRead);
    }
    Scope::ProfileRead.mask()
}

/// The mask that a token must be granted to edit the profile.
pub fn edit_scopes() -> (mask: u16)
    ensures
        mask == encode(set![Scope::ProfileWrite]),
{
    proof {
        lemma_encode_single(Scope::ProfileWrite);
    }
    Scope::ProfileWrite.mask()
}

impl ProfileEdit {
    /// Checks the changes asked.
    pub fn validate(&self) -> (outcome: Result<(), Error>)
        ensures
            outcome is Ok == acceptable(self.name.deep_view()),
            outcome is Err ==> outcome == Err::<(), Error>(Error::BadRequest),
    {
        match &self.name {
            None => Ok(()),
            Some(name) => {
                if validate_length(name.as_str(), NAME_MIN, NAME_MAX) {
                    Ok(())
                } else {
                    Err(Error::BadRequest)
                }
            },
        }
    }
}

/// Reads the profile of the user found under the token's user number.
pub fn me(user: Option<Model>) -> (outcome: Result<MyProfile, Error>)
    ensures
        yields(outcome, me_outcome(user.deep_view())),
{
    match user {
        None => Err(Error::NotFound),
        Some(user) => Ok(
            MyProfile {
                email: user.email,
                name: user.name,
                id: user.id,
                created_at: user.created_at,
                updated_at: user.updated_at,
                avatar: user.avatar,
            },
        ),
    }
}

/// Applies the changes asked to the user found under the token's user
/// number. The row returned is the one to write back.
pub fn edit(user: Option<Model>, params: ProfileEdit) -> (outcome: Result<Model, Error>)
    ensures
        yields(outcome, edit_outcome(user.deep_view(), params.name.deep_view())),
{
    if let Err(error) = params.validate() {
        return Err(error);
    }
    match user {
        None => Err(Error::NotFound),
        Some(user) => {
            let mut user = user;
            if let Some(name) = params.name {
                user.name = name;
            }
            Ok(user)
        },
    }
}

} // verus!
