//! A registered user.

use chrono::NaiveDateTime;
use vstd::prelude::*;

verus! {

/// A user row.
#[derive(Debug, PartialEq, Eq)]
pub struct Model {
    pub id: u32,
    pub name: String,
    pub email: String,
    pub avatar: Option<String>,
    pub salted_password: String,
    pub salt: String,
    pub created_at: NaiveDateTime,
    pub updated_at: NaiveDateTime,
}

/// A user row, as mathematics.
pub struct ModelView {
    pub id: u32,
    pub name: Seq<char>,
    pub email: Seq<char>,
    pub avatar: Option<Seq<char>>,
    pub salted_password: Seq<char>,
    pub salt: Seq<char>,
    pub created_at: NaiveDateTime,
    pub updated_at: NaiveDateTime,
}

impl DeepView for Model {
    type V = ModelView;

    open spec fn deep_view(&self) -> ModelView {
        ModelView {
            id: self.id,
            name: self.name@,
            email: self.email@,
            avatar: self.avatar.deep_view(),
            salted_password: self.salted_password@,
            salt: self.salt@,
            created_at: self.created_at,
            updated_at: self.updated_at,
        }
    }
}

/// A user that is about to be inserted: the store assigns the id and the two
/// dates.
#[derive(Clone, Debug, PartialEq, Eq)]
pub struct NewUser {
    pub name: String,
    pub email: String,
    pub avatar: Option<String>,
    pub salted_password: String,
    pub salt: String,
}

/// A user that is about to be inserted, as mathematics.
pub struct NewUserView {
    pub name: Seq<char>,
    pub email: Seq<char>,
    pub avatar: Option<Seq<char>>,
    pub salted_password: Seq<char>,
    pub salt: Seq<char>,
}

impl DeepView for NewUser {
    type V = NewUserView;

    open spec fn deep_view(&self) -> NewUserView {
        NewUserView {
            name: self.name@,
            email: self.email@,
            avatar: self.avatar.deep_view(),
            salted_password: self.salted_password@,
            salt: self.salt@,
        }
    }
}

} // verus!
