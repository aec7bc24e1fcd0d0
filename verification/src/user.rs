//! The user entity, the error taxonomy, and the HTTP response shape.

use vstd::prelude::*;

use crate::oid::ObjectId;

verus! {

/// Why a repository operation failed. The kind alone decides the HTTP status;
/// a store failure carries the driver's error text for the response body.
#[derive(Debug, PartialEq)]
pub enum UserError {
    /// An empty or malformed identifier string, or a request body that is
    /// missing a required field.
    InvalidInput,
    /// No stored user matches the identifier.
    NotFound,
    /// The store could not complete the operation.
    StoreError(String),
}

/// The HTTP status that each error kind maps to.
pub open spec fn spec_status_of(e: UserError) -> u16 {
    match e {
        UserError::InvalidInput => 400,
        UserError::NotFound => 404,
        UserError::StoreError(_) => 500,
    }
}

/// Maps an error kind to its HTTP status code.
pub fn status_of(e: &UserError) -> (s: u16)
    ensures
        s == spec_status_of(*e),
{
    match e {
        UserError::InvalidInput => 400,
        UserError::NotFound => 404,
        UserError::StoreError(_) => 500,
    }
}

/// A user record. The identifier is absent on create requests and present on
/// every user read back from the store.
#[derive(Debug, PartialEq)]
pub struct User {
    pub id: Option<ObjectId>,
    pub name: String,
    pub location: String,
    pub title: String,
}

/// The mathematical value of a [`User`]: the identifier as its bytes, the
/// text fields as character sequences.
pub struct UserView {
    pub id: Option<Seq<u8>>,
    pub name: Seq<char>,
    pub location: Seq<char>,
    pub title: Seq<char>,
}

impl View for User {
    type V = UserView;

    open spec fn view(&self) -> UserView {
        UserView {
            id: match self.id {
                Option::Some(o) => Option::Some(o@),
                Option::None => Option::None,
            },
            name: self.name@,
            location: self.location@,
            title: self.title@,
        }
    }
}

impl Clone for User {
    fn clone(&self) -> (r: Self)
        ensures
            r@ == self@,
    {
        User {
            id: match &self.id {
                Option::Some(o) => Option::Some(o.clone()),
                Option::None => Option::None,
            },
            name: self.name.clone(),
            location: self.location.clone(),
            title: self.title.clone(),
        }
    }
}

/// What a handler replies with: a single user, a list, or plain text.
#[derive(Debug, PartialEq)]
pub enum Body {
    UserData(User),
    UserList(Vec<User>),
    Text(String),
}

/// An HTTP response as the handlers decide it: a status code and a body.
#[derive(Debug, PartialEq)]
pub struct Response {
    pub status: u16,
    pub body: Body,
}

} // verus!
