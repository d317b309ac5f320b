//! The values that the service and its clients exchange, and the rows that
//! the service stores.

use vstd::prelude::*;

verus! {

/// A request to register a user.
#[derive(Debug, Clone, PartialEq)]
pub struct RegisterRequest {
    pub username: String,
    pub password: String,
    pub confirm_password: String,
}

/// The claims of a session token: the user's id.
#[derive(Debug, Clone, PartialEq)]
pub struct TokenClaims {
    pub sub: i64,
}

/// A request for a session token.
#[derive(Debug, Clone, PartialEq)]
pub struct TokenRequest {
    pub username: String,
    pub password: String,
}

/// A session token.
#[derive(Debug, Clone, PartialEq)]
pub struct TokenResponse {
    pub token: String,
}

/// A user as clients see one.
#[derive(Debug, Clone, PartialEq)]
pub struct User {
    pub id: i64,
    pub username: String,
}

/// An uploaded image as clients see one.
#[derive(Debug, Clone, PartialEq)]
pub struct Image {
    pub id: String,
    pub user: User,
    pub extension: String,
}

/// The ids of all images.
#[derive(Debug, Clone, PartialEq)]
pub struct AllImagesResponse {
    pub ids: Vec<String>,
}

/// The ids of one user's images.
#[derive(Debug, Clone, PartialEq)]
pub struct UserImagesResponse {
    pub ids: Vec<String>,
}

/// A stored user.
#[derive(Debug, Clone, PartialEq)]
pub struct DbUser {
    pub id: i64,
    pub username: String,
    pub passhash: String,
}

/// A stored image.
#[derive(Debug, Clone, PartialEq)]
pub struct DbImage {
    pub id: String,
    pub user_id: i64,
    pub extension: String,
}

impl From<DbUser> for User {
    /// The user that clients see: the stored one without its password hash.
    fn from(value: DbUser) -> (user: User) {
        User { id: value.id, username: value.username }
    }
}

impl vstd::std_specs::convert::FromSpecImpl<DbUser> for User {
    open spec fn obeys_from_spec() -> bool {
        true
    }

    open spec fn from_spec(value: DbUser) -> User {
        User { id: value.id, username: value.username }
    }
}

impl DbImage {
    /// The image that clients see, given the user that `user_id` names.
    pub fn into_image(self, user: User) -> (image: Image)
        ensures
            image == (Image { id: self.id, user, extension: self.extension }),
    {
        Image { id: self.id, user, extension: self.extension }
    }
}

} // verus!
