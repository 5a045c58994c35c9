use vstd::prelude::*;

verus! {

use vstd::slice::slice_to_vec;

/// The credentials a login request carries.
#[derive(Debug)]
pub struct User {
    pub email: String,
    pub password: String,
}

/// The credentials a registration request carries.
#[derive(Debug)]
pub struct UserSignup {
    pub email: String,
    pub password: String,
    pub confirm_password: String,
}

/// A request that names a user by email alone (ban, unban, promote, demote).
#[derive(Debug)]
pub struct UserEmail {
    pub email: String,
}

/// A resolved identity, as handlers receive it.
pub struct LoggedInUser {
    pub token: Claims,
}

/// The identity payload embedded in a session token: who the session is
/// for and when it expires (seconds since the Unix epoch).
#[derive(Debug)]
pub struct Claims {
    pub id: i32,
    pub email: String,
    pub exp: u64,
}

/// The identity of a caller that may or may not be logged in.
pub struct OptionalClaims(pub Option<Claims>);

/// The signing secret of the token service, fixed at startup and shared by
/// issuing and verification.
pub struct Keys {
    pub secret: Vec<u8>,
}

impl Keys {
    pub fn new(secret: &[u8]) -> (r: Self)
        ensures
            r.secret@ == secret@,
    {
        Keys { secret: slice_to_vec(secret) }
    }
}

} // verus!
