use vstd::prelude::*;

verus! {

use vstd::string::StringExecFns;

/// The error taxonomy surfaced by the backend. Each variant maps to an HTTP
/// status code and a response message, given by `response_parts`.
#[derive(Debug)]
pub enum AppError {
    /// A storage-level failure, carrying the storage layer's message.
    Database(String),
    MissingCredentials,
    InvalidPassword,
    UserDoesNotExist,
    UserAlreadyExists,
    InvalidToken,
    InternalServerError,
    NASAError,
    InvalidDateRange,
    /// Any other internal failure, carrying a description.
    Any(String),
}

impl AppError {
    /// The HTTP status code this error is reported with.
    pub open spec fn spec_status(&self) -> u16 {
        match self {
            AppError::Database(_) => 503,
            AppError::Any(_) => 500,
            AppError::MissingCredentials => 401,
            AppError::UserDoesNotExist => 401,
            AppError::UserAlreadyExists => 401,
            AppError::InvalidToken => 401,
            AppError::InvalidPassword => 401,
            AppError::InternalServerError => 500,
            AppError::NASAError => 500,
            AppError::InvalidDateRange => 400,
        }
    }

    /// The message this error is reported with.
    pub open spec fn spec_message(&self) -> Seq<char> {
        match self {
            AppError::Database(m) => m@,
            AppError::Any(m) => "Internal server error! "@ + m@,
            AppError::MissingCredentials => "Your credentials were missing or otherwise incorrect"@,
            AppError::UserDoesNotExist => "Your account does not exist!"@,
            AppError::UserAlreadyExists => "There is already an account with that email address in the system"@,
            AppError::InvalidToken => "Invalid Token"@,
            AppError::InvalidPassword => "Invalid Password"@,
            AppError::InternalServerError => "Something terrible happened"@,
            AppError::NASAError => "Something terrible happened with NASA"@,
            AppError::InvalidDateRange => "You used a value outside the legal date-range for NASA"@,
        }
    }

    /// Status code and body message of the HTTP response for this error.
    pub fn response_parts(&self) -> (r: (u16, String))
        ensures
            r.0 == self.spec_status(),
            r.1@ == self.spec_message(),
    {
        match self {
            AppError::Database(m) => (503, m.clone()),
            AppError::Any(m) => {
                let mut s = "Internal server error! ".to_owned();
                s.append(m.as_str());
                (500, s)
            },
            AppError::MissingCredentials => (
                401,
                "Your credentials were missing or otherwise incorrect".to_owned(),
            ),
            AppError::UserDoesNotExist => (401, "Your account does not exist!".to_owned()),
            AppError::UserAlreadyExists => (
                401,
                "There is already an account with that email address in the system".to_owned(),
            ),
            AppError::InvalidToken => (401, "Invalid Token".to_owned()),
            AppError::InvalidPassword => (401, "Invalid Password".to_owned()),
            AppError::InternalServerError => (500, "Something terrible happened".to_owned()),
            AppError::NASAError => (500, "Something terrible happened with NASA".to_owned()),
            AppError::InvalidDateRange => (
                400,
                "You used a value outside the legal date-range for NASA".to_owned(),
            ),
        }
    }
}

} // verus!
