use vstd::prelude::*;

verus! {

/// An authentication failure, carried as a message for the caller to report.
#[derive(Debug)]
pub struct AuthError {
    /// What went wrong, in words.
    pub message: String,
}

impl AuthError {
    /// Wraps a failure message.
    pub fn new(message: String) -> (r: AuthError)
        ensures
            r.message == message,
    {
        AuthError { message }
    }
}

/// What a login attempt carries: an email address and a password.
#[derive(Clone, Debug)]
pub struct Credentials {
    /// The address the caller claims.
    pub email: String,
    /// The password offered for it.
    pub password: String,
}

} // verus!
