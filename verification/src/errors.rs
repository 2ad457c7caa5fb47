use vstd::prelude::*;

verus! {

/// Error taxonomy of the service: failures of the durable store, and
/// configuration values rejected at startup.  Exceeding the rate limit is not
/// an error; it is an ordinary outcome of a rate-limit check.
#[derive(Debug)]
pub enum SecurityError {
    /// A durable-storage read, write or delete failed.
    Storage { message: String },
    /// A configuration value was invalid; detected at startup, not at call time.
    Configuration { message: String },
}

impl SecurityError {
    /// A short description of the error, suitable for reporting upward.
    pub fn message(&self) -> (r: &String)
        ensures
            *self matches SecurityError::Storage { message } ==> r@ == message@,
            *self matches SecurityError::Configuration { message } ==> r@ == message@,
    {
        match self {
            SecurityError::Storage { message } => message,
            SecurityError::Configuration { message } => message,
        }
    }
}

} // verus!
