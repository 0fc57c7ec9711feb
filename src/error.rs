use vstd::prelude::*;

verus! {

/// Why an entry point refused to act.
#[derive(Clone, Copy, Debug, PartialEq, Eq, Structural)]
pub enum LinkDropError {
    /// An account was requested with no code, no full-access key and no limited-access key.
    InvalidConfiguration,
    /// A continuation did not see exactly one result of the operation it awaited.
    MalformedCallback,
    /// A continuation was invoked by an account other than the contract itself.
    UnauthorizedCallback,
    /// No balance is reserved under the key.
    KeyNotFound,
}

impl LinkDropError {
    /// The message with which the contract aborts on this error.
    pub fn message(&self) -> (r: &'static str)
        ensures
            r@ == match *self {
                LinkDropError::InvalidConfiguration => "Cannot create account with no options. Please specify either contract bytes, full access keys, or limited access keys."@,
                LinkDropError::MalformedCallback => "Contract expected a result on the callback"@,
                LinkDropError::UnauthorizedCallback => "Callback can only be called from the contract"@,
                LinkDropError::KeyNotFound => "Key is missing"@,
            },
    {
        match self {
            LinkDropError::InvalidConfiguration => "Cannot create account with no options. Please specify either contract bytes, full access keys, or limited access keys.",
            LinkDropError::MalformedCallback => "Contract expected a result on the callback",
            LinkDropError::UnauthorizedCallback => "Callback can only be called from the contract",
            LinkDropError::KeyNotFound => "Key is missing",
        }
    }
}

} // verus!
