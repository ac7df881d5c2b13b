use vstd::prelude::*;

verus! {

/// Why an operation on the registry was rejected. A rejected operation
/// leaves the registry as it was.
#[derive(Clone, Copy, Debug, PartialEq, Eq, Structural)]
pub enum DidError {
    /// The identity string (or the record behind it) is not registered.
    NotFound,
    /// The identity string is registered already.
    AlreadyExists,
    /// The caller is not the current owner of the identity.
    Unauthorized,
    /// The identity string does not start with six ASCII decimal digits.
    InvalidChainScope,
    /// The chain prefix is well formed but names another chain.
    ChainMismatch,
    /// No delegate relation was ever created for this account and identity.
    NotADelegate,
    /// The new owner is the current owner.
    SelfTransfer,
}

/// The human-readable context that accompanies each error.
pub open spec fn error_text(e: DidError) -> Seq<char> {
    match e {
        DidError::NotFound => "identity not found"@,
        DidError::AlreadyExists => "DID already exists"@,
        DidError::Unauthorized => "caller is not the owner"@,
        DidError::InvalidChainScope => "identity does not start with a six-digit chain id"@,
        DidError::ChainMismatch => "Incorrect Chain Id in DID"@,
        DidError::NotADelegate => "This address isn't a delegate address"@,
        DidError::SelfTransfer => "Cannot transfer ownership to existing owner"@,
    }
}

impl DidError {
    pub fn message(&self) -> (r: String)
        ensures
            r@ == error_text(*self),
    {
        let text = match self {
            DidError::NotFound => "identity not found",
            DidError::AlreadyExists => "DID already exists",
            DidError::Unauthorized => "caller is not the owner",
            DidError::InvalidChainScope => "identity does not start with a six-digit chain id",
            DidError::ChainMismatch => "Incorrect Chain Id in DID",
            DidError::NotADelegate => "This address isn't a delegate address",
            DidError::SelfTransfer => "Cannot transfer ownership to existing owner",
        };
        text.to_owned()
    }
}

} // verus!
