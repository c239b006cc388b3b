use vstd::prelude::*;

verus! {

/// The error taxonomy of the channel hierarchy.
///
/// - `Validation`: a malformed or impossible calendar date was supplied.
/// - `Duplicate`: the key (for instance an (actor, date) pair) already exists.
/// - `NotFound`: an unknown actor, or an unknown date merged with a wrong
///   password so that callers cannot use the error as a password oracle.
/// - `Backend`: the messaging backend failed, or a required directory fetch
///   returned no usable message.
/// - `Crypto`: authenticated decryption of a persisted state blob failed.
#[derive(Clone, Copy, Debug, PartialEq, Eq, Structural)]
pub enum ChannelError {
    Validation,
    Duplicate,
    NotFound,
    Backend,
    Crypto,
}

impl ChannelError {
    pub fn is_validation(&self) -> (r: bool)
        ensures
            r == (*self == ChannelError::Validation),
    {
        matches!(self, ChannelError::Validation)
    }

    pub fn is_duplicate(&self) -> (r: bool)
        ensures
            r == (*self == ChannelError::Duplicate),
    {
        matches!(self, ChannelError::Duplicate)
    }

    pub fn is_not_found(&self) -> (r: bool)
        ensures
            r == (*self == ChannelError::NotFound),
    {
        matches!(self, ChannelError::NotFound)
    }

    pub fn is_backend(&self) -> (r: bool)
        ensures
            r == (*self == ChannelError::Backend),
    {
        matches!(self, ChannelError::Backend)
    }

    pub fn is_crypto(&self) -> (r: bool)
        ensures
            r == (*self == ChannelError::Crypto),
    {
        matches!(self, ChannelError::Crypto)
    }

    /// A short human-readable description of the error.
    pub fn message(&self) -> &'static str {
        match self {
            ChannelError::Validation => "invalid calendar date",
            ChannelError::Duplicate => "entry already exists",
            ChannelError::NotFound => "unknown entry or wrong password",
            ChannelError::Backend => "backend failure",
            ChannelError::Crypto => "state decryption failed",
        }
    }
}

} // verus!
