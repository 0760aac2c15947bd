//! What can go wrong.

use vstd::prelude::*;

verus! {

/// The ways in which the library fails.
#[derive(Clone, Copy, Debug, PartialEq, Eq, Structural)]
pub enum CrackerError {
    /// The target address is no address in any known form.
    UnparsableAddress,
    /// The target address is an address of another network than the main one.
    WrongNetwork,
    /// The seed of a phrase gives no valid master key.
    MasterKeyDerivation,
    /// A segment of a derivation path is out of the range of 31 bits.
    InvalidDerivationPath,
    /// A key on the derivation path could not be derived.
    ChildKeyDerivation,
}

impl CrackerError {
    /// Whether the error is one of the target address, met before any search
    /// starts.
    pub open spec fn is_address_error(self) -> bool {
        self == CrackerError::UnparsableAddress || self == CrackerError::WrongNetwork
    }

    /// A short text for the error.
    pub fn message(&self) -> (text: &'static str)
        ensures
            text@ == match *self {
                CrackerError::UnparsableAddress => "Unparsable Address"@,
                CrackerError::WrongNetwork => "Wrong Network"@,
                CrackerError::MasterKeyDerivation => "Failed to create master Xpriv"@,
                CrackerError::InvalidDerivationPath => "Invalid path"@,
                CrackerError::ChildKeyDerivation => "Failed deriving child xpriv"@,
            },
    {
        match self {
            CrackerError::UnparsableAddress => "Unparsable Address",
            CrackerError::WrongNetwork => "Wrong Network",
            CrackerError::MasterKeyDerivation => "Failed to create master Xpriv",
            CrackerError::InvalidDerivationPath => "Invalid path",
            CrackerError::ChildKeyDerivation => "Failed deriving child xpriv",
        }
    }
}

} // verus!
