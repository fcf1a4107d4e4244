use vstd::prelude::*;

verus! {

/// Why an instruction was rejected. Any error aborts the whole transaction.
#[derive(Clone, Copy, Debug, PartialEq, Eq, Structural)]
pub enum StoreError {
    /// The account list is shorter than the operation's roles.
    NotEnoughAccounts,
    /// A rent or system account is not the expected well-known address.
    InvalidWellKnownAddress,
    /// An account in a signer role did not sign the transaction.
    SignatureMissing,
    /// An account expected to belong to this program belongs to another.
    NotOwnedByProgram,
    /// An account expected to hold a record holds only zero bytes.
    NotInitialized,
    /// An account that is about to be created already holds storage.
    AlreadyInitialized,
    /// The token program account is not the expected program.
    UnexpectedExternalProgram,
    /// The new account's address does not derive from its seeds.
    AddressDerivationMismatch,
    /// The payer cannot fund the new account.
    InsufficientFunding,
    /// A name, symbol or uri is longer than its field.
    TextTooLong,
    /// Stored bytes do not have the layout of the expected record.
    MalformedRecord,
    /// The store's issued count is at its largest value.
    CounterOverflow,
}

} // verus!
