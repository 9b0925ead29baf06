//! Why the ledger turns an operation down.

use vstd::prelude::*;

verus! {

/// The reasons for which an operation is rejected. A rejected operation
/// leaves the ledger as it was.
#[derive(Clone, Copy, Debug, PartialEq, Eq, Structural)]
pub enum FarmError {
    /// A transfer of nothing was asked for.
    ZeroAmount,
    /// Sender and receiver are the same identity.
    SelfTransfer,
    /// No fee was attached to an entry point that asks for one.
    DepositRequired,
    /// The attached fee is not exactly one unit.
    OneYoctoRequired,
    /// The message that came with a deposit names no known action.
    MalformedPayload,
    /// The gas that came with the call does not cover the notification.
    NotEnoughGas,
    /// The sender holds less than the amount.
    InsufficientBalance,
    /// The vault holds less than the amount.
    InsufficientVaultBalance,
    /// A deposit was announced by someone else than the token contract.
    NotBananaToken,
    /// The vault is bound to another receiver.
    NotVaultOwner,
    /// A resolution step was invoked by someone else than the ledger itself.
    NotSelf,
    /// The account to be credited is not registered.
    ReceiverMissing,
    /// No vault has this identifier.
    VaultMissing,
    /// Reward was offered while nothing is staked.
    NoStake,
    /// The fee attached to a registration is below the minimum.
    StorageDepositTooLow,
    /// A counter would leave the range of 128 (or 64) bits.
    Overflow,
}

/// The classes into which the reasons fall.
#[derive(Clone, Copy, Debug, PartialEq, Eq, Structural)]
pub enum ErrorKind {
    /// The request itself is ill-formed; a corrected request may succeed.
    Validation,
    /// More was asked for than is there.
    InsufficientBalance,
    /// The caller may not do this.
    Authorization,
    /// The storage fee was not met.
    StorageCost,
    /// The record the request names is not in the ledger.
    Missing,
    /// The request would take a counter out of range.
    Arithmetic,
}

impl FarmError {
    /// The class of this reason.
    pub open spec fn kind_of(self) -> ErrorKind {
        match self {
            FarmError::ZeroAmount => ErrorKind::Validation,
            FarmError::SelfTransfer => ErrorKind::Validation,
            FarmError::DepositRequired => ErrorKind::Validation,
            FarmError::OneYoctoRequired => ErrorKind::Validation,
            FarmError::MalformedPayload => ErrorKind::Validation,
            FarmError::NotEnoughGas => ErrorKind::Validation,
            FarmError::NoStake => ErrorKind::Validation,
            FarmError::InsufficientBalance => ErrorKind::InsufficientBalance,
            FarmError::InsufficientVaultBalance => ErrorKind::InsufficientBalance,
            FarmError::NotBananaToken => ErrorKind::Authorization,
            FarmError::NotVaultOwner => ErrorKind::Authorization,
            FarmError::NotSelf => ErrorKind::Authorization,
            FarmError::StorageDepositTooLow => ErrorKind::StorageCost,
            FarmError::ReceiverMissing => ErrorKind::Missing,
            FarmError::VaultMissing => ErrorKind::Missing,
            FarmError::Overflow => ErrorKind::Arithmetic,
        }
    }

    /// The class of this reason.
    pub fn kind(&self) -> (r: ErrorKind)
        ensures
            r == self.kind_of(),
    {
        match self {
            FarmError::ZeroAmount => ErrorKind::Validation,
            FarmError::SelfTransfer => ErrorKind::Validation,
            FarmError::DepositRequired => ErrorKind::Validation,
            FarmError::OneYoctoRequired => ErrorKind::Validation,
            FarmError::MalformedPayload => ErrorKind::Validation,
            FarmError::NotEnoughGas => ErrorKind::Validation,
            FarmError::NoStake => ErrorKind::Validation,
            FarmError::InsufficientBalance => ErrorKind::InsufficientBalance,
            FarmError::InsufficientVaultBalance => ErrorKind::InsufficientBalance,
            FarmError::NotBananaToken => ErrorKind::Authorization,
            FarmError::NotVaultOwner => ErrorKind::Authorization,
            FarmError::NotSelf => ErrorKind::Authorization,
            FarmError::StorageDepositTooLow => ErrorKind::StorageCost,
            FarmError::ReceiverMissing => ErrorKind::Missing,
            FarmError::VaultMissing => ErrorKind::Missing,
            FarmError::Overflow => ErrorKind::Arithmetic,
        }
    }
}

} // verus!
