//! The accounting core of a staking ledger.
//!
//! Identities stake a token with the ledger and share, in proportion to
//! their stake, the reward that is injected into it. The reward is
//! distributed through a running rate per unit of stake; each record settles
//! what it has earned when it is next touched. Stake moves between records
//! directly, by a push-then-reconcile protocol, or through escrow vaults.
//!
//! The ledger is [`Farm`]. Its state is modelled by [`model::LedgerView`],
//! and every operation keeps the invariant [`model::LedgerView::inv`]: the
//! stake in circulation is what the records hold, what waits in a vault
//! being out of circulation until it is drawn or returned, and what is owed
//! to the records never exceeds what was received. What holds of all
//! sequences of operations is stated in [`laws`].
//!
//! The ledger does no input or output. The caller hands it what the host
//! knows (who calls, what fee and gas came with the call, the digest of an
//! identifier) and carries out what the ledger hands back (a payment, a
//! notification to dispatch).

pub mod account;
pub mod accounts;
pub mod error;
pub mod farm;
pub mod identity;
pub mod laws;
pub mod model;
pub mod receiver;
pub mod rewards;
pub mod state;
pub mod storage;
pub mod sums;
pub mod transfer;
pub mod vault;
pub mod vaults;
pub mod wide;

pub use account::{Account, HumanAccount, HumanStats, NEAR_PER_CUCUMBER_DENOM};
pub use error::{ErrorKind, FarmError};
pub use farm::Farm;
pub use identity::{Identity, ShortAccountHash};
pub use receiver::OnReceiverPayload;
pub use state::FarmState;
pub use vault::{Vault, VaultId};
