//! Accounting and rotation engine for a rotating savings and credit
//! association (ROSCA): members pay a fixed amount into a pool every cycle,
//! and each cycle one member, following the rotation order, receives the pool.

pub mod error;
pub mod status;
pub mod address;
pub mod group;
pub mod pool;
pub mod contribution;
pub mod payout;
pub mod units;
pub mod ledger;
pub mod events;
pub mod contract;
pub mod cycle_advancement;
pub mod storage;
pub mod laws;

pub use address::Address;
pub use contract::{ContractConfig, Invocation, StellarSaveContract};
pub use contribution::ContributionRecord;
pub use error::{ContractResult, ErrorCategory, StellarSaveError};
pub use events::EventEmitter;
pub use group::{Group, GroupStatus};
pub use ledger::{AssignmentMode, GroupLedger, MemberProfile, PayoutScheduleEntry};
pub use payout::PayoutRecord;
pub use pool::{PoolCalculator, PoolInfo};
pub use status::StatusError;
pub use storage::{StorageKey, StorageKeyBuilder};
