//! Milestone escrow, professional registry and stake-weighted arbitration for the
//! GLIN network, written as verified state machines.
//!
//! Every state-changing operation of the three contracts is a method that
//! either applies completely or leaves the state untouched, and whose outcome
//! is fixed by a specification function over a mathematical view of the state.

pub mod auth;
pub mod contracts;
pub mod types;

pub use auth::GlinAuth;
pub use contracts::GlinContracts;
pub use types::AuthResult;
pub use types::ChainProvider;
pub use types::ChainTask;
pub use types::HardwareTier;
pub use types::ProviderStatus;
pub use types::TaskStatus;

use vstd::prelude::*;

verus! {

/// SDK version.
pub const VERSION: &'static str = "0.1.0";

} // verus!
