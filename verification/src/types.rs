//! Plain records describing what the GLIN chain stores about accounts, tasks
//! and providers.

use vstd::prelude::*;

verus! {

/// Account balance information.
#[derive(Debug, Clone, Copy, PartialEq, Eq, Structural)]
pub struct Balance {
    pub free: u128,
    pub reserved: u128,
    pub frozen: u128,
    pub total: u128,
}

/// Task status on chain.
#[derive(Debug, Clone, Copy, PartialEq, Eq, Structural)]
pub enum TaskStatus {
    Pending,
    Recruiting,
    Running,
    Validating,
    Completed,
    Failed,
    Cancelled,
}

/// On-chain task representation.
#[derive(Debug, Clone)]
pub struct ChainTask {
    pub id: Vec<u8>,
    pub creator: String,
    pub bounty: u128,
    pub min_providers: u32,
    pub max_providers: u32,
    pub ipfs_hash: Vec<u8>,
    pub status: TaskStatus,
}

/// Hardware tier of a provider.
#[derive(Debug, Clone, Copy, PartialEq, Eq, Structural)]
pub enum HardwareTier {
    Consumer,
    Prosumer,
    Professional,
}

/// Provider status on chain.
#[derive(Debug, Clone, Copy, PartialEq, Eq, Structural)]
pub enum ProviderStatus {
    Active,
    Idle,
    Busy,
    Offline,
    Suspended,
    Unbonding,
}

/// On-chain provider representation.
#[derive(Debug, Clone)]
pub struct ChainProvider {
    pub account: String,
    pub stake: u128,
    pub reputation_score: u32,
    pub hardware_tier: HardwareTier,
    pub status: ProviderStatus,
    pub is_slashed: bool,
}

/// Authentication result.
#[derive(Debug, Clone)]
pub struct AuthResult {
    pub address: String,
    pub signature: String,
    pub message: String,
    pub timestamp: u64,
}

} // verus!
