//! The three GLIN contracts and the records they keep.
//!
//! - [`EscrowContract`]: milestone-based payment escrow with dispute resolution
//! - [`RegistryContract`]: professional registration and reputation
//! - [`ArbitrationContract`]: dispute resolution through stake-weighted voting
//!
//! Each contract is a state machine. An operation names the account that
//! calls it and, where deadlines matter, the ledger time of the call; it
//! answers with a [`ContractResult`] and either applies in full or changes
//! nothing.

pub mod arbitration;
pub mod escrow;
pub mod registry;
pub mod types;

pub use arbitration::ArbitrationContract;
pub use escrow::EscrowContract;
pub use registry::RegistryContract;
pub use types::AccountId;
pub use types::Agreement;
pub use types::Arbitrator;
pub use types::Balance;
pub use types::ContractError;
pub use types::ContractResult;
pub use types::CreateAgreementParams;
pub use types::CreateDisputeParams;
pub use types::Dispute;
pub use types::DisputeStatus;
pub use types::Milestone;
pub use types::MilestoneStatus;
pub use types::ProfessionalProfile;
pub use types::ProfessionalRole;
pub use types::RegisterProfessionalParams;
pub use types::Review;
pub use types::SubmitReviewParams;
pub use types::Timestamp;
pub use types::VoteChoice;
pub use types::VoteParams;

use vstd::prelude::*;

verus! {

/// All three contracts side by side.
pub struct GlinContracts {
    pub escrow: EscrowContract,
    pub registry: RegistryContract,
    pub arbitration: ArbitrationContract,
}

/// The address that stands in for a contract whose address was not given: 32 zero bytes.
pub open spec fn spec_zero_address_bytes() -> Seq<u8> {
    Seq::new(32, |i: int| 0u8)
}

/// The address of 32 zero bytes.
pub fn zero_address() -> (address: AccountId)
    ensures
        address.spec_bytes() == spec_zero_address_bytes(),
{
    AccountId::new([0u8; 32])
}

impl GlinContracts {
    /// The three contracts, each empty and with standard settings, at the
    /// addresses given; a contract whose address is not given stands at the
    /// zero address.
    pub fn new(
        escrow_address: Option<AccountId>,
        registry_address: Option<AccountId>,
        arbitration_address: Option<AccountId>,
    ) -> (contracts: Self)
        ensures
            escrow_address matches Some(address) ==> contracts.escrow@.contract_address == address,
            escrow_address is None ==> contracts.escrow@.contract_address.spec_bytes()
                == spec_zero_address_bytes(),
            registry_address matches Some(address) ==> contracts.registry@.contract_address
                == address,
            registry_address is None ==> contracts.registry@.contract_address.spec_bytes()
                == spec_zero_address_bytes(),
            arbitration_address matches Some(address) ==> contracts.arbitration@.contract_address
                == address,
            arbitration_address is None ==> contracts.arbitration@.contract_address.spec_bytes()
                == spec_zero_address_bytes(),
            contracts.escrow@.agreements.len() == 0,
            contracts.registry@.profiles.len() == 0,
            contracts.registry@.min_stakes == registry::StakeConfig::spec_standard(),
            contracts.arbitration@.arbitrators.len() == 0,
            contracts.arbitration@.disputes.len() == 0,
            contracts.arbitration@.config == arbitration::ArbitrationConfig::spec_standard(),
            contracts.escrow@.wf(),
            contracts.registry@.wf(),
            contracts.arbitration@.wf(),
    {
        let zero = zero_address();
        GlinContracts {
            escrow: EscrowContract::new(
                match escrow_address {
                    Some(address) => address,
                    None => zero,
                },
            ),
            registry: RegistryContract::new(
                match registry_address {
                    Some(address) => address,
                    None => zero,
                },
            ),
            arbitration: ArbitrationContract::new(
                match arbitration_address {
                    Some(address) => address,
                    None => zero,
                },
            ),
        }
    }
}

} // verus!
