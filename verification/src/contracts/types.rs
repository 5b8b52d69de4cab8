//! Records, parameters and results shared by the escrow, registry and
//! arbitration contracts.

use vstd::prelude::*;
use vstd::std_specs::cmp::PartialEqSpecImpl;
use vstd::string::StringExecFns;

verus! {

/// Amount of the native token, in its smallest unit.
pub type Balance = u128;

/// Ledger time: the block timestamp shared by all parties.
pub type Timestamp = u64;

/// Opaque 32-byte account identifier. Two identifiers are the same account
/// exactly when all their bytes agree; no order is implied.
#[derive(Debug, Clone, Copy, Eq, Hash)]
pub struct AccountId {
    bytes: [u8; 32],
}

impl AccountId {
    /// The 32 bytes of the identifier.
    pub closed spec fn spec_bytes(self) -> Seq<u8> {
        self.bytes@
    }

    /// Two identifiers with the same bytes are the same identifier.
    pub proof fn lemma_same_bytes(a: AccountId, b: AccountId)
        requires
            a.spec_bytes() == b.spec_bytes(),
        ensures
            a == b,
    {
        broadcast use vstd::array::group_array_axioms;

        assert(a.bytes =~= b.bytes);
    }

    /// Makes an identifier from its bytes.
    pub fn new(bytes: [u8; 32]) -> (id: AccountId)
        ensures
            id.spec_bytes() == bytes@,
    {
        AccountId { bytes }
    }

    /// Returns the bytes of the identifier.
    pub fn to_bytes(&self) -> (bytes: [u8; 32])
        ensures
            bytes@ == self.spec_bytes(),
    {
        self.bytes
    }
}

impl PartialEq for AccountId {
    fn eq(&self, other: &AccountId) -> (same: bool) {
        broadcast use vstd::array::group_array_axioms;

        let mut i: usize = 0;
        while i < 32
            invariant
                i <= 32,
                forall|k: int| 0 <= k < i ==> self.bytes[k] == other.bytes[k],
            decreases 32 - i,
        {
            if self.bytes[i] != other.bytes[i] {
                return false;
            }
            i += 1;
        }
        assert(self.bytes =~= other.bytes);
        true
    }
}

impl PartialEqSpecImpl for AccountId {
    open spec fn obeys_eq_spec() -> bool {
        true
    }

    open spec fn eq_spec(&self, other: &AccountId) -> bool {
        *self == *other
    }
}

/// In a list of accounts without repetition, an account found at a position
/// is found at no other.
pub proof fn lemma_account_position(accounts: Seq<AccountId>, who: AccountId, position: int)
    requires
        accounts.no_duplicates(),
        0 <= position < accounts.len(),
        accounts[position] == who,
    ensures
        accounts.contains(who),
        accounts.index_of(who) == position,
{
    let chosen = accounts.index_of(who);
}

// ============================================================================
// Errors and the result envelope
// ============================================================================

/// Why a contract refused an operation.
#[derive(Debug, Clone, Copy, PartialEq, Eq, Structural)]
pub enum ContractError {
    /// The caller does not hold the role the operation asks for.
    NotAuthorized,
    /// The operation is not valid from the current state.
    InvalidState,
    /// The stake offered is below the minimum.
    InsufficientStake,
    /// The caller is registered already.
    AlreadyRegistered,
    /// The arbitrator has voted on this dispute already.
    AlreadyVoted,
    /// The voting window is over.
    VotingClosed,
    /// Milestone lists differ in length, or their amounts do not add up to the deposit.
    AmountMismatch,
    /// A rating outside 1 to 5.
    InvalidRating,
    /// No record under the given id.
    NotFound,
    /// The ledger client could not deliver the request; never raised by the contracts themselves.
    TransportFailure,
}

impl ContractError {
    /// The text under which the error appears in a [`ContractResult`].
    pub open spec fn spec_message(self) -> Seq<char> {
        match self {
            ContractError::NotAuthorized => "NotAuthorized"@,
            ContractError::InvalidState => "InvalidState"@,
            ContractError::InsufficientStake => "InsufficientStake"@,
            ContractError::AlreadyRegistered => "AlreadyRegistered"@,
            ContractError::AlreadyVoted => "AlreadyVoted"@,
            ContractError::VotingClosed => "VotingClosed"@,
            ContractError::AmountMismatch => "AmountMismatch"@,
            ContractError::InvalidRating => "InvalidRating"@,
            ContractError::NotFound => "NotFound"@,
            ContractError::TransportFailure => "TransportFailure"@,
        }
    }

    /// The text under which the error appears in a [`ContractResult`].
    pub fn message(&self) -> (text: String)
        ensures
            text@ == self.spec_message(),
    {
        match self {
            ContractError::NotAuthorized => String::from_str("NotAuthorized"),
            ContractError::InvalidState => String::from_str("InvalidState"),
            ContractError::InsufficientStake => String::from_str("InsufficientStake"),
            ContractError::AlreadyRegistered => String::from_str("AlreadyRegistered"),
            ContractError::AlreadyVoted => String::from_str("AlreadyVoted"),
            ContractError::VotingClosed => String::from_str("VotingClosed"),
            ContractError::AmountMismatch => String::from_str("AmountMismatch"),
            ContractError::InvalidRating => String::from_str("InvalidRating"),
            ContractError::NotFound => String::from_str("NotFound"),
            ContractError::TransportFailure => String::from_str("TransportFailure"),
        }
    }

    /// Every error text is non-empty, and no two errors share a text: the
    /// envelope's `error` field names the error without ambiguity.
    pub proof fn lemma_messages_distinct(a: ContractError, b: ContractError)
        ensures
            a.spec_message().len() > 0,
            a.spec_message() == b.spec_message() ==> a == b,
    {
        reveal_strlit("NotAuthorized");
        reveal_strlit("InvalidState");
        reveal_strlit("InsufficientStake");
        reveal_strlit("AlreadyRegistered");
        reveal_strlit("AlreadyVoted");
        reveal_strlit("VotingClosed");
        reveal_strlit("AmountMismatch");
        reveal_strlit("InvalidRating");
        reveal_strlit("NotFound");
        reveal_strlit("TransportFailure");
        if a.spec_message() == b.spec_message() {
            assert(a.spec_message().len() == b.spec_message().len());
            assert(a.spec_message()[2] == b.spec_message()[2]);
        }
    }
}

/// Result from a contract call: the uniform envelope of every state-changing operation.
#[derive(Debug, Clone)]
pub struct ContractResult<T> {
    pub success: bool,
    pub data: Option<T>,
    pub error: Option<String>,
    pub gas_consumed: Option<u64>,
}

impl<T> ContractResult<T> {
    /// The envelope pairs success with data and no error, and failure with a
    /// non-empty error and no data.
    pub open spec fn well_formed(self) -> bool {
        if self.success {
            self.data is Some && self.error is None
        } else {
            self.data is None && self.error is Some && self.error->0@.len() > 0
        }
    }

    /// Whether the envelope carries exactly `outcome`: the value of a success,
    /// or the text of the error of a failure. No gas figure is attached.
    pub open spec fn reports(self, outcome: Result<T, ContractError>) -> bool {
        &&& self.gas_consumed is None
        &&& match outcome {
            Ok(value) => self.success && self.data == Some(value) && self.error is None,
            Err(e) => !self.success && self.data is None && self.error is Some
                && self.error->0@ == e.spec_message(),
        }
    }

    /// An envelope that reports an outcome is well formed.
    pub proof fn lemma_reports_well_formed(self, outcome: Result<T, ContractError>)
        requires
            self.reports(outcome),
        ensures
            self.well_formed(),
            self.success == (outcome is Ok),
    {
        if let Err(e) = outcome {
            ContractError::lemma_messages_distinct(e, e);
        }
    }

    /// An envelope reports at most one outcome.
    pub proof fn lemma_reports_unique(
        self,
        first: Result<T, ContractError>,
        second: Result<T, ContractError>,
    )
        requires
            self.reports(first),
            self.reports(second),
        ensures
            first == second,
    {
        if let Err(a) = first {
            if let Err(b) = second {
                ContractError::lemma_messages_distinct(a, b);
            }
        }
    }

    /// The successful envelope carrying `data`.
    pub fn ok(data: T) -> (result: Self)
        ensures
            result.reports(Ok(data)),
            result.well_formed(),
    {
        ContractResult { success: true, data: Some(data), error: None, gas_consumed: None }
    }

    /// The failed envelope carrying the text `error`.
    pub fn err(error: &str) -> (result: Self)
        ensures
            !result.success,
            result.data is None,
            result.error is Some,
            result.error->0@ == error@,
            result.gas_consumed is None,
    {
        ContractResult {
            success: false,
            data: None,
            error: Some(String::from_str(error)),
            gas_consumed: None,
        }
    }

    /// The failed envelope for a refusal by a contract.
    pub fn fail(error: ContractError) -> (result: Self)
        ensures
            result.reports(Err(error)),
            result.well_formed(),
    {
        proof {
            ContractError::lemma_messages_distinct(error, error);
        }
        ContractResult {
            success: false,
            data: None,
            error: Some(error.message()),
            gas_consumed: None,
        }
    }
}

// ============================================================================
// Escrow
// ============================================================================

/// Milestone status.
#[derive(Debug, Clone, Copy, PartialEq, Eq, Structural)]
pub enum MilestoneStatus {
    Pending,
    Completed,
    Disputed,
    Resolved,
    Cancelled,
}

/// Milestone information.
#[derive(Debug)]
pub struct Milestone {
    pub description: String,
    pub amount: Balance,
    pub status: MilestoneStatus,
    pub deadline: Timestamp,
    pub oracle_verification: bool,
}

impl Clone for Milestone {
    fn clone(&self) -> (copy: Self)
        ensures
            copy == *self,
    {
        Milestone {
            description: self.description.clone(),
            amount: self.amount,
            status: self.status,
            deadline: self.deadline,
            oracle_verification: self.oracle_verification,
        }
    }
}

/// Escrow agreement.
#[derive(Debug, Clone, Copy)]
pub struct Agreement {
    pub client: AccountId,
    pub provider: AccountId,
    pub total_amount: Balance,
    pub deposited_amount: Balance,
    pub created_at: Timestamp,
    pub dispute_timeout: Timestamp,
    pub oracle: Option<AccountId>,
    pub is_active: bool,
}

/// Parameters for creating an agreement.
#[derive(Debug, Clone)]
pub struct CreateAgreementParams {
    pub provider: AccountId,
    pub milestone_descriptions: Vec<String>,
    pub milestone_amounts: Vec<Balance>,
    pub milestone_deadlines: Vec<Timestamp>,
    pub dispute_timeout: Timestamp,
    pub oracle: Option<AccountId>,
    pub value: Balance,
}

// ============================================================================
// Registry
// ============================================================================

/// Professional role types.
#[derive(Debug, Clone, Copy, PartialEq, Eq, Structural)]
pub enum ProfessionalRole {
    Lawyer,
    Doctor,
    Arbitrator,
    Notary,
    Auditor,
    ConsultantOther,
}

/// Professional profile.
#[derive(Debug)]
pub struct ProfessionalProfile {
    pub account: AccountId,
    pub role: ProfessionalRole,
    pub stake_amount: Balance,
    pub reputation_score: u32,
    pub total_jobs: u32,
    pub successful_jobs: u32,
    pub registered_at: Timestamp,
    pub is_active: bool,
    pub metadata_uri: String,
}

impl Clone for ProfessionalProfile {
    fn clone(&self) -> (copy: Self)
        ensures
            copy == *self,
    {
        ProfessionalProfile {
            account: self.account,
            role: self.role,
            stake_amount: self.stake_amount,
            reputation_score: self.reputation_score,
            total_jobs: self.total_jobs,
            successful_jobs: self.successful_jobs,
            registered_at: self.registered_at,
            is_active: self.is_active,
            metadata_uri: self.metadata_uri.clone(),
        }
    }
}

/// Review information. The rating lies between 1 and 5.
#[derive(Debug)]
pub struct Review {
    pub reviewer: AccountId,
    pub rating: u8,
    pub comment: String,
    pub timestamp: Timestamp,
}

impl Clone for Review {
    fn clone(&self) -> (copy: Self)
        ensures
            copy == *self,
    {
        Review {
            reviewer: self.reviewer,
            rating: self.rating,
            comment: self.comment.clone(),
            timestamp: self.timestamp,
        }
    }
}

/// Parameters for registering as a professional.
#[derive(Debug, Clone)]
pub struct RegisterProfessionalParams {
    pub role: ProfessionalRole,
    pub metadata_uri: String,
    pub stake_amount: Balance,
}

/// Parameters for submitting a review.
#[derive(Debug, Clone)]
pub struct SubmitReviewParams {
    pub professional: AccountId,
    pub rating: u8,
    pub comment: String,
}

// ============================================================================
// Arbitration
// ============================================================================

/// Dispute status.
#[derive(Debug, Clone, Copy, PartialEq, Eq, Structural)]
pub enum DisputeStatus {
    Open,
    Voting,
    Resolved,
    Appealed,
    Cancelled,
}

/// Vote choice for disputes.
#[derive(Debug, Clone, Copy, PartialEq, Eq, Structural)]
pub enum VoteChoice {
    InFavorOfClaimant,
    InFavorOfDefendant,
}

/// Dispute information.
#[derive(Debug)]
pub struct Dispute {
    pub dispute_id: u128,
    pub claimant: AccountId,
    pub defendant: AccountId,
    pub description: String,
    pub evidence_uri: String,
    pub status: DisputeStatus,
    pub created_at: Timestamp,
    pub voting_ends_at: Timestamp,
    pub votes_for_claimant: Balance,
    pub votes_for_defendant: Balance,
    pub resolution: Option<VoteChoice>,
    pub can_appeal: bool,
}

impl Clone for Dispute {
    fn clone(&self) -> (copy: Self)
        ensures
            copy == *self,
    {
        Dispute {
            dispute_id: self.dispute_id,
            claimant: self.claimant,
            defendant: self.defendant,
            description: self.description.clone(),
            evidence_uri: self.evidence_uri.clone(),
            status: self.status,
            created_at: self.created_at,
            voting_ends_at: self.voting_ends_at,
            votes_for_claimant: self.votes_for_claimant,
            votes_for_defendant: self.votes_for_defendant,
            resolution: self.resolution,
            can_appeal: self.can_appeal,
        }
    }
}

/// Arbitrator information.
#[derive(Debug, Clone, Copy)]
pub struct Arbitrator {
    pub account: AccountId,
    pub stake: Balance,
    pub disputes_participated: u32,
    pub disputes_resolved: u32,
    pub reputation: u32,
    pub is_active: bool,
}

/// Parameters for creating a dispute.
#[derive(Debug, Clone)]
pub struct CreateDisputeParams {
    pub defendant: AccountId,
    pub description: String,
    pub evidence_uri: String,
}

/// Parameters for voting on a dispute.
#[derive(Debug, Clone, Copy)]
pub struct VoteParams {
    pub dispute_id: u128,
    pub choice: VoteChoice,
}

} // verus!
