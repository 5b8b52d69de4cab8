//! Arbitration: disputes between a claimant and a defendant, decided by the
//! stake-weighted votes of registered arbitrators.

use super::types::lemma_account_position;
use super::types::AccountId;
use super::types::Arbitrator;
use super::types::Balance;
use super::types::ContractError;
use super::types::ContractResult;
use super::types::CreateDisputeParams;
use super::types::Dispute;
use super::types::DisputeStatus;
use super::types::Timestamp;
use super::types::VoteChoice;
use super::types::VoteParams;
use vstd::prelude::*;

verus! {

// ============================================================================
// Settings and votes
// ============================================================================

/// The settings of an arbitration contract.
#[derive(Debug, Clone, Copy)]
pub struct ArbitrationConfig {
    /// The least stake with which an arbitrator may register.
    pub min_arbitrator_stake: Balance,
    /// How long a voting window stays open.
    pub voting_period: Timestamp,
    /// How long after a resolution the losing party may appeal.
    pub appeal_period: Timestamp,
}

impl ArbitrationConfig {
    /// The settings a contract starts with unless told otherwise: a minimum
    /// stake of 100 tokens of 18 decimals, and, in milliseconds, seven days
    /// of voting and three days to appeal.
    pub open spec fn spec_standard() -> ArbitrationConfig {
        ArbitrationConfig {
            min_arbitrator_stake: 100_000_000_000_000_000_000,
            voting_period: 604_800_000,
            appeal_period: 259_200_000,
        }
    }

    /// The standard settings.
    pub fn standard() -> (config: ArbitrationConfig)
        ensures
            config == Self::spec_standard(),
    {
        ArbitrationConfig {
            min_arbitrator_stake: 100_000_000_000_000_000_000,
            voting_period: 604_800_000,
            appeal_period: 259_200_000,
        }
    }
}

/// One vote as cast: who voted, for whom, and with what weight. The weight
/// is the arbitrator's stake at the moment of voting and is never read again
/// from the arbitrator.
#[derive(Debug, Clone, Copy)]
pub struct VoteRecord {
    pub arbitrator: AccountId,
    pub choice: VoteChoice,
    pub weight: Balance,
}

/// Sum of the weights of the votes cast for `choice`.
pub open spec fn weight_for(votes: Seq<VoteRecord>, choice: VoteChoice) -> nat
    decreases votes.len(),
{
    if votes.len() == 0 {
        0
    } else {
        weight_for(votes.drop_last(), choice) + if votes.last().choice == choice {
            votes.last().weight as nat
        } else {
            0
        }
    }
}

/// One more unit, unless the counter is full.
pub open spec fn bumped(counter: u32) -> u32 {
    if counter == u32::MAX {
        counter
    } else {
        (counter + 1) as u32
    }
}

/// The arbitrator after one more dispute: one more participation, and, if
/// the vote was with the majority, one more resolved dispute and one more
/// point of reputation.
pub open spec fn credit(a: Arbitrator, with_majority: bool) -> Arbitrator {
    Arbitrator {
        account: a.account,
        stake: a.stake,
        disputes_participated: bumped(a.disputes_participated),
        disputes_resolved: if with_majority {
            bumped(a.disputes_resolved)
        } else {
            a.disputes_resolved
        },
        reputation: if with_majority {
            bumped(a.reputation)
        } else {
            a.reputation
        },
        is_active: a.is_active,
    }
}

/// The arbitrators after the caster of `vote` was credited.
pub open spec fn credit_one(arbitrators: Seq<Arbitrator>, vote: VoteRecord, winner: VoteChoice)
    -> Seq<Arbitrator> {
    arbitrators.map_values(
        |a: Arbitrator|
            if a.account == vote.arbitrator {
                credit(a, vote.choice == winner)
            } else {
                a
            },
    )
}

/// The arbitrators after the casters of all `votes` were credited.
pub open spec fn credited(arbitrators: Seq<Arbitrator>, votes: Seq<VoteRecord>, winner: VoteChoice)
    -> Seq<Arbitrator>
    decreases votes.len(),
{
    if votes.len() == 0 {
        arbitrators
    } else {
        credit_one(credited(arbitrators, votes.drop_last(), winner), votes.last(), winner)
    }
}

/// The accounts of a list of arbitrators.
pub open spec fn accounts_of(arbitrators: Seq<Arbitrator>) -> Seq<AccountId> {
    arbitrators.map_values(|a: Arbitrator| a.account)
}

/// Crediting changes counters and reputation only: accounts, stakes and
/// activity stay as they are.
pub proof fn lemma_credited_keeps_stakes(
    arbitrators: Seq<Arbitrator>,
    votes: Seq<VoteRecord>,
    winner: VoteChoice,
)
    ensures
        credited(arbitrators, votes, winner).len() == arbitrators.len(),
        accounts_of(credited(arbitrators, votes, winner)) == accounts_of(arbitrators),
        forall|i: int|
            0 <= i < arbitrators.len() ==> (#[trigger] credited(arbitrators, votes, winner)[i]).stake
                == arbitrators[i].stake && credited(arbitrators, votes, winner)[i].is_active
                == arbitrators[i].is_active && credited(arbitrators, votes, winner)[i].account
                == arbitrators[i].account,
    decreases votes.len(),
{
    if votes.len() > 0 {
        lemma_credited_keeps_stakes(arbitrators, votes.drop_last(), winner);
    }
}

// ============================================================================
// The arbitration as a mathematical state machine
// ============================================================================

/// What the contract holds about one dispute.
pub struct DisputeState {
    /// The dispute as queries return it.
    pub dispute: Dispute,
    /// The votes of the current round, in the order cast.
    pub votes: Seq<VoteRecord>,
    /// Whether an appeal round is open or awaits its finalization.
    pub appeal_pending: bool,
    /// When the dispute was last resolved; meaningful once it was.
    pub resolved_at: Timestamp,
}

impl DisputeState {
    /// Who has voted in the current round, in the order of voting.
    pub open spec fn voters(self) -> Seq<AccountId> {
        self.votes.map_values(|v: VoteRecord| v.arbitrator)
    }

    /// The tallies are the sums of the recorded weights, nobody has voted
    /// twice, a resolution is set exactly in the statuses `Resolved` and
    /// `Appealed`, an appeal is only ever possible or pending where the
    /// statuses allow it, and there are no votes before voting has started.
    pub open spec fn wf(self) -> bool {
        &&& self.dispute.votes_for_claimant == weight_for(
            self.votes,
            VoteChoice::InFavorOfClaimant,
        )
        &&& self.dispute.votes_for_defendant == weight_for(
            self.votes,
            VoteChoice::InFavorOfDefendant,
        )
        &&& self.voters().no_duplicates()
        &&& (self.dispute.resolution is Some) == (self.dispute.status == DisputeStatus::Resolved
            || self.dispute.status == DisputeStatus::Appealed)
        &&& self.appeal_pending ==> self.dispute.status == DisputeStatus::Appealed
        &&& self.dispute.can_appeal ==> self.dispute.status == DisputeStatus::Resolved
        &&& self.dispute.status == DisputeStatus::Open ==> self.votes.len() == 0
    }

    /// Whether a voting round is running or awaits its finalization: the
    /// first round in status `Voting`, the appeal round while it is pending.
    pub open spec fn round_open(self) -> bool {
        self.dispute.status == DisputeStatus::Voting || (self.dispute.status
            == DisputeStatus::Appealed && self.appeal_pending)
    }

    /// The side with strictly more weight; the defendant on a tie.
    pub open spec fn winner(self) -> VoteChoice {
        if self.dispute.votes_for_claimant > self.dispute.votes_for_defendant {
            VoteChoice::InFavorOfClaimant
        } else {
            VoteChoice::InFavorOfDefendant
        }
    }

    /// The party against whom the dispute was resolved; meaningful once it was.
    pub open spec fn losing_party(self) -> AccountId {
        if self.dispute.resolution == Some(VoteChoice::InFavorOfClaimant) {
            self.dispute.defendant
        } else {
            self.dispute.claimant
        }
    }

    /// A dispute as `create_dispute` records it.
    pub open spec fn opened(id: u128, params: CreateDisputeParams, caller: AccountId, now: Timestamp)
        -> DisputeState {
        DisputeState {
            dispute: Dispute {
                dispute_id: id,
                claimant: caller,
                defendant: params.defendant,
                description: params.description,
                evidence_uri: params.evidence_uri,
                status: DisputeStatus::Open,
                created_at: now,
                voting_ends_at: 0,
                votes_for_claimant: 0,
                votes_for_defendant: 0,
                resolution: None,
                can_appeal: false,
            },
            votes: Seq::empty(),
            appeal_pending: false,
            resolved_at: 0,
        }
    }

    /// The dispute withdrawn by its claimant before any voting.
    pub open spec fn withdrawn(self) -> DisputeState {
        DisputeState {
            dispute: Dispute {
                dispute_id: self.dispute.dispute_id,
                claimant: self.dispute.claimant,
                defendant: self.dispute.defendant,
                description: self.dispute.description,
                evidence_uri: self.dispute.evidence_uri,
                status: DisputeStatus::Cancelled,
                created_at: self.dispute.created_at,
                voting_ends_at: self.dispute.voting_ends_at,
                votes_for_claimant: self.dispute.votes_for_claimant,
                votes_for_defendant: self.dispute.votes_for_defendant,
                resolution: self.dispute.resolution,
                can_appeal: self.dispute.can_appeal,
            },
            votes: self.votes,
            appeal_pending: self.appeal_pending,
            resolved_at: self.resolved_at,
        }
    }

    /// The dispute with a voting window that closes at `ends_at`.
    pub open spec fn voting_until(self, ends_at: Timestamp) -> DisputeState {
        DisputeState {
            dispute: Dispute {
                dispute_id: self.dispute.dispute_id,
                claimant: self.dispute.claimant,
                defendant: self.dispute.defendant,
                description: self.dispute.description,
                evidence_uri: self.dispute.evidence_uri,
                status: DisputeStatus::Voting,
                created_at: self.dispute.created_at,
                voting_ends_at: ends_at,
                votes_for_claimant: self.dispute.votes_for_claimant,
                votes_for_defendant: self.dispute.votes_for_defendant,
                resolution: self.dispute.resolution,
                can_appeal: self.dispute.can_appeal,
            },
            votes: self.votes,
            appeal_pending: self.appeal_pending,
            resolved_at: self.resolved_at,
        }
    }

    /// The dispute with one more vote, its weight added to the tally of its choice.
    pub open spec fn with_vote(self, vote: VoteRecord) -> DisputeState {
        DisputeState {
            dispute: Dispute {
                dispute_id: self.dispute.dispute_id,
                claimant: self.dispute.claimant,
                defendant: self.dispute.defendant,
                description: self.dispute.description,
                evidence_uri: self.dispute.evidence_uri,
                status: self.dispute.status,
                created_at: self.dispute.created_at,
                voting_ends_at: self.dispute.voting_ends_at,
                votes_for_claimant: if vote.choice == VoteChoice::InFavorOfClaimant {
                    (self.dispute.votes_for_claimant + vote.weight) as u128
                } else {
                    self.dispute.votes_for_claimant
                },
                votes_for_defendant: if vote.choice == VoteChoice::InFavorOfDefendant {
                    (self.dispute.votes_for_defendant + vote.weight) as u128
                } else {
                    self.dispute.votes_for_defendant
                },
                resolution: self.dispute.resolution,
                can_appeal: self.dispute.can_appeal,
            },
            votes: self.votes.push(vote),
            appeal_pending: self.appeal_pending,
            resolved_at: self.resolved_at,
        }
    }

    /// The dispute resolved at `now` for the side with more weight. The
    /// first round ends in `Resolved` and may be appealed; the appeal round
    /// ends in `Appealed`, for good.
    pub open spec fn finalized(self, now: Timestamp) -> DisputeState {
        DisputeState {
            dispute: Dispute {
                dispute_id: self.dispute.dispute_id,
                claimant: self.dispute.claimant,
                defendant: self.dispute.defendant,
                description: self.dispute.description,
                evidence_uri: self.dispute.evidence_uri,
                status: if self.dispute.status == DisputeStatus::Voting {
                    DisputeStatus::Resolved
                } else {
                    DisputeStatus::Appealed
                },
                created_at: self.dispute.created_at,
                voting_ends_at: self.dispute.voting_ends_at,
                votes_for_claimant: self.dispute.votes_for_claimant,
                votes_for_defendant: self.dispute.votes_for_defendant,
                resolution: Some(self.winner()),
                can_appeal: self.dispute.status == DisputeStatus::Voting,
            },
            votes: self.votes,
            appeal_pending: false,
            resolved_at: now,
        }
    }

    /// The dispute under appeal: a new round with no votes yet, open until
    /// `ends_at`. The earlier resolution stands until the round is finalized.
    pub open spec fn appealed(self, ends_at: Timestamp) -> DisputeState {
        DisputeState {
            dispute: Dispute {
                dispute_id: self.dispute.dispute_id,
                claimant: self.dispute.claimant,
                defendant: self.dispute.defendant,
                description: self.dispute.description,
                evidence_uri: self.dispute.evidence_uri,
                status: DisputeStatus::Appealed,
                created_at: self.dispute.created_at,
                voting_ends_at: ends_at,
                votes_for_claimant: 0,
                votes_for_defendant: 0,
                resolution: self.dispute.resolution,
                can_appeal: false,
            },
            votes: Seq::empty(),
            appeal_pending: true,
            resolved_at: self.resolved_at,
        }
    }
}

/// The whole arbitration contract: its address and settings, the arbitrators
/// in order of registration, and every dispute, indexed by dispute id.
pub struct ArbitrationState {
    pub contract_address: AccountId,
    pub config: ArbitrationConfig,
    pub arbitrators: Seq<Arbitrator>,
    pub disputes: Seq<DisputeState>,
}

impl ArbitrationState {
    /// The registered arbitrators' accounts, in order of registration.
    pub open spec fn accounts(self) -> Seq<AccountId> {
        accounts_of(self.arbitrators)
    }

    /// Whether `who` is registered as an arbitrator.
    pub open spec fn is_arbitrator(self, who: AccountId) -> bool {
        self.accounts().contains(who)
    }

    /// The record of the arbitrator `who`; meaningful when there is one.
    pub open spec fn arbitrator_of(self, who: AccountId) -> Arbitrator {
        self.arbitrators[self.accounts().index_of(who)]
    }

    /// The vote is by a registered arbitrator and, unless that arbitrator
    /// has since withdrawn, weighs no more than the arbitrator's stake.
    pub open spec fn vote_backed(self, vote: VoteRecord) -> bool {
        self.is_arbitrator(vote.arbitrator) && (self.arbitrator_of(vote.arbitrator).is_active
            ==> vote.weight <= self.arbitrator_of(vote.arbitrator).stake)
    }

    /// The vote is backed, and its caster is an active arbitrator if the
    /// round it was cast in is still open.
    pub open spec fn vote_sound(self, vote: VoteRecord, round_open: bool) -> bool {
        self.vote_backed(vote) && (round_open ==> self.arbitrator_of(vote.arbitrator).is_active)
    }

    /// One record per arbitrator; every dispute well formed and stored under
    /// its id; every vote backed by its caster's stake; and nobody inactive
    /// with a vote in a round that is still open.
    pub open spec fn wf(self) -> bool {
        &&& self.accounts().no_duplicates()
        &&& forall|id: int|
            0 <= id < self.disputes.len() ==> (#[trigger] self.disputes[id]).wf()
                && self.disputes[id].dispute.dispute_id == id
        &&& forall|id: int, k: int|
            0 <= id < self.disputes.len() && 0 <= k < self.disputes[id].votes.len()
                ==> self.vote_sound(
                #[trigger] self.disputes[id].votes[k],
                self.disputes[id].round_open(),
            )
    }

    /// Whether `who` has a vote in a round that is still open.
    pub open spec fn has_open_vote(self, who: AccountId) -> bool {
        exists|id: int|
            0 <= id < self.disputes.len() && (#[trigger] self.disputes[id]).round_open()
                && self.disputes[id].voters().contains(who)
    }

    /// Whether there is a dispute under `dispute_id`.
    pub open spec fn has_dispute(self, dispute_id: u128) -> bool {
        dispute_id < self.disputes.len()
    }

    /// The state with one dispute replaced.
    pub open spec fn with_dispute(self, dispute_id: u128, dispute: DisputeState)
        -> ArbitrationState {
        ArbitrationState {
            contract_address: self.contract_address,
            config: self.config,
            arbitrators: self.arbitrators,
            disputes: self.disputes.update(dispute_id as int, dispute),
        }
    }

    /// The state with the arbitrators replaced.
    pub open spec fn with_arbitrators(self, arbitrators: Seq<Arbitrator>) -> ArbitrationState {
        ArbitrationState {
            contract_address: self.contract_address,
            config: self.config,
            arbitrators,
            disputes: self.disputes,
        }
    }

    /// Sum of the present stakes of the casters of `votes`.
    pub open spec fn backing_stake(self, votes: Seq<VoteRecord>) -> nat
        decreases votes.len(),
    {
        if votes.len() == 0 {
            0
        } else {
            self.backing_stake(votes.drop_last()) + self.arbitrator_of(
                votes.last().arbitrator,
            ).stake as nat
        }
    }

    /// Outcome of `register_arbitrator`: `AlreadyRegistered` if the caller is
    /// one already, `InsufficientStake` below the minimum stake.
    pub open spec fn register_arbitrator_result(self, stake_amount: Balance, caller: AccountId)
        -> Result<(), ContractError> {
        if self.is_arbitrator(caller) {
            Err(ContractError::AlreadyRegistered)
        } else if stake_amount < self.config.min_arbitrator_stake {
            Err(ContractError::InsufficientStake)
        } else {
            Ok(())
        }
    }

    /// The record of an arbitrator who has just registered: active, with no
    /// disputes yet and a reputation of 100.
    pub open spec fn new_arbitrator(stake_amount: Balance, caller: AccountId) -> Arbitrator {
        Arbitrator {
            account: caller,
            stake: stake_amount,
            disputes_participated: 0,
            disputes_resolved: 0,
            reputation: 100,
            is_active: true,
        }
    }

    /// State after `register_arbitrator`.
    pub open spec fn register_arbitrator_next(self, stake_amount: Balance, caller: AccountId)
        -> ArbitrationState {
        if self.register_arbitrator_result(stake_amount, caller) is Ok {
            self.with_arbitrators(
                self.arbitrators.push(Self::new_arbitrator(stake_amount, caller)),
            )
        } else {
            self
        }
    }

    /// Outcome of `increase_arbitrator_stake`: `NotFound` if the caller is no
    /// arbitrator, `InvalidState` if inactive or if the sum would not fit a balance.
    pub open spec fn increase_arbitrator_stake_result(
        self,
        additional_stake: Balance,
        caller: AccountId,
    ) -> Result<(), ContractError> {
        if !self.is_arbitrator(caller) {
            Err(ContractError::NotFound)
        } else if !self.arbitrator_of(caller).is_active || self.arbitrator_of(caller).stake
            + additional_stake > u128::MAX {
            Err(ContractError::InvalidState)
        } else {
            Ok(())
        }
    }

    /// State after `increase_arbitrator_stake`: the stake grows by exactly the amount.
    pub open spec fn increase_arbitrator_stake_next(
        self,
        additional_stake: Balance,
        caller: AccountId,
    ) -> ArbitrationState {
        if self.increase_arbitrator_stake_result(additional_stake, caller) is Ok {
            let a = self.arbitrator_of(caller);
            self.with_arbitrators(
                self.arbitrators.update(
                    self.accounts().index_of(caller),
                    Arbitrator {
                        account: a.account,
                        stake: (a.stake + additional_stake) as u128,
                        disputes_participated: a.disputes_participated,
                        disputes_resolved: a.disputes_resolved,
                        reputation: a.reputation,
                        is_active: a.is_active,
                    },
                ),
            )
        } else {
            self
        }
    }

    /// Outcome of `withdraw_arbitrator_stake`: the stake returned; `NotFound`
    /// if the caller is no arbitrator, `InvalidState` if inactive already or
    /// if the caller has a vote in a round that is still open.
    pub open spec fn withdraw_arbitrator_stake_result(self, caller: AccountId) -> Result<
        Balance,
        ContractError,
    > {
        if !self.is_arbitrator(caller) {
            Err(ContractError::NotFound)
        } else if !self.arbitrator_of(caller).is_active || self.has_open_vote(caller) {
            Err(ContractError::InvalidState)
        } else {
            Ok(self.arbitrator_of(caller).stake)
        }
    }

    /// State after `withdraw_arbitrator_stake`: the arbitrator is inactive
    /// and holds no stake; the record and its counters stay.
    pub open spec fn withdraw_arbitrator_stake_next(self, caller: AccountId) -> ArbitrationState {
        if self.withdraw_arbitrator_stake_result(caller) is Ok {
            let a = self.arbitrator_of(caller);
            self.with_arbitrators(
                self.arbitrators.update(
                    self.accounts().index_of(caller),
                    Arbitrator {
                        account: a.account,
                        stake: 0,
                        disputes_participated: a.disputes_participated,
                        disputes_resolved: a.disputes_resolved,
                        reputation: a.reputation,
                        is_active: false,
                    },
                ),
            )
        } else {
            self
        }
    }

    /// State after `create_dispute`, which always succeeds with the next unused id.
    pub open spec fn create_dispute_next(
        self,
        params: CreateDisputeParams,
        caller: AccountId,
        now: Timestamp,
    ) -> ArbitrationState {
        ArbitrationState {
            contract_address: self.contract_address,
            config: self.config,
            arbitrators: self.arbitrators,
            disputes: self.disputes.push(
                DisputeState::opened(self.disputes.len() as u128, params, caller, now),
            ),
        }
    }

    /// Outcome of `cancel_dispute`: only the claimant, only from `Open`.
    pub open spec fn cancel_dispute_result(self, dispute_id: u128, caller: AccountId) -> Result<
        (),
        ContractError,
    > {
        if !self.has_dispute(dispute_id) {
            Err(ContractError::NotFound)
        } else if caller != self.disputes[dispute_id as int].dispute.claimant {
            Err(ContractError::NotAuthorized)
        } else if self.disputes[dispute_id as int].dispute.status != DisputeStatus::Open {
            Err(ContractError::InvalidState)
        } else {
            Ok(())
        }
    }

    /// State after `cancel_dispute`.
    pub open spec fn cancel_dispute_next(self, dispute_id: u128, caller: AccountId)
        -> ArbitrationState {
        if self.cancel_dispute_result(dispute_id, caller) is Ok {
            self.with_dispute(dispute_id, self.disputes[dispute_id as int].withdrawn())
        } else {
            self
        }
    }

    /// Outcome of `start_voting`: only the claimant or the defendant, only
    /// from `Open`, and only if the end of the window fits a timestamp.
    pub open spec fn start_voting_result(self, dispute_id: u128, caller: AccountId, now: Timestamp)
        -> Result<(), ContractError> {
        if !self.has_dispute(dispute_id) {
            Err(ContractError::NotFound)
        } else if caller != self.disputes[dispute_id as int].dispute.claimant && caller
            != self.disputes[dispute_id as int].dispute.defendant {
            Err(ContractError::NotAuthorized)
        } else if self.disputes[dispute_id as int].dispute.status != DisputeStatus::Open || now
            + self.config.voting_period > u64::MAX {
            Err(ContractError::InvalidState)
        } else {
            Ok(())
        }
    }

    /// State after `start_voting`: the window closes one voting period after `now`.
    pub open spec fn start_voting_next(self, dispute_id: u128, caller: AccountId, now: Timestamp)
        -> ArbitrationState {
        if self.start_voting_result(dispute_id, caller, now) is Ok {
            self.with_dispute(
                dispute_id,
                self.disputes[dispute_id as int].voting_until(
                    (now + self.config.voting_period) as u64,
                ),
            )
        } else {
            self
        }
    }

    /// Outcome of `vote`: `NotFound` for an unknown dispute, `NotAuthorized`
    /// unless the caller is an active arbitrator, `InvalidState` unless a
    /// round is open, `VotingClosed` once the window has closed,
    /// `AlreadyVoted` if the caller has voted in this round, and
    /// `InvalidState` if the tally would not fit a balance.
    pub open spec fn vote_result(
        self,
        dispute_id: u128,
        choice: VoteChoice,
        caller: AccountId,
        now: Timestamp,
    ) -> Result<(), ContractError> {
        if !self.has_dispute(dispute_id) {
            Err(ContractError::NotFound)
        } else if !self.is_arbitrator(caller) || !self.arbitrator_of(caller).is_active {
            Err(ContractError::NotAuthorized)
        } else if !self.disputes[dispute_id as int].round_open() {
            Err(ContractError::InvalidState)
        } else if now >= self.disputes[dispute_id as int].dispute.voting_ends_at {
            Err(ContractError::VotingClosed)
        } else if self.disputes[dispute_id as int].voters().contains(caller) {
            Err(ContractError::AlreadyVoted)
        } else if (if choice == VoteChoice::InFavorOfClaimant {
            self.disputes[dispute_id as int].dispute.votes_for_claimant
        } else {
            self.disputes[dispute_id as int].dispute.votes_for_defendant
        }) + self.arbitrator_of(caller).stake > u128::MAX {
            Err(ContractError::InvalidState)
        } else {
            Ok(())
        }
    }

    /// State after `vote`: the vote is recorded with the caller's present stake as its weight.
    pub open spec fn vote_next(
        self,
        dispute_id: u128,
        choice: VoteChoice,
        caller: AccountId,
        now: Timestamp,
    ) -> ArbitrationState {
        if self.vote_result(dispute_id, choice, caller, now) is Ok {
            self.with_dispute(
                dispute_id,
                self.disputes[dispute_id as int].with_vote(
                    VoteRecord {
                        arbitrator: caller,
                        choice,
                        weight: self.arbitrator_of(caller).stake,
                    },
                ),
            )
        } else {
            self
        }
    }

    /// Outcome of `finalize_dispute`: the winning side; `NotFound` for an
    /// unknown dispute, `InvalidState` unless a round is open and its
    /// window has closed.
    pub open spec fn finalize_dispute_result(self, dispute_id: u128, now: Timestamp) -> Result<
        VoteChoice,
        ContractError,
    > {
        if !self.has_dispute(dispute_id) {
            Err(ContractError::NotFound)
        } else if !self.disputes[dispute_id as int].round_open() || now
            < self.disputes[dispute_id as int].dispute.voting_ends_at {
            Err(ContractError::InvalidState)
        } else {
            Ok(self.disputes[dispute_id as int].winner())
        }
    }

    /// State after `finalize_dispute`: the dispute is resolved and everyone
    /// who voted in the round is credited.
    pub open spec fn finalize_dispute_next(self, dispute_id: u128, now: Timestamp)
        -> ArbitrationState {
        if self.finalize_dispute_result(dispute_id, now) is Ok {
            let d = self.disputes[dispute_id as int];
            ArbitrationState {
                contract_address: self.contract_address,
                config: self.config,
                arbitrators: credited(self.arbitrators, d.votes, d.winner()),
                disputes: self.disputes.update(dispute_id as int, d.finalized(now)),
            }
        } else {
            self
        }
    }

    /// Outcome of `appeal_dispute`: `NotFound` for an unknown dispute;
    /// `InvalidState` unless the dispute is `Resolved` and open to appeal;
    /// `NotAuthorized` unless the caller is the losing party; `InvalidState`
    /// once the appeal period has passed, or if the end of the new window
    /// does not fit a timestamp.
    pub open spec fn appeal_dispute_result(self, dispute_id: u128, caller: AccountId, now: Timestamp)
        -> Result<(), ContractError> {
        if !self.has_dispute(dispute_id) {
            Err(ContractError::NotFound)
        } else if self.disputes[dispute_id as int].dispute.status != DisputeStatus::Resolved
            || !self.disputes[dispute_id as int].dispute.can_appeal {
            Err(ContractError::InvalidState)
        } else if caller != self.disputes[dispute_id as int].losing_party() {
            Err(ContractError::NotAuthorized)
        } else if now >= self.disputes[dispute_id as int].resolved_at + self.config.appeal_period
            || now + self.config.voting_period > u64::MAX {
            Err(ContractError::InvalidState)
        } else {
            Ok(())
        }
    }

    /// State after `appeal_dispute`: a fresh round, open for one voting period.
    pub open spec fn appeal_dispute_next(self, dispute_id: u128, caller: AccountId, now: Timestamp)
        -> ArbitrationState {
        if self.appeal_dispute_result(dispute_id, caller, now) is Ok {
            self.with_dispute(
                dispute_id,
                self.disputes[dispute_id as int].appealed((now + self.config.voting_period) as u64),
            )
        } else {
            self
        }
    }
}

// ============================================================================
// What holds of every arbitration state
// ============================================================================

impl DisputeState {
    /// In an open round, a vote by someone who has not voted in it, and
    /// whose weight the tally can take, keeps the dispute well formed.
    pub proof fn lemma_with_vote_wf(self, vote: VoteRecord)
        requires
            self.wf(),
            self.round_open(),
            !self.voters().contains(vote.arbitrator),
            vote.choice == VoteChoice::InFavorOfClaimant ==> self.dispute.votes_for_claimant
                + vote.weight <= u128::MAX,
            vote.choice == VoteChoice::InFavorOfDefendant ==> self.dispute.votes_for_defendant
                + vote.weight <= u128::MAX,
        ensures
            self.with_vote(vote).wf(),
    {
        let next = self.with_vote(vote);
        assert(next.votes.drop_last() =~= self.votes);
        assert(next.voters() =~= self.voters().push(vote.arbitrator));
    }
}

impl ArbitrationState {
    /// Whether `arbitrators` may take the place of the present ones: the
    /// present accounts stay where they are; an arbitrator who stays as
    /// active as before has no less stake; and anyone else has become
    /// inactive without a vote in an open round.
    pub open spec fn may_become(self, arbitrators: Seq<Arbitrator>) -> bool {
        &&& accounts_of(arbitrators).no_duplicates()
        &&& arbitrators.len() >= self.arbitrators.len()
        &&& forall|i: int|
            0 <= i < self.arbitrators.len() ==> (#[trigger] arbitrators[i]).account
                == self.arbitrators[i].account && ((arbitrators[i].is_active
                == self.arbitrators[i].is_active && arbitrators[i].stake
                >= self.arbitrators[i].stake) || (!arbitrators[i].is_active && !self.has_open_vote(
                self.arbitrators[i].account,
            )))
    }

    /// A sound vote stays sound when the arbitrators change as `may_become` allows.
    pub proof fn lemma_vote_stays_sound(
        self,
        arbitrators: Seq<Arbitrator>,
        dispute_id: int,
        k: int,
    )
        requires
            self.wf(),
            self.may_become(arbitrators),
            0 <= dispute_id < self.disputes.len(),
            0 <= k < self.disputes[dispute_id].votes.len(),
        ensures
            self.with_arbitrators(arbitrators).vote_sound(
                self.disputes[dispute_id].votes[k],
                self.disputes[dispute_id].round_open(),
            ),
    {
        let vote = self.disputes[dispute_id].votes[k];
        let at = self.accounts().index_of(vote.arbitrator);
        lemma_account_position(accounts_of(arbitrators), vote.arbitrator, at);
        if self.disputes[dispute_id].round_open() {
            assert(self.disputes[dispute_id].voters()[k] == vote.arbitrator);
        }
    }

    /// Replacing the arbitrators as `may_become` allows keeps the state well formed.
    pub proof fn lemma_with_arbitrators_wf(self, arbitrators: Seq<Arbitrator>)
        requires
            self.wf(),
            self.may_become(arbitrators),
        ensures
            self.with_arbitrators(arbitrators).wf(),
    {
        let next = self.with_arbitrators(arbitrators);
        assert forall|id: int, k: int|
            0 <= id < next.disputes.len() && 0 <= k < next.disputes[id].votes.len()
                implies next.vote_sound(
            #[trigger] next.disputes[id].votes[k],
            next.disputes[id].round_open(),
        ) by {
            self.lemma_vote_stays_sound(arbitrators, id, k);
        }
    }

    /// Replacing a dispute by a well-formed one under the same id, whose
    /// votes are sound, keeps the state well formed.
    pub proof fn lemma_with_dispute_wf(self, dispute_id: u128, dispute: DisputeState)
        requires
            self.wf(),
            self.has_dispute(dispute_id),
            dispute.wf(),
            dispute.dispute.dispute_id == dispute_id,
            forall|k: int|
                0 <= k < dispute.votes.len() ==> self.vote_sound(
                    #[trigger] dispute.votes[k],
                    dispute.round_open(),
                ),
        ensures
            self.with_dispute(dispute_id, dispute).wf(),
    {
    }

    /// Registering an arbitrator and raising a stake keep the state well formed.
    pub proof fn lemma_stake_operations_keep_wf(self, amount: Balance, caller: AccountId)
        requires
            self.wf(),
        ensures
            self.register_arbitrator_next(amount, caller).wf(),
            self.increase_arbitrator_stake_next(amount, caller).wf(),
    {
        if self.register_arbitrator_result(amount, caller) is Ok {
            let arbitrators = self.arbitrators.push(Self::new_arbitrator(amount, caller));
            assert(accounts_of(arbitrators) =~= self.accounts().push(caller));
            self.lemma_with_arbitrators_wf(arbitrators);
        }
        if self.increase_arbitrator_stake_result(amount, caller) is Ok {
            let next = self.increase_arbitrator_stake_next(amount, caller);
            assert(accounts_of(next.arbitrators) =~= self.accounts());
            self.lemma_with_arbitrators_wf(next.arbitrators);
        }
    }

    /// Opening a dispute keeps the state well formed.
    pub proof fn lemma_create_dispute_keeps_wf(
        self,
        params: CreateDisputeParams,
        caller: AccountId,
        now: Timestamp,
    )
        requires
            self.wf(),
            self.disputes.len() <= u128::MAX,
        ensures
            self.create_dispute_next(params, caller, now).wf(),
    {
    }

    /// Cancelling, starting the voting, voting, finalizing and appealing
    /// all keep the state well formed.
    pub proof fn lemma_round_operations_keep_wf(
        self,
        dispute_id: u128,
        choice: VoteChoice,
        caller: AccountId,
        now: Timestamp,
    )
        requires
            self.wf(),
        ensures
            self.cancel_dispute_next(dispute_id, caller).wf(),
            self.start_voting_next(dispute_id, caller, now).wf(),
            self.vote_next(dispute_id, choice, caller, now).wf(),
            self.finalize_dispute_next(dispute_id, now).wf(),
            self.appeal_dispute_next(dispute_id, caller, now).wf(),
    {
        if self.has_dispute(dispute_id) {
            let d = self.disputes[dispute_id as int];
            if self.cancel_dispute_result(dispute_id, caller) is Ok {
                let next = d.withdrawn();
                self.lemma_with_dispute_wf(dispute_id, next);
            }
            if self.start_voting_result(dispute_id, caller, now) is Ok {
                let next = d.voting_until((now + self.config.voting_period) as u64);
                self.lemma_with_dispute_wf(dispute_id, next);
            }
            if self.vote_result(dispute_id, choice, caller, now) is Ok {
                let vote = VoteRecord {
                    arbitrator: caller,
                    choice,
                    weight: self.arbitrator_of(caller).stake,
                };
                d.lemma_with_vote_wf(vote);
                let next = d.with_vote(vote);
                self.lemma_with_dispute_wf(dispute_id, next);
            }
            if self.finalize_dispute_result(dispute_id, now) is Ok {
                let arbitrators = credited(self.arbitrators, d.votes, d.winner());
                lemma_credited_keeps_stakes(self.arbitrators, d.votes, d.winner());
                self.lemma_with_arbitrators_wf(arbitrators);
                let middle = self.with_arbitrators(arbitrators);
                let next = d.finalized(now);
                middle.lemma_with_dispute_wf(dispute_id, next);
                assert(self.finalize_dispute_next(dispute_id, now) == middle.with_dispute(
                    dispute_id,
                    next,
                ));
            }
            if self.appeal_dispute_result(dispute_id, caller, now) is Ok {
                let next = d.appealed((now + self.config.voting_period) as u64);
                self.lemma_with_dispute_wf(dispute_id, next);
            }
        }
    }

    /// Votes of arbitrators who are all still active weigh no more than the
    /// present stakes of those who cast them.
    pub proof fn lemma_weights_within_backing(self, votes: Seq<VoteRecord>)
        requires
            forall|k: int|
                0 <= k < votes.len() ==> self.vote_backed(#[trigger] votes[k])
                    && self.arbitrator_of(votes[k].arbitrator).is_active,
        ensures
            weight_for(votes, VoteChoice::InFavorOfClaimant) + weight_for(
                votes,
                VoteChoice::InFavorOfDefendant,
            ) <= self.backing_stake(votes),
        decreases votes.len(),
    {
        if votes.len() > 0 {
            self.lemma_weights_within_backing(votes.drop_last());
        }
    }

    /// Whether everyone who voted in the current round of the dispute is
    /// still an active arbitrator.
    pub open spec fn voters_still_active(self, dispute_id: u128) -> bool {
        forall|k: int|
            0 <= k < self.disputes[dispute_id as int].votes.len() ==> self.arbitrator_of(
                (#[trigger] self.disputes[dispute_id as int].votes[k]).arbitrator,
            ).is_active
    }

    /// The two tallies of a dispute are exactly the weights of the votes
    /// recorded for each side, and every arbitrator appears among the
    /// voters at most once. As long as none of the voters has withdrawn,
    /// the tallies together do not exceed the sum of the stakes of the
    /// arbitrators who voted.
    pub proof fn lemma_tally_within_stakes(self, dispute_id: u128)
        requires
            self.wf(),
            self.has_dispute(dispute_id),
        ensures
            ({
                let d = self.disputes[dispute_id as int];
                &&& d.dispute.votes_for_claimant == weight_for(
                    d.votes,
                    VoteChoice::InFavorOfClaimant,
                )
                &&& d.dispute.votes_for_defendant == weight_for(
                    d.votes,
                    VoteChoice::InFavorOfDefendant,
                )
                &&& d.voters().no_duplicates()
                &&& self.voters_still_active(dispute_id) ==> d.dispute.votes_for_claimant
                    + d.dispute.votes_for_defendant <= self.backing_stake(d.votes)
            }),
    {
        let d = self.disputes[dispute_id as int];
        if self.voters_still_active(dispute_id) {
            assert forall|k: int| 0 <= k < d.votes.len() implies self.vote_backed(
                #[trigger] d.votes[k],
            ) && self.arbitrator_of(d.votes[k].arbitrator).is_active by {}
            self.lemma_weights_within_backing(d.votes);
        }
    }

    /// While a voting round is open, everyone who voted in it is still an
    /// active arbitrator, since a stake cannot be withdrawn with a vote
    /// pending; so the tallies of an open round never exceed the stakes of
    /// its voters.
    pub proof fn lemma_open_round_within_stakes(self, dispute_id: u128)
        requires
            self.wf(),
            self.has_dispute(dispute_id),
            self.disputes[dispute_id as int].round_open(),
        ensures
            self.voters_still_active(dispute_id),
            self.disputes[dispute_id as int].dispute.votes_for_claimant
                + self.disputes[dispute_id as int].dispute.votes_for_defendant
                <= self.backing_stake(self.disputes[dispute_id as int].votes),
    {
        self.lemma_tally_within_stakes(dispute_id);
    }

    /// Withdrawing an arbitrator's stake keeps the state well formed, and is
    /// refused while the arbitrator has a vote in a round that is still open.
    pub proof fn lemma_withdraw_keeps_wf(self, caller: AccountId)
        requires
            self.wf(),
        ensures
            self.withdraw_arbitrator_stake_next(caller).wf(),
            self.has_open_vote(caller) ==> self.withdraw_arbitrator_stake_result(caller) is Err
                && self.withdraw_arbitrator_stake_next(caller) == self,
    {
        if self.withdraw_arbitrator_stake_result(caller) is Ok {
            let next = self.withdraw_arbitrator_stake_next(caller);
            assert(accounts_of(next.arbitrators) =~= self.accounts());
            self.lemma_with_arbitrators_wf(next.arbitrators);
        }
    }

    /// A successful vote adds the caller's stake to the tally of the chosen
    /// side and leaves the other tally alone; the caller cannot vote again
    /// in the round, at any time and for either side, and a refused vote
    /// changes nothing.
    pub proof fn lemma_vote_counts_once(
        self,
        dispute_id: u128,
        choice: VoteChoice,
        caller: AccountId,
        now: Timestamp,
        again: VoteChoice,
        later: Timestamp,
    )
        requires
            self.wf(),
            self.vote_result(dispute_id, choice, caller, now) is Ok,
        ensures
            ({
                let before = self.disputes[dispute_id as int].dispute;
                let next = self.vote_next(dispute_id, choice, caller, now);
                let after = next.disputes[dispute_id as int].dispute;
                let stake = self.arbitrator_of(caller).stake;
                &&& after.votes_for_claimant == before.votes_for_claimant + if choice
                    == VoteChoice::InFavorOfClaimant {
                    stake
                } else {
                    0
                }
                &&& after.votes_for_defendant == before.votes_for_defendant + if choice
                    == VoteChoice::InFavorOfDefendant {
                    stake
                } else {
                    0
                }
                &&& next.vote_result(dispute_id, again, caller, later) is Err
                &&& later < after.voting_ends_at ==> next.vote_result(
                    dispute_id,
                    again,
                    caller,
                    later,
                ) == Err::<(), ContractError>(ContractError::AlreadyVoted)
                &&& next.vote_next(dispute_id, again, caller, later) == next
            }),
    {
        let d = self.disputes[dispute_id as int];
        let next = self.vote_next(dispute_id, choice, caller, now);
        assert(next.disputes[dispute_id as int].voters()[d.voters().len() as int] == caller);
    }

    /// Finalizing before the voting window has closed fails and changes
    /// nothing. Once the window has closed, finalizing an open round
    /// succeeds with the side that has strictly more weight, the defendant
    /// on a tie; after that, finalizing again fails with `InvalidState`,
    /// whenever it is tried.
    pub proof fn lemma_finalize_once(self, dispute_id: u128, now: Timestamp, later: Timestamp)
        requires
            self.has_dispute(dispute_id),
        ensures
            now < self.disputes[dispute_id as int].dispute.voting_ends_at ==> {
                &&& self.finalize_dispute_result(dispute_id, now) == Err::<
                    VoteChoice,
                    ContractError,
                >(ContractError::InvalidState)
                &&& self.finalize_dispute_next(dispute_id, now) == self
            },
            self.disputes[dispute_id as int].round_open() && now
                >= self.disputes[dispute_id as int].dispute.voting_ends_at ==> {
                let d = self.disputes[dispute_id as int];
                let next = self.finalize_dispute_next(dispute_id, now);
                &&& self.finalize_dispute_result(dispute_id, now) == Ok::<
                    VoteChoice,
                    ContractError,
                >(d.winner())
                &&& (d.winner() == VoteChoice::InFavorOfClaimant) == (d.dispute.votes_for_claimant
                    > d.dispute.votes_for_defendant)
                &&& next.disputes[dispute_id as int].dispute.resolution == Some(d.winner())
                &&& next.finalize_dispute_result(dispute_id, later) == Err::<
                    VoteChoice,
                    ContractError,
                >(ContractError::InvalidState)
                &&& next.finalize_dispute_next(dispute_id, later) == next
            },
    {
    }

    /// After a successful appeal the dispute is `Appealed` and can no longer
    /// be appealed: every further appeal fails with `InvalidState`, whoever
    /// makes it and whenever, and changes nothing.
    pub proof fn lemma_appeal_once(
        self,
        dispute_id: u128,
        caller: AccountId,
        now: Timestamp,
        again: AccountId,
        later: Timestamp,
    )
        requires
            self.appeal_dispute_result(dispute_id, caller, now) is Ok,
        ensures
            ({
                let next = self.appeal_dispute_next(dispute_id, caller, now);
                &&& next.disputes[dispute_id as int].dispute.status == DisputeStatus::Appealed
                &&& !next.disputes[dispute_id as int].dispute.can_appeal
                &&& next.appeal_dispute_result(dispute_id, again, later) == Err::<
                    (),
                    ContractError,
                >(ContractError::InvalidState)
                &&& next.appeal_dispute_next(dispute_id, again, later) == next
            }),
    {
    }

    /// An appealed dispute stays appealed and closed to appeal under every
    /// operation, so no dispute is appealed twice.
    pub proof fn lemma_appealed_is_permanent(
        self,
        params: CreateDisputeParams,
        dispute_id: u128,
        other: u128,
        amount: Balance,
        choice: VoteChoice,
        caller: AccountId,
        now: Timestamp,
    )
        requires
            self.wf(),
            self.has_dispute(dispute_id),
            self.disputes[dispute_id as int].dispute.status == DisputeStatus::Appealed,
        ensures
            !self.disputes[dispute_id as int].dispute.can_appeal,
            self.appeal_dispute_result(dispute_id, caller, now) is Err,
            Self::stays_appealed(self.register_arbitrator_next(amount, caller), dispute_id),
            Self::stays_appealed(self.increase_arbitrator_stake_next(amount, caller), dispute_id),
            Self::stays_appealed(self.withdraw_arbitrator_stake_next(caller), dispute_id),
            Self::stays_appealed(self.create_dispute_next(params, caller, now), dispute_id),
            Self::stays_appealed(self.cancel_dispute_next(other, caller), dispute_id),
            Self::stays_appealed(self.start_voting_next(other, caller, now), dispute_id),
            Self::stays_appealed(self.vote_next(other, choice, caller, now), dispute_id),
            Self::stays_appealed(self.finalize_dispute_next(other, now), dispute_id),
            Self::stays_appealed(self.appeal_dispute_next(other, caller, now), dispute_id),
    {
    }

    /// A cancelled dispute is final: cancelling, starting the voting,
    /// voting, finalizing and appealing all fail on it, for whoever calls
    /// and whenever, and leave the whole state as it was.
    pub proof fn lemma_cancelled_is_final(
        self,
        dispute_id: u128,
        choice: VoteChoice,
        caller: AccountId,
        now: Timestamp,
    )
        requires
            self.wf(),
            self.has_dispute(dispute_id),
            self.disputes[dispute_id as int].dispute.status == DisputeStatus::Cancelled,
        ensures
            self.cancel_dispute_result(dispute_id, caller) is Err,
            self.start_voting_result(dispute_id, caller, now) is Err,
            self.vote_result(dispute_id, choice, caller, now) is Err,
            self.finalize_dispute_result(dispute_id, now) is Err,
            self.appeal_dispute_result(dispute_id, caller, now) is Err,
            self.cancel_dispute_next(dispute_id, caller) == self,
            self.start_voting_next(dispute_id, caller, now) == self,
            self.vote_next(dispute_id, choice, caller, now) == self,
            self.finalize_dispute_next(dispute_id, now) == self,
            self.appeal_dispute_next(dispute_id, caller, now) == self,
    {
    }

    /// While a dispute is `Voting`, no operation lowers either of its
    /// tallies: whatever is called, by whomever and whenever, a dispute that
    /// is still `Voting` afterwards has tallies no smaller than before.
    pub proof fn lemma_tallies_never_fall_while_voting(
        self,
        params: CreateDisputeParams,
        dispute_id: u128,
        other: u128,
        amount: Balance,
        choice: VoteChoice,
        caller: AccountId,
        now: Timestamp,
    )
        requires
            self.has_dispute(dispute_id),
            self.disputes[dispute_id as int].dispute.status == DisputeStatus::Voting,
        ensures
            self.tallies_kept(self.register_arbitrator_next(amount, caller), dispute_id),
            self.tallies_kept(self.increase_arbitrator_stake_next(amount, caller), dispute_id),
            self.tallies_kept(self.withdraw_arbitrator_stake_next(caller), dispute_id),
            self.tallies_kept(self.create_dispute_next(params, caller, now), dispute_id),
            self.tallies_kept(self.cancel_dispute_next(other, caller), dispute_id),
            self.tallies_kept(self.start_voting_next(other, caller, now), dispute_id),
            self.tallies_kept(self.vote_next(other, choice, caller, now), dispute_id),
            self.tallies_kept(self.finalize_dispute_next(other, now), dispute_id),
            self.tallies_kept(self.appeal_dispute_next(other, caller, now), dispute_id),
    {
    }

    /// The dispute still exists in `next`, and if it is `Voting` there, its
    /// tallies are no smaller than in `self`.
    pub open spec fn tallies_kept(self, next: ArbitrationState, dispute_id: u128) -> bool {
        &&& next.has_dispute(dispute_id)
        &&& next.disputes[dispute_id as int].dispute.status == DisputeStatus::Voting ==> {
            &&& next.disputes[dispute_id as int].dispute.votes_for_claimant
                >= self.disputes[dispute_id as int].dispute.votes_for_claimant
            &&& next.disputes[dispute_id as int].dispute.votes_for_defendant
                >= self.disputes[dispute_id as int].dispute.votes_for_defendant
        }
    }

    /// The dispute exists, is `Appealed`, and is closed to appeal.
    pub open spec fn stays_appealed(next: ArbitrationState, dispute_id: u128) -> bool {
        &&& next.has_dispute(dispute_id)
        &&& next.disputes[dispute_id as int].dispute.status == DisputeStatus::Appealed
        &&& !next.disputes[dispute_id as int].dispute.can_appeal
    }
}

// ============================================================================
// The arbitration contract
// ============================================================================

/// One dispute as the contract stores it.
struct DisputeEntry {
    dispute: Dispute,
    votes: Vec<VoteRecord>,
    appeal_pending: bool,
    resolved_at: Timestamp,
}

impl View for DisputeEntry {
    type V = DisputeState;

    closed spec fn view(&self) -> DisputeState {
        DisputeState {
            dispute: self.dispute,
            votes: self.votes@,
            appeal_pending: self.appeal_pending,
            resolved_at: self.resolved_at,
        }
    }
}

impl DisputeEntry {
    /// Where the vote of `who` in the current round is stored, if there is one.
    fn find_vote(&self, who: &AccountId) -> (place: Option<usize>)
        ensures
            place is Some == self@.voters().contains(*who),
            place matches Some(i) ==> i < self.votes.len() && self.votes[i as int].arbitrator
                == *who,
    {
        let mut i: usize = 0;
        while i < self.votes.len()
            invariant
                i <= self.votes.len(),
                forall|k: int| 0 <= k < i ==> self@.voters()[k] != *who,
            decreases self.votes.len() - i,
        {
            if self.votes[i].arbitrator == *who {
                assert(self@.voters()[i as int] == *who);
                return Some(i);
            }
            i += 1;
        }
        None
    }
}

/// Where the record of the arbitrator `who` is stored, if there is one.
fn find_arbitrator(arbitrators: &Vec<Arbitrator>, who: &AccountId) -> (place: Option<usize>)
    requires
        accounts_of(arbitrators@).no_duplicates(),
    ensures
        place is Some == accounts_of(arbitrators@).contains(*who),
        place matches Some(i) ==> i < arbitrators.len() && i == accounts_of(arbitrators@).index_of(
            *who,
        ) && arbitrators[i as int].account == *who,
        place is None ==> forall|k: int|
            0 <= k < arbitrators.len() ==> (#[trigger] arbitrators[k]).account != *who,
{
    let mut i: usize = 0;
    while i < arbitrators.len()
        invariant
            i <= arbitrators.len(),
            accounts_of(arbitrators@).no_duplicates(),
            forall|k: int| 0 <= k < i ==> accounts_of(arbitrators@)[k] != *who,
        decreases arbitrators.len() - i,
    {
        if arbitrators[i].account == *who {
            proof {
                lemma_account_position(accounts_of(arbitrators@), *who, i as int);
            }
            return Some(i);
        }
        i += 1;
    }
    assert forall|k: int| 0 <= k < arbitrators.len() implies (#[trigger] arbitrators[k]).account
        != *who by {
        assert(accounts_of(arbitrators@)[k] != *who);
    }
    None
}

/// The arbitration contract: decentralized dispute resolution through
/// stake-weighted voting.
///
/// Disputes are numbered from zero in the order of their creation and are
/// never removed. All changes go through the operations below; each either
/// applies in full or leaves the contract as it was.
pub struct ArbitrationContract {
    contract_address: AccountId,
    config: ArbitrationConfig,
    arbitrators: Vec<Arbitrator>,
    disputes: Vec<DisputeEntry>,
}

impl View for ArbitrationContract {
    type V = ArbitrationState;

    closed spec fn view(&self) -> ArbitrationState {
        ArbitrationState {
            contract_address: self.contract_address,
            config: self.config,
            arbitrators: self.arbitrators@,
            disputes: self.disputes@.map_values(|e: DisputeEntry| e@),
        }
    }
}

impl ArbitrationContract {
    /// A contract at `contract_address` with the standard settings, no
    /// arbitrators and no disputes.
    pub fn new(contract_address: AccountId) -> (arbitration: Self)
        ensures
            arbitration@.contract_address == contract_address,
            arbitration@.config == ArbitrationConfig::spec_standard(),
            arbitration@.arbitrators.len() == 0,
            arbitration@.disputes.len() == 0,
            arbitration@.wf(),
    {
        Self::with_config(contract_address, ArbitrationConfig::standard())
    }

    /// A contract at `contract_address` with the given settings, no
    /// arbitrators and no disputes.
    pub fn with_config(contract_address: AccountId, config: ArbitrationConfig) -> (arbitration:
        Self)
        ensures
            arbitration@.contract_address == contract_address,
            arbitration@.config == config,
            arbitration@.arbitrators.len() == 0,
            arbitration@.disputes.len() == 0,
            arbitration@.wf(),
    {
        ArbitrationContract {
            contract_address,
            config,
            arbitrators: Vec::new(),
            disputes: Vec::new(),
        }
    }

    /// Update contract address. Settings, arbitrators and disputes stay as they are.
    pub fn set_contract_address(&mut self, address: AccountId)
        ensures
            final(self)@.contract_address == address,
            final(self)@.config == old(self)@.config,
            final(self)@.arbitrators == old(self)@.arbitrators,
            final(self)@.disputes == old(self)@.disputes,
    {
        self.contract_address = address;
    }

    /// The address of the contract.
    pub fn contract_address(&self) -> (address: AccountId)
        ensures
            address == self@.contract_address,
    {
        self.contract_address
    }

    /// The settings of the contract.
    pub fn config(&self) -> (config: ArbitrationConfig)
        ensures
            config == self@.config,
    {
        self.config
    }

    /// Register the caller as an arbitrator with `stake_amount` at stake.
    ///
    /// Fails with `AlreadyRegistered` if the caller is an arbitrator
    /// already, and with `InsufficientStake` below the minimum stake. On
    /// success the caller is an active arbitrator with no disputes yet and
    /// a reputation of 100.
    pub fn register_arbitrator(&mut self, stake_amount: Balance, caller: AccountId) -> (result:
        ContractResult<()>)
        requires
            old(self)@.wf(),
        ensures
            result.reports(old(self)@.register_arbitrator_result(stake_amount, caller)),
            final(self)@ == old(self)@.register_arbitrator_next(stake_amount, caller),
            final(self)@.wf(),
    {
        proof {
            self@.lemma_stake_operations_keep_wf(stake_amount, caller);
        }
        if find_arbitrator(&self.arbitrators, &caller).is_some() {
            return ContractResult::fail(ContractError::AlreadyRegistered);
        }
        if stake_amount < self.config.min_arbitrator_stake {
            return ContractResult::fail(ContractError::InsufficientStake);
        }
        self.arbitrators.push(
            Arbitrator {
                account: caller,
                stake: stake_amount,
                disputes_participated: 0,
                disputes_resolved: 0,
                reputation: 100,
                is_active: true,
            },
        );
        ContractResult::ok(())
    }

    /// Increase the caller's arbitrator stake by `additional_stake`.
    ///
    /// Fails with `NotFound` if the caller is no arbitrator, and with
    /// `InvalidState` if the arbitrator is inactive or the new stake would
    /// not fit a balance. Votes already cast keep the weight they had.
    pub fn increase_arbitrator_stake(&mut self, additional_stake: Balance, caller: AccountId) -> (result:
        ContractResult<()>)
        requires
            old(self)@.wf(),
        ensures
            result.reports(old(self)@.increase_arbitrator_stake_result(additional_stake, caller)),
            final(self)@ == old(self)@.increase_arbitrator_stake_next(additional_stake, caller),
            final(self)@.wf(),
    {
        proof {
            self@.lemma_stake_operations_keep_wf(additional_stake, caller);
        }
        let at = match find_arbitrator(&self.arbitrators, &caller) {
            Some(at) => at,
            None => {
                return ContractResult::fail(ContractError::NotFound);
            },
        };
        if !self.arbitrators[at].is_active {
            return ContractResult::fail(ContractError::InvalidState);
        }
        let stake = match self.arbitrators[at].stake.checked_add(additional_stake) {
            Some(stake) => stake,
            None => {
                return ContractResult::fail(ContractError::InvalidState);
            },
        };
        self.arbitrators[at].stake = stake;
        assert(self@.arbitrators =~= old(self)@.increase_arbitrator_stake_next(
            additional_stake,
            caller,
        ).arbitrators);
        ContractResult::ok(())
    }

    /// Withdraw the caller's arbitrator stake, which deactivates the arbitrator.
    ///
    /// Fails with `NotFound` if the caller is no arbitrator, and with
    /// `InvalidState` if the arbitrator is inactive already or has a vote in
    /// a round that has not been finalized. On success the result carries
    /// the stake returned; the record and its counters stay.
    pub fn withdraw_arbitrator_stake(&mut self, caller: AccountId) -> (result: ContractResult<
        Balance,
    >)
        requires
            old(self)@.wf(),
        ensures
            result.reports(old(self)@.withdraw_arbitrator_stake_result(caller)),
            final(self)@ == old(self)@.withdraw_arbitrator_stake_next(caller),
            final(self)@.wf(),
    {
        proof {
            self@.lemma_withdraw_keeps_wf(caller);
        }
        let at = match find_arbitrator(&self.arbitrators, &caller) {
            Some(at) => at,
            None => {
                return ContractResult::fail(ContractError::NotFound);
            },
        };
        if !self.arbitrators[at].is_active {
            return ContractResult::fail(ContractError::InvalidState);
        }
        let mut i: usize = 0;
        while i < self.disputes.len()
            invariant
                i <= self.disputes.len(),
                *self == *old(self),
                self@.wf(),
                forall|id: int|
                    0 <= id < i ==> !((#[trigger] self@.disputes[id]).round_open()
                        && self@.disputes[id].voters().contains(caller)),
            decreases self.disputes.len() - i,
        {
            let status = self.disputes[i].dispute.status;
            let open = status == DisputeStatus::Voting || (status == DisputeStatus::Appealed
                && self.disputes[i].appeal_pending);
            if open && self.disputes[i].find_vote(&caller).is_some() {
                return ContractResult::fail(ContractError::InvalidState);
            }
            i += 1;
        }
        let stake = self.arbitrators[at].stake;
        self.arbitrators[at].stake = 0;
        self.arbitrators[at].is_active = false;
        assert(self@.arbitrators =~= old(self)@.withdraw_arbitrator_stake_next(
            caller,
        ).arbitrators);
        ContractResult::ok(stake)
    }

    /// Create a new dispute at ledger time `now`, with the caller as claimant.
    ///
    /// Always succeeds. The result carries the id of the new dispute, the
    /// next unused number; the dispute is `Open`, with no votes.
    pub fn create_dispute(&mut self, params: CreateDisputeParams, caller: AccountId, now: Timestamp)
        -> (result: ContractResult<u128>)
        requires
            old(self)@.wf(),
        ensures
            result.reports(Ok(old(self)@.disputes.len() as u128)),
            final(self)@ == old(self)@.create_dispute_next(params, caller, now),
            final(self)@.wf(),
    {
        let id = self.disputes.len() as u128;
        proof {
            self@.lemma_create_dispute_keeps_wf(params, caller, now);
        }
        let entry = DisputeEntry {
            dispute: Dispute {
                dispute_id: id,
                claimant: caller,
                defendant: params.defendant,
                description: params.description.clone(),
                evidence_uri: params.evidence_uri.clone(),
                status: DisputeStatus::Open,
                created_at: now,
                voting_ends_at: 0,
                votes_for_claimant: 0,
                votes_for_defendant: 0,
                resolution: None,
                can_appeal: false,
            },
            votes: Vec::new(),
            appeal_pending: false,
            resolved_at: 0,
        };
        self.disputes.push(entry);
        assert(self@.disputes =~= old(self)@.disputes.push(
            DisputeState::opened(id, params, caller, now),
        ));
        ContractResult::ok(id)
    }

    /// Withdraw a dispute before any voting.
    ///
    /// Fails with `NotFound` for an unknown dispute, with `NotAuthorized`
    /// unless the caller is the claimant, and with `InvalidState` unless
    /// the dispute is `Open`. On success the dispute is `Cancelled`, for good.
    pub fn cancel_dispute(&mut self, dispute_id: u128, caller: AccountId) -> (result:
        ContractResult<()>)
        requires
            old(self)@.wf(),
        ensures
            result.reports(old(self)@.cancel_dispute_result(dispute_id, caller)),
            final(self)@ == old(self)@.cancel_dispute_next(dispute_id, caller),
            final(self)@.wf(),
    {
        proof {
            self@.lemma_round_operations_keep_wf(
                dispute_id,
                VoteChoice::InFavorOfDefendant,
                caller,
                0,
            );
        }
        if dispute_id >= self.disputes.len() as u128 {
            return ContractResult::fail(ContractError::NotFound);
        }
        let id = dispute_id as usize;
        if caller != self.disputes[id].dispute.claimant {
            return ContractResult::fail(ContractError::NotAuthorized);
        }
        if self.disputes[id].dispute.status != DisputeStatus::Open {
            return ContractResult::fail(ContractError::InvalidState);
        }
        self.disputes[id].dispute.status = DisputeStatus::Cancelled;
        assert(self@.disputes =~= old(self)@.disputes.update(
            id as int,
            old(self)@.disputes[id as int].withdrawn(),
        ));
        ContractResult::ok(())
    }

    /// Start voting period for a dispute at ledger time `now`.
    ///
    /// Fails with `NotFound` for an unknown dispute, with `NotAuthorized`
    /// unless the caller is the claimant or the defendant, and with
    /// `InvalidState` unless the dispute is `Open` and the end of the window
    /// fits a timestamp. On success the dispute is `Voting` until one
    /// voting period after `now`.
    pub fn start_voting(&mut self, dispute_id: u128, caller: AccountId, now: Timestamp) -> (result:
        ContractResult<()>)
        requires
            old(self)@.wf(),
        ensures
            result.reports(old(self)@.start_voting_result(dispute_id, caller, now)),
            final(self)@ == old(self)@.start_voting_next(dispute_id, caller, now),
            final(self)@.wf(),
    {
        proof {
            self@.lemma_round_operations_keep_wf(
                dispute_id,
                VoteChoice::InFavorOfDefendant,
                caller,
                now,
            );
        }
        if dispute_id >= self.disputes.len() as u128 {
            return ContractResult::fail(ContractError::NotFound);
        }
        let id = dispute_id as usize;
        if caller != self.disputes[id].dispute.claimant && caller
            != self.disputes[id].dispute.defendant {
            return ContractResult::fail(ContractError::NotAuthorized);
        }
        if self.disputes[id].dispute.status != DisputeStatus::Open {
            return ContractResult::fail(ContractError::InvalidState);
        }
        let ends_at = match now.checked_add(self.config.voting_period) {
            Some(ends_at) => ends_at,
            None => {
                return ContractResult::fail(ContractError::InvalidState);
            },
        };
        self.disputes[id].dispute.status = DisputeStatus::Voting;
        self.disputes[id].dispute.voting_ends_at = ends_at;
        assert(self@.disputes =~= old(self)@.disputes.update(
            id as int,
            old(self)@.disputes[id as int].voting_until(ends_at),
        ));
        ContractResult::ok(())
    }

    /// Cast a vote on a dispute at ledger time `now`.
    ///
    /// Fails with `NotFound` for an unknown dispute, with `NotAuthorized`
    /// unless the caller is an active arbitrator, with `InvalidState`
    /// unless a voting round is open, with `VotingClosed` once `now` has
    /// reached the end of the window, with `AlreadyVoted` if the caller has
    /// voted in this round, and with `InvalidState` if the tally would not
    /// fit a balance. On success the caller's present stake is added to the
    /// tally of the chosen side.
    pub fn vote(&mut self, params: VoteParams, caller: AccountId, now: Timestamp) -> (result:
        ContractResult<()>)
        requires
            old(self)@.wf(),
        ensures
            result.reports(old(self)@.vote_result(params.dispute_id, params.choice, caller, now)),
            final(self)@ == old(self)@.vote_next(params.dispute_id, params.choice, caller, now),
            final(self)@.wf(),
    {
        proof {
            self@.lemma_round_operations_keep_wf(params.dispute_id, params.choice, caller, now);
        }
        if params.dispute_id >= self.disputes.len() as u128 {
            return ContractResult::fail(ContractError::NotFound);
        }
        let id = params.dispute_id as usize;
        let at = match find_arbitrator(&self.arbitrators, &caller) {
            Some(at) => at,
            None => {
                return ContractResult::fail(ContractError::NotAuthorized);
            },
        };
        if !self.arbitrators[at].is_active {
            return ContractResult::fail(ContractError::NotAuthorized);
        }
        let status = self.disputes[id].dispute.status;
        if !(status == DisputeStatus::Voting || (status == DisputeStatus::Appealed
            && self.disputes[id].appeal_pending)) {
            return ContractResult::fail(ContractError::InvalidState);
        }
        if now >= self.disputes[id].dispute.voting_ends_at {
            return ContractResult::fail(ContractError::VotingClosed);
        }
        if self.disputes[id].find_vote(&caller).is_some() {
            return ContractResult::fail(ContractError::AlreadyVoted);
        }
        let weight = self.arbitrators[at].stake;
        let for_claimant = params.choice == VoteChoice::InFavorOfClaimant;
        let tally = if for_claimant {
            self.disputes[id].dispute.votes_for_claimant
        } else {
            self.disputes[id].dispute.votes_for_defendant
        };
        let raised = match tally.checked_add(weight) {
            Some(raised) => raised,
            None => {
                return ContractResult::fail(ContractError::InvalidState);
            },
        };
        self.disputes[id].votes.push(
            VoteRecord { arbitrator: caller, choice: params.choice, weight },
        );
        if for_claimant {
            self.disputes[id].dispute.votes_for_claimant = raised;
        } else {
            self.disputes[id].dispute.votes_for_defendant = raised;
        }
        assert(self@.disputes =~= old(self)@.disputes.update(
            id as int,
            old(self)@.disputes[id as int].with_vote(
                VoteRecord { arbitrator: caller, choice: params.choice, weight },
            ),
        ));
        ContractResult::ok(())
    }

    /// Finalize a dispute after voting period, at ledger time `now`.
    /// Anyone may call this.
    ///
    /// Fails with `NotFound` for an unknown dispute, and with
    /// `InvalidState` unless a voting round is open and `now` has reached
    /// the end of its window. On success the result carries the resolution:
    /// the side with strictly more weight, the defendant on a tie. The
    /// first round leaves the dispute `Resolved` and open to one appeal;
    /// the appeal round leaves it `Appealed` for good. Every arbitrator who
    /// voted in the round has one more participation, and those who voted
    /// for the winning side one more resolved dispute and one more point
    /// of reputation; full counters stay full.
    pub fn finalize_dispute(&mut self, dispute_id: u128, now: Timestamp) -> (result: ContractResult<
        VoteChoice,
    >)
        requires
            old(self)@.wf(),
        ensures
            result.reports(old(self)@.finalize_dispute_result(dispute_id, now)),
            final(self)@ == old(self)@.finalize_dispute_next(dispute_id, now),
            final(self)@.wf(),
    {
        proof {
            self@.lemma_round_operations_keep_wf(
                dispute_id,
                VoteChoice::InFavorOfDefendant,
                self@.contract_address,
                now,
            );
        }
        if dispute_id >= self.disputes.len() as u128 {
            return ContractResult::fail(ContractError::NotFound);
        }
        let id = dispute_id as usize;
        let status = self.disputes[id].dispute.status;
        if !(status == DisputeStatus::Voting || (status == DisputeStatus::Appealed
            && self.disputes[id].appeal_pending)) || now
            < self.disputes[id].dispute.voting_ends_at {
            return ContractResult::fail(ContractError::InvalidState);
        }
        let winner = if self.disputes[id].dispute.votes_for_claimant
            > self.disputes[id].dispute.votes_for_defendant {
            VoteChoice::InFavorOfClaimant
        } else {
            VoteChoice::InFavorOfDefendant
        };
        let count = self.disputes[id].votes.len();
        let ghost before = self.arbitrators@;
        let ghost votes = self.disputes[id as int].votes@;
        let mut k: usize = 0;
        while k < count
            invariant
                k <= count,
                count == votes.len(),
                id < self.disputes.len(),
                self.disputes == old(self).disputes,
                self.contract_address == old(self).contract_address,
                self.config == old(self).config,
                votes == self.disputes[id as int].votes@,
                accounts_of(before).no_duplicates(),
                self.arbitrators@ == credited(before, votes.take(k as int), winner),
            decreases count - k,
        {
            let vote = self.disputes[id].votes[k];
            let ghost current = self.arbitrators@;
            proof {
                lemma_credited_keeps_stakes(before, votes.take(k as int), winner);
                assert(votes.take(k + 1).drop_last() =~= votes.take(k as int));
            }
            match find_arbitrator(&self.arbitrators, &vote.arbitrator) {
                Some(at) => {
                    let a = self.arbitrators[at];
                    let with_majority = vote.choice == winner;
                    self.arbitrators[at] = Arbitrator {
                        account: a.account,
                        stake: a.stake,
                        disputes_participated: a.disputes_participated.saturating_add(1),
                        disputes_resolved: if with_majority {
                            a.disputes_resolved.saturating_add(1)
                        } else {
                            a.disputes_resolved
                        },
                        reputation: if with_majority {
                            a.reputation.saturating_add(1)
                        } else {
                            a.reputation
                        },
                        is_active: a.is_active,
                    };
                    proof {
                        assert forall|j: int| 0 <= j < current.len() && j != at implies (
                        #[trigger] current[j]).account != vote.arbitrator by {
                            assert(accounts_of(current)[j] != accounts_of(current)[at as int]);
                        }
                    }
                },
                None => {
                },
            }
            k += 1;
        }
        assert(votes.take(count as int) =~= votes);
        self.disputes[id].dispute.status = if status == DisputeStatus::Voting {
            DisputeStatus::Resolved
        } else {
            DisputeStatus::Appealed
        };
        self.disputes[id].dispute.resolution = Some(winner);
        self.disputes[id].dispute.can_appeal = status == DisputeStatus::Voting;
        self.disputes[id].appeal_pending = false;
        self.disputes[id].resolved_at = now;
        assert(self@.disputes =~= old(self)@.disputes.update(
            id as int,
            old(self)@.disputes[id as int].finalized(now),
        ));
        ContractResult::ok(winner)
    }

    /// Appeal a dispute decision at ledger time `now`.
    ///
    /// Fails with `NotFound` for an unknown dispute; with `InvalidState`
    /// unless the dispute is `Resolved` and has not been appealed before;
    /// with `NotAuthorized` unless the caller is the party that lost; and
    /// with `InvalidState` once an appeal period has passed since the
    /// resolution, or if the end of the new window does not fit a
    /// timestamp. On success the dispute is `Appealed`, a fresh round with
    /// no votes is open until one voting period after `now`, and the
    /// earlier resolution stands until that round is finalized.
    pub fn appeal_dispute(&mut self, dispute_id: u128, caller: AccountId, now: Timestamp) -> (result:
        ContractResult<()>)
        requires
            old(self)@.wf(),
        ensures
            result.reports(old(self)@.appeal_dispute_result(dispute_id, caller, now)),
            final(self)@ == old(self)@.appeal_dispute_next(dispute_id, caller, now),
            final(self)@.wf(),
    {
        proof {
            self@.lemma_round_operations_keep_wf(
                dispute_id,
                VoteChoice::InFavorOfDefendant,
                caller,
                now,
            );
        }
        if dispute_id >= self.disputes.len() as u128 {
            return ContractResult::fail(ContractError::NotFound);
        }
        let id = dispute_id as usize;
        if self.disputes[id].dispute.status != DisputeStatus::Resolved
            || !self.disputes[id].dispute.can_appeal {
            return ContractResult::fail(ContractError::InvalidState);
        }
        let loser = match self.disputes[id].dispute.resolution {
            Some(VoteChoice::InFavorOfClaimant) => self.disputes[id].dispute.defendant,
            _ => self.disputes[id].dispute.claimant,
        };
        if caller != loser {
            return ContractResult::fail(ContractError::NotAuthorized);
        }
        let lapsed = match self.disputes[id].resolved_at.checked_add(self.config.appeal_period) {
            Some(deadline) => now >= deadline,
            None => false,
        };
        if lapsed {
            return ContractResult::fail(ContractError::InvalidState);
        }
        let ends_at = match now.checked_add(self.config.voting_period) {
            Some(ends_at) => ends_at,
            None => {
                return ContractResult::fail(ContractError::InvalidState);
            },
        };
        self.disputes[id].dispute.status = DisputeStatus::Appealed;
        self.disputes[id].dispute.can_appeal = false;
        self.disputes[id].dispute.voting_ends_at = ends_at;
        self.disputes[id].dispute.votes_for_claimant = 0;
        self.disputes[id].dispute.votes_for_defendant = 0;
        self.disputes[id].votes = Vec::new();
        self.disputes[id].appeal_pending = true;
        assert(self@.disputes =~= old(self)@.disputes.update(
            id as int,
            old(self)@.disputes[id as int].appealed(ends_at),
        ));
        ContractResult::ok(())
    }

    /// Get dispute details, or `None` if there is no such dispute.
    pub fn get_dispute(&self, dispute_id: u128) -> (dispute: Option<Dispute>)
        ensures
            dispute == if self@.has_dispute(dispute_id) {
                Some(self@.disputes[dispute_id as int].dispute)
            } else {
                None
            },
    {
        if dispute_id >= self.disputes.len() as u128 {
            return None;
        }
        Some(self.disputes[dispute_id as usize].dispute.clone())
    }

    /// Get arbitrator information, or `None` if the account is no arbitrator.
    pub fn get_arbitrator(&self, account: &AccountId) -> (arbitrator: Option<Arbitrator>)
        requires
            self@.wf(),
        ensures
            arbitrator == if self@.is_arbitrator(*account) {
                Some(self@.arbitrator_of(*account))
            } else {
                None
            },
    {
        match find_arbitrator(&self.arbitrators, account) {
            Some(at) => Some(self.arbitrators[at]),
            None => None,
        }
    }

    /// Get the vote of an arbitrator in the current round of a dispute, or
    /// `None` if there is no such dispute or the arbitrator has not voted in it.
    pub fn get_vote(&self, dispute_id: u128, arbitrator: &AccountId) -> (choice: Option<VoteChoice>)
        requires
            self@.wf(),
        ensures
            choice == if self@.has_dispute(dispute_id) && self@.disputes[dispute_id as int].voters().contains(
                *arbitrator,
            ) {
                Some(
                    self@.disputes[dispute_id as int].votes[self@.disputes[dispute_id as int].voters().index_of(
                        *arbitrator,
                    )].choice,
                )
            } else {
                None
            },
    {
        if dispute_id >= self.disputes.len() as u128 {
            return None;
        }
        let id = dispute_id as usize;
        match self.disputes[id].find_vote(arbitrator) {
            Some(at) => {
                proof {
                    lemma_account_position(
                        self@.disputes[id as int].voters(),
                        *arbitrator,
                        at as int,
                    );
                }
                Some(self.disputes[id].votes[at].choice)
            },
            None => None,
        }
    }

    /// Check if account is an active arbitrator.
    pub fn is_active_arbitrator(&self, account: &AccountId) -> (active: bool)
        requires
            self@.wf(),
        ensures
            active == (self@.is_arbitrator(*account) && self@.arbitrator_of(*account).is_active),
    {
        match find_arbitrator(&self.arbitrators, account) {
            Some(at) => self.arbitrators[at].is_active,
            None => false,
        }
    }

    /// Calculate voting results for a dispute: the tally for the claimant,
    /// the tally for the defendant, and the side that leads, which is the
    /// defendant on a tie. `None` if there is no such dispute.
    pub fn get_voting_results(&self, dispute_id: u128) -> (results: Option<
        (Balance, Balance, VoteChoice),
    >)
        ensures
            results == if self@.has_dispute(dispute_id) {
                Some(
                    (
                        self@.disputes[dispute_id as int].dispute.votes_for_claimant,
                        self@.disputes[dispute_id as int].dispute.votes_for_defendant,
                        self@.disputes[dispute_id as int].winner(),
                    ),
                )
            } else {
                None
            },
    {
        if dispute_id >= self.disputes.len() as u128 {
            return None;
        }
        let id = dispute_id as usize;
        let for_claimant = self.disputes[id].dispute.votes_for_claimant;
        let for_defendant = self.disputes[id].dispute.votes_for_defendant;
        let winning_choice = if for_claimant > for_defendant {
            VoteChoice::InFavorOfClaimant
        } else {
            VoteChoice::InFavorOfDefendant
        };
        Some((for_claimant, for_defendant, winning_choice))
    }

    /// Check if voting has ended for a dispute: whether `current_timestamp`
    /// has reached the end of its voting window, from which moment votes
    /// are refused and the round can be finalized. False if there is no
    /// such dispute.
    pub fn has_voting_ended(&self, dispute_id: u128, current_timestamp: Timestamp) -> (ended: bool)
        ensures
            ended == (self@.has_dispute(dispute_id) && current_timestamp
                >= self@.disputes[dispute_id as int].dispute.voting_ends_at),
    {
        if dispute_id >= self.disputes.len() as u128 {
            return false;
        }
        current_timestamp >= self.disputes[dispute_id as usize].dispute.voting_ends_at
    }
}

} // verus!
