//! Milestone escrow: agreements between a client and a provider whose deposit
//! is paid out milestone by milestone, with an oracle or a timeout to settle
//! disputes.

use super::types::AccountId;
use super::types::Agreement;
use super::types::Balance;
use super::types::ContractError;
use super::types::ContractResult;
use super::types::CreateAgreementParams;
use super::types::Milestone;
use super::types::MilestoneStatus;
use super::types::Timestamp;
use vstd::prelude::*;

verus! {

// ============================================================================
// Sums over milestones
// ============================================================================

/// Sum of a list of balances.
pub open spec fn sum_balances(amounts: Seq<Balance>) -> nat
    decreases amounts.len(),
{
    if amounts.len() == 0 {
        0
    } else {
        sum_balances(amounts.drop_last()) + amounts.last() as nat
    }
}

/// Sum of the amounts of the milestones that are in `status`.
pub open spec fn amount_with(milestones: Seq<Milestone>, status: MilestoneStatus) -> nat
    decreases milestones.len(),
{
    if milestones.len() == 0 {
        0
    } else {
        amount_with(milestones.drop_last(), status) + if milestones.last().status == status {
            milestones.last().amount as nat
        } else {
            0
        }
    }
}

/// Sum of the amounts of all milestones.
pub open spec fn total_amount(milestones: Seq<Milestone>) -> nat {
    amount_with(milestones, MilestoneStatus::Pending) + amount_with(
        milestones,
        MilestoneStatus::Completed,
    ) + amount_with(milestones, MilestoneStatus::Disputed) + amount_with(
        milestones,
        MilestoneStatus::Resolved,
    ) + amount_with(milestones, MilestoneStatus::Cancelled)
}

/// Sum of the amounts still held: those of milestones that are neither resolved nor cancelled.
pub open spec fn held_amount(milestones: Seq<Milestone>) -> nat {
    amount_with(milestones, MilestoneStatus::Pending) + amount_with(
        milestones,
        MilestoneStatus::Completed,
    ) + amount_with(milestones, MilestoneStatus::Disputed)
}

/// Whether a milestone in `status` is settled for good: resolved or cancelled.
pub open spec fn is_settled(status: MilestoneStatus) -> bool {
    status == MilestoneStatus::Resolved || status == MilestoneStatus::Cancelled
}

/// Whether some milestone is not settled yet.
pub open spec fn has_unsettled(milestones: Seq<Milestone>) -> bool {
    exists|i: int| 0 <= i < milestones.len() && !is_settled((#[trigger] milestones[i]).status)
}

/// The agreement record with its activity flag set to `is_active`.
pub open spec fn with_activity(info: Agreement, is_active: bool) -> Agreement {
    Agreement {
        client: info.client,
        provider: info.provider,
        total_amount: info.total_amount,
        deposited_amount: info.deposited_amount,
        created_at: info.created_at,
        dispute_timeout: info.dispute_timeout,
        oracle: info.oracle,
        is_active,
    }
}

/// The milestone `m` moved to `status`.
pub open spec fn milestone_in(m: Milestone, status: MilestoneStatus) -> Milestone {
    Milestone {
        description: m.description,
        amount: m.amount,
        status,
        deadline: m.deadline,
        oracle_verification: m.oracle_verification,
    }
}

/// The milestones an agreement starts with: one per entry of the three lists, all pending.
pub open spec fn fresh_milestones(
    descriptions: Seq<String>,
    amounts: Seq<Balance>,
    deadlines: Seq<Timestamp>,
    oracle_verification: bool,
) -> Seq<Milestone> {
    Seq::new(
        amounts.len(),
        |i: int|
            Milestone {
                description: descriptions[i],
                amount: amounts[i],
                status: MilestoneStatus::Pending,
                deadline: deadlines[i],
                oracle_verification,
            },
    )
}

/// A prefix of a list sums to no more than the list, and one more element adds its value.
pub proof fn lemma_sum_balances_prefix(amounts: Seq<Balance>, n: int)
    requires
        0 <= n <= amounts.len(),
    ensures
        sum_balances(amounts.take(n)) <= sum_balances(amounts),
        n < amounts.len() ==> sum_balances(amounts.take(n + 1)) == sum_balances(amounts.take(n))
            + amounts[n] as nat,
    decreases amounts.len(),
{
    if n < amounts.len() {
        assert(amounts.take(n + 1).drop_last() =~= amounts.take(n));
        assert(amounts.drop_last().take(n) =~= amounts.take(n));
        lemma_sum_balances_prefix(amounts.drop_last(), n);
    } else {
        assert(amounts.take(n) =~= amounts);
    }
}

/// Changing one milestone moves its amount out of the sum of its old status
/// and into the sum of its new one.
pub proof fn lemma_amount_with_update(
    milestones: Seq<Milestone>,
    index: int,
    replacement: Milestone,
    status: MilestoneStatus,
)
    requires
        0 <= index < milestones.len(),
    ensures
        amount_with(milestones.update(index, replacement), status) + (if milestones[index].status
            == status {
            milestones[index].amount as nat
        } else {
            0
        }) == amount_with(milestones, status) + (if replacement.status == status {
            replacement.amount as nat
        } else {
            0
        }),
    decreases milestones.len(),
{
    let updated = milestones.update(index, replacement);
    if index == milestones.len() - 1 {
        assert(updated.drop_last() =~= milestones.drop_last());
    } else {
        assert(updated.drop_last() =~= milestones.drop_last().update(index, replacement));
        lemma_amount_with_update(milestones.drop_last(), index, replacement, status);
    }
}

/// Fresh milestones carry the listed amounts, all of them pending.
pub proof fn lemma_fresh_milestones_sum(
    descriptions: Seq<String>,
    amounts: Seq<Balance>,
    deadlines: Seq<Timestamp>,
    oracle_verification: bool,
    status: MilestoneStatus,
)
    ensures
        amount_with(fresh_milestones(descriptions, amounts, deadlines, oracle_verification), status)
            == if status == MilestoneStatus::Pending {
            sum_balances(amounts)
        } else {
            0
        },
    decreases amounts.len(),
{
    let all = fresh_milestones(descriptions, amounts, deadlines, oracle_verification);
    if amounts.len() > 0 {
        assert(all.drop_last() =~= fresh_milestones(
            descriptions,
            amounts.drop_last(),
            deadlines,
            oracle_verification,
        ));
        lemma_fresh_milestones_sum(
            descriptions,
            amounts.drop_last(),
            deadlines,
            oracle_verification,
            status,
        );
    }
}

// ============================================================================
// The escrow as a mathematical state machine
// ============================================================================

/// What the escrow holds about one agreement.
pub struct AgreementState {
    /// Parties, amounts and deadlines.
    pub info: Agreement,
    /// The milestones, in the order given at creation.
    pub milestones: Seq<Milestone>,
    /// Sum released to the provider so far.
    pub paid_to_provider: nat,
    /// Sum returned to the client so far.
    pub refunded_to_client: nat,
}

impl AgreementState {
    /// Funds are conserved: the milestones add up to the deposit, which was
    /// made in full, and what has left the escrow is exactly the resolved
    /// and the cancelled milestones, of which the provider has had no more
    /// than the resolved ones. The agreement is active exactly while some
    /// milestone is not settled.
    pub open spec fn wf(self) -> bool {
        &&& self.milestones.len() <= u32::MAX
        &&& self.info.is_active == has_unsettled(self.milestones)
        &&& total_amount(self.milestones) == self.info.total_amount
        &&& self.info.deposited_amount == self.info.total_amount
        &&& self.paid_to_provider + self.refunded_to_client == amount_with(
            self.milestones,
            MilestoneStatus::Resolved,
        ) + amount_with(self.milestones, MilestoneStatus::Cancelled)
        &&& self.paid_to_provider <= amount_with(self.milestones, MilestoneStatus::Resolved)
    }

    /// `who` is the client or the provider.
    pub open spec fn is_party(self, who: AccountId) -> bool {
        who == self.info.client || who == self.info.provider
    }

    /// `who` is the designated oracle.
    pub open spec fn is_oracle(self, who: AccountId) -> bool {
        self.info.oracle == Some(who)
    }

    /// Who may approve a completed milestone: the client or the oracle.
    pub open spec fn may_release(self, who: AccountId) -> bool {
        who == self.info.client || self.is_oracle(who)
    }

    /// Who may settle a dispute: the oracle at any time, either party once
    /// the dispute timeout has passed.
    pub open spec fn may_resolve(self, who: AccountId, now: Timestamp) -> bool {
        self.is_oracle(who) || (now >= self.info.dispute_timeout && self.is_party(who))
    }

    /// The agreement with milestone `index` moved to `status`.
    pub open spec fn with_status(self, index: int, status: MilestoneStatus) -> AgreementState {
        AgreementState {
            info: self.info,
            milestones: self.milestones.update(
                index,
                milestone_in(self.milestones[index], status),
            ),
            paid_to_provider: self.paid_to_provider,
            refunded_to_client: self.refunded_to_client,
        }
    }

    /// The agreement with milestone `index` cancelled and its amount sent
    /// back to the client. The agreement stays active if another milestone
    /// is still unsettled.
    pub open spec fn cancelled(self, index: int) -> AgreementState {
        let milestones = self.milestones.update(
            index,
            milestone_in(self.milestones[index], MilestoneStatus::Cancelled),
        );
        AgreementState {
            info: with_activity(self.info, has_unsettled(milestones)),
            milestones,
            paid_to_provider: self.paid_to_provider,
            refunded_to_client: self.refunded_to_client + self.milestones[index].amount as nat,
        }
    }

    /// The agreement with milestone `index` resolved and its amount sent to
    /// the provider, or back to the client. The agreement stays active if
    /// another milestone is still unsettled.
    pub open spec fn settled(self, index: int, to_provider: bool) -> AgreementState {
        let amount = self.milestones[index].amount as nat;
        let milestones = self.milestones.update(
            index,
            milestone_in(self.milestones[index], MilestoneStatus::Resolved),
        );
        AgreementState {
            info: with_activity(self.info, has_unsettled(milestones)),
            milestones,
            paid_to_provider: if to_provider {
                self.paid_to_provider + amount
            } else {
                self.paid_to_provider
            },
            refunded_to_client: if to_provider {
                self.refunded_to_client
            } else {
                self.refunded_to_client + amount
            },
        }
    }
}

/// The whole escrow: its address and every agreement, indexed by agreement id.
pub struct EscrowState {
    pub contract_address: AccountId,
    pub agreements: Seq<AgreementState>,
}

impl EscrowState {
    /// Every agreement conserves its funds.
    pub open spec fn wf(self) -> bool {
        forall|id: int| 0 <= id < self.agreements.len() ==> (#[trigger] self.agreements[id]).wf()
    }

    /// Whether the agreement exists and has a milestone at `index`.
    pub open spec fn has_milestone(self, agreement_id: u128, index: u32) -> bool {
        agreement_id < self.agreements.len() && index
            < self.agreements[agreement_id as int].milestones.len()
    }

    /// The status of a milestone.
    pub open spec fn status_of(self, agreement_id: u128, index: u32) -> MilestoneStatus {
        self.agreements[agreement_id as int].milestones[index as int].status
    }

    /// The state with one agreement replaced.
    pub open spec fn with_agreement(self, agreement_id: u128, agreement: AgreementState)
        -> EscrowState {
        EscrowState {
            contract_address: self.contract_address,
            agreements: self.agreements.update(agreement_id as int, agreement),
        }
    }

    /// Outcome of `create_agreement`: the new id, or `AmountMismatch` when the
    /// three lists differ in length or the amounts do not add up to `value`.
    pub open spec fn create_agreement_result(
        self,
        descriptions: Seq<String>,
        amounts: Seq<Balance>,
        deadlines: Seq<Timestamp>,
        value: Balance,
    ) -> Result<u128, ContractError> {
        if descriptions.len() != amounts.len() || deadlines.len() != amounts.len() || sum_balances(
            amounts,
        ) != value {
            Err(ContractError::AmountMismatch)
        } else {
            Ok(self.agreements.len() as u128)
        }
    }

    /// The agreement that a successful `create_agreement` records.
    pub open spec fn created_agreement(
        params: CreateAgreementParams,
        caller: AccountId,
        now: Timestamp,
    ) -> AgreementState {
        AgreementState {
            info: Agreement {
                client: caller,
                provider: params.provider,
                total_amount: params.value,
                deposited_amount: params.value,
                created_at: now,
                dispute_timeout: params.dispute_timeout,
                oracle: params.oracle,
                is_active: params.milestone_amounts@.len() > 0,
            },
            milestones: fresh_milestones(
                params.milestone_descriptions@,
                params.milestone_amounts@,
                params.milestone_deadlines@,
                params.oracle is Some,
            ),
            paid_to_provider: 0,
            refunded_to_client: 0,
        }
    }

    /// State after `create_agreement`.
    pub open spec fn create_agreement_next(
        self,
        params: CreateAgreementParams,
        caller: AccountId,
        now: Timestamp,
    ) -> EscrowState {
        if self.create_agreement_result(
            params.milestone_descriptions@,
            params.milestone_amounts@,
            params.milestone_deadlines@,
            params.value,
        ) is Ok {
            EscrowState {
                contract_address: self.contract_address,
                agreements: self.agreements.push(Self::created_agreement(params, caller, now)),
            }
        } else {
            self
        }
    }

    /// Outcome of `complete_milestone`: only the provider, only from `Pending`.
    pub open spec fn complete_milestone_result(
        self,
        agreement_id: u128,
        index: u32,
        caller: AccountId,
    ) -> Result<(), ContractError> {
        if !self.has_milestone(agreement_id, index) {
            Err(ContractError::NotFound)
        } else if caller != self.agreements[agreement_id as int].info.provider {
            Err(ContractError::NotAuthorized)
        } else if self.status_of(agreement_id, index) != MilestoneStatus::Pending {
            Err(ContractError::InvalidState)
        } else {
            Ok(())
        }
    }

    /// State after `complete_milestone`.
    pub open spec fn complete_milestone_next(
        self,
        agreement_id: u128,
        index: u32,
        caller: AccountId,
    ) -> EscrowState {
        if self.complete_milestone_result(agreement_id, index, caller) is Ok {
            self.with_agreement(
                agreement_id,
                self.agreements[agreement_id as int].with_status(
                    index as int,
                    MilestoneStatus::Completed,
                ),
            )
        } else {
            self
        }
    }

    /// Outcome of `cancel_milestone`: only the client, only from `Pending`,
    /// and only once the milestone's deadline has passed.
    pub open spec fn cancel_milestone_result(
        self,
        agreement_id: u128,
        index: u32,
        caller: AccountId,
        now: Timestamp,
    ) -> Result<(), ContractError> {
        if !self.has_milestone(agreement_id, index) {
            Err(ContractError::NotFound)
        } else if caller != self.agreements[agreement_id as int].info.client {
            Err(ContractError::NotAuthorized)
        } else if self.status_of(agreement_id, index) != MilestoneStatus::Pending || now
            <= self.agreements[agreement_id as int].milestones[index as int].deadline {
            Err(ContractError::InvalidState)
        } else {
            Ok(())
        }
    }

    /// State after `cancel_milestone`: the amount goes back to the client.
    pub open spec fn cancel_milestone_next(
        self,
        agreement_id: u128,
        index: u32,
        caller: AccountId,
        now: Timestamp,
    ) -> EscrowState {
        if self.cancel_milestone_result(agreement_id, index, caller, now) is Ok {
            self.with_agreement(
                agreement_id,
                self.agreements[agreement_id as int].cancelled(index as int),
            )
        } else {
            self
        }
    }

    /// Outcome of `approve_and_release`: only the client or the oracle, only from `Completed`.
    pub open spec fn approve_and_release_result(
        self,
        agreement_id: u128,
        index: u32,
        caller: AccountId,
    ) -> Result<(), ContractError> {
        if !self.has_milestone(agreement_id, index) {
            Err(ContractError::NotFound)
        } else if !self.agreements[agreement_id as int].may_release(caller) {
            Err(ContractError::NotAuthorized)
        } else if self.status_of(agreement_id, index) != MilestoneStatus::Completed {
            Err(ContractError::InvalidState)
        } else {
            Ok(())
        }
    }

    /// State after `approve_and_release`: the amount goes to the provider.
    pub open spec fn approve_and_release_next(
        self,
        agreement_id: u128,
        index: u32,
        caller: AccountId,
    ) -> EscrowState {
        if self.approve_and_release_result(agreement_id, index, caller) is Ok {
            self.with_agreement(
                agreement_id,
                self.agreements[agreement_id as int].settled(index as int, true),
            )
        } else {
            self
        }
    }

    /// Outcome of `raise_dispute`: only a party, only from `Pending` or
    /// `Completed`, only before the dispute timeout.
    pub open spec fn raise_dispute_result(
        self,
        agreement_id: u128,
        index: u32,
        caller: AccountId,
        now: Timestamp,
    ) -> Result<(), ContractError> {
        if !self.has_milestone(agreement_id, index) {
            Err(ContractError::NotFound)
        } else if !self.agreements[agreement_id as int].is_party(caller) {
            Err(ContractError::NotAuthorized)
        } else if (self.status_of(agreement_id, index) != MilestoneStatus::Pending
            && self.status_of(agreement_id, index) != MilestoneStatus::Completed) || now
            >= self.agreements[agreement_id as int].info.dispute_timeout {
            Err(ContractError::InvalidState)
        } else {
            Ok(())
        }
    }

    /// State after `raise_dispute`.
    pub open spec fn raise_dispute_next(
        self,
        agreement_id: u128,
        index: u32,
        caller: AccountId,
        now: Timestamp,
    ) -> EscrowState {
        if self.raise_dispute_result(agreement_id, index, caller, now) is Ok {
            self.with_agreement(
                agreement_id,
                self.agreements[agreement_id as int].with_status(
                    index as int,
                    MilestoneStatus::Disputed,
                ),
            )
        } else {
            self
        }
    }

    /// Outcome of `resolve_dispute`: the oracle at any time, or either party
    /// once the dispute timeout has passed; only from `Disputed`.
    pub open spec fn resolve_dispute_result(
        self,
        agreement_id: u128,
        index: u32,
        caller: AccountId,
        now: Timestamp,
    ) -> Result<(), ContractError> {
        if !self.has_milestone(agreement_id, index) {
            Err(ContractError::NotFound)
        } else if !self.agreements[agreement_id as int].may_resolve(caller, now) {
            Err(ContractError::NotAuthorized)
        } else if self.status_of(agreement_id, index) != MilestoneStatus::Disputed {
            Err(ContractError::InvalidState)
        } else {
            Ok(())
        }
    }

    /// State after `resolve_dispute`: the amount goes to the provider or back to the client.
    pub open spec fn resolve_dispute_next(
        self,
        agreement_id: u128,
        index: u32,
        release_to_provider: bool,
        caller: AccountId,
        now: Timestamp,
    ) -> EscrowState {
        if self.resolve_dispute_result(agreement_id, index, caller, now) is Ok {
            self.with_agreement(
                agreement_id,
                self.agreements[agreement_id as int].settled(index as int, release_to_provider),
            )
        } else {
            self
        }
    }
}

// ============================================================================
// What holds of every escrow state
// ============================================================================

impl AgreementState {
    /// Moving a milestone among the three unsettled statuses keeps the funds conserved.
    pub proof fn lemma_with_status_wf(self, index: int, status: MilestoneStatus)
        requires
            self.wf(),
            0 <= index < self.milestones.len(),
            self.milestones[index].status != MilestoneStatus::Resolved,
            self.milestones[index].status != MilestoneStatus::Cancelled,
            status != MilestoneStatus::Resolved,
            status != MilestoneStatus::Cancelled,
        ensures
            self.with_status(index, status).wf(),
    {
        let m = milestone_in(self.milestones[index], status);
        assert(!is_settled(self.with_status(index, status).milestones[index].status));
        lemma_amount_with_update(self.milestones, index, m, MilestoneStatus::Pending);
        lemma_amount_with_update(self.milestones, index, m, MilestoneStatus::Completed);
        lemma_amount_with_update(self.milestones, index, m, MilestoneStatus::Disputed);
        lemma_amount_with_update(self.milestones, index, m, MilestoneStatus::Resolved);
        lemma_amount_with_update(self.milestones, index, m, MilestoneStatus::Cancelled);
    }

    /// Settling an unsettled milestone keeps the funds conserved: its amount
    /// leaves the held sum and reaches exactly one of the two parties.
    pub proof fn lemma_settled_wf(self, index: int, to_provider: bool)
        requires
            self.wf(),
            0 <= index < self.milestones.len(),
            self.milestones[index].status != MilestoneStatus::Resolved,
            self.milestones[index].status != MilestoneStatus::Cancelled,
        ensures
            self.settled(index, to_provider).wf(),
            self.settled(index, to_provider).paid_to_provider + self.settled(
                index,
                to_provider,
            ).refunded_to_client == self.paid_to_provider + self.refunded_to_client
                + self.milestones[index].amount,
            held_amount(self.settled(index, to_provider).milestones) + self.milestones[index].amount
                == held_amount(self.milestones),
    {
        let m = milestone_in(self.milestones[index], MilestoneStatus::Resolved);
        lemma_amount_with_update(self.milestones, index, m, MilestoneStatus::Pending);
        lemma_amount_with_update(self.milestones, index, m, MilestoneStatus::Completed);
        lemma_amount_with_update(self.milestones, index, m, MilestoneStatus::Disputed);
        lemma_amount_with_update(self.milestones, index, m, MilestoneStatus::Resolved);
        lemma_amount_with_update(self.milestones, index, m, MilestoneStatus::Cancelled);
    }
}

impl AgreementState {
    /// Cancelling an unsettled milestone keeps the funds conserved: its
    /// amount leaves the held sum and returns to the client.
    pub proof fn lemma_cancelled_wf(self, index: int)
        requires
            self.wf(),
            0 <= index < self.milestones.len(),
            self.milestones[index].status != MilestoneStatus::Resolved,
            self.milestones[index].status != MilestoneStatus::Cancelled,
        ensures
            self.cancelled(index).wf(),
            held_amount(self.cancelled(index).milestones) + self.milestones[index].amount
                == held_amount(self.milestones),
    {
        let m = milestone_in(self.milestones[index], MilestoneStatus::Cancelled);
        lemma_amount_with_update(self.milestones, index, m, MilestoneStatus::Pending);
        lemma_amount_with_update(self.milestones, index, m, MilestoneStatus::Completed);
        lemma_amount_with_update(self.milestones, index, m, MilestoneStatus::Disputed);
        lemma_amount_with_update(self.milestones, index, m, MilestoneStatus::Resolved);
        lemma_amount_with_update(self.milestones, index, m, MilestoneStatus::Cancelled);
    }
}

impl EscrowState {
    /// Funds conservation: in every agreement the milestone amounts add up to
    /// the total, the total was deposited in full, and the deposit is at all
    /// times the sum of what was paid out, what was refunded and what is
    /// still held for unsettled milestones. What was paid out or refunded is
    /// exactly the resolved and cancelled milestones, and the provider was
    /// paid for resolved milestones only.
    pub proof fn lemma_funds_conserved(self, agreement_id: u128)
        requires
            self.wf(),
            agreement_id < self.agreements.len(),
        ensures
            ({
                let a = self.agreements[agreement_id as int];
                &&& total_amount(a.milestones) == a.info.total_amount
                &&& a.info.total_amount == a.info.deposited_amount
                &&& a.paid_to_provider + a.refunded_to_client == amount_with(
                    a.milestones,
                    MilestoneStatus::Resolved,
                ) + amount_with(a.milestones, MilestoneStatus::Cancelled)
                &&& a.paid_to_provider <= amount_with(a.milestones, MilestoneStatus::Resolved)
                &&& a.paid_to_provider + a.refunded_to_client + held_amount(a.milestones)
                    == a.info.deposited_amount
            }),
    {
    }

    /// A successful `create_agreement` records an agreement whose milestones
    /// add up to the deposit, and keeps the funds of all agreements conserved.
    pub proof fn lemma_create_agreement_wf(
        self,
        params: CreateAgreementParams,
        caller: AccountId,
        now: Timestamp,
    )
        requires
            self.wf(),
            params.milestone_amounts@.len() <= u32::MAX,
        ensures
            self.create_agreement_next(params, caller, now).wf(),
    {
        let next = self.create_agreement_next(params, caller, now);
        if next != self {
            lemma_fresh_milestones_sum(
                params.milestone_descriptions@,
                params.milestone_amounts@,
                params.milestone_deadlines@,
                params.oracle is Some,
                MilestoneStatus::Pending,
            );
            lemma_fresh_milestones_sum(
                params.milestone_descriptions@,
                params.milestone_amounts@,
                params.milestone_deadlines@,
                params.oracle is Some,
                MilestoneStatus::Completed,
            );
            lemma_fresh_milestones_sum(
                params.milestone_descriptions@,
                params.milestone_amounts@,
                params.milestone_deadlines@,
                params.oracle is Some,
                MilestoneStatus::Disputed,
            );
            lemma_fresh_milestones_sum(
                params.milestone_descriptions@,
                params.milestone_amounts@,
                params.milestone_deadlines@,
                params.oracle is Some,
                MilestoneStatus::Resolved,
            );
            lemma_fresh_milestones_sum(
                params.milestone_descriptions@,
                params.milestone_amounts@,
                params.milestone_deadlines@,
                params.oracle is Some,
                MilestoneStatus::Cancelled,
            );
        }
    }

    /// Replacing one agreement by a well-formed one keeps the state well formed.
    pub proof fn lemma_with_agreement_wf(self, agreement_id: u128, agreement: AgreementState)
        requires
            self.wf(),
            agreement_id < self.agreements.len(),
            agreement.wf(),
        ensures
            self.with_agreement(agreement_id, agreement).wf(),
    {
    }

    /// Every milestone operation keeps the funds of all agreements conserved,
    /// whoever calls it and whenever.
    pub proof fn lemma_operations_keep_wf(
        self,
        agreement_id: u128,
        index: u32,
        release_to_provider: bool,
        caller: AccountId,
        now: Timestamp,
    )
        requires
            self.wf(),
        ensures
            self.complete_milestone_next(agreement_id, index, caller).wf(),
            self.approve_and_release_next(agreement_id, index, caller).wf(),
            self.raise_dispute_next(agreement_id, index, caller, now).wf(),
            self.resolve_dispute_next(agreement_id, index, release_to_provider, caller, now).wf(),
            self.cancel_milestone_next(agreement_id, index, caller, now).wf(),
    {
        if self.has_milestone(agreement_id, index) {
            let a = self.agreements[agreement_id as int];
            if self.cancel_milestone_result(agreement_id, index, caller, now) is Ok {
                a.lemma_cancelled_wf(index as int);
                self.lemma_with_agreement_wf(agreement_id, a.cancelled(index as int));
            }
            if self.complete_milestone_result(agreement_id, index, caller) is Ok {
                a.lemma_with_status_wf(index as int, MilestoneStatus::Completed);
                self.lemma_with_agreement_wf(
                    agreement_id,
                    a.with_status(index as int, MilestoneStatus::Completed),
                );
            }
            if self.raise_dispute_result(agreement_id, index, caller, now) is Ok {
                a.lemma_with_status_wf(index as int, MilestoneStatus::Disputed);
                self.lemma_with_agreement_wf(
                    agreement_id,
                    a.with_status(index as int, MilestoneStatus::Disputed),
                );
            }
            if self.approve_and_release_result(agreement_id, index, caller) is Ok {
                a.lemma_settled_wf(index as int, true);
                self.lemma_with_agreement_wf(agreement_id, a.settled(index as int, true));
            }
            if self.resolve_dispute_result(agreement_id, index, caller, now) is Ok {
                a.lemma_settled_wf(index as int, release_to_provider);
                self.lemma_with_agreement_wf(
                    agreement_id,
                    a.settled(index as int, release_to_provider),
                );
            }
        }
    }

    /// No disputed milestone can be locked: the oracle alone settles it at
    /// any time, and once the dispute timeout has passed either party alone
    /// does. The settlement resolves the milestone and moves its amount, once,
    /// to the party named.
    pub proof fn lemma_disputed_can_be_resolved(
        self,
        agreement_id: u128,
        index: u32,
        release_to_provider: bool,
        caller: AccountId,
        now: Timestamp,
    )
        requires
            self.wf(),
            self.has_milestone(agreement_id, index),
            self.status_of(agreement_id, index) == MilestoneStatus::Disputed,
            self.agreements[agreement_id as int].is_oracle(caller) || (now
                >= self.agreements[agreement_id as int].info.dispute_timeout
                && self.agreements[agreement_id as int].is_party(caller)),
        ensures
            self.resolve_dispute_result(agreement_id, index, caller, now) is Ok,
            ({
                let before = self.agreements[agreement_id as int];
                let next = self.resolve_dispute_next(
                    agreement_id,
                    index,
                    release_to_provider,
                    caller,
                    now,
                );
                let after = next.agreements[agreement_id as int];
                let amount = before.milestones[index as int].amount;
                &&& next.status_of(agreement_id, index) == MilestoneStatus::Resolved
                &&& after.paid_to_provider == before.paid_to_provider + if release_to_provider {
                    amount
                } else {
                    0
                }
                &&& after.refunded_to_client == before.refunded_to_client + if release_to_provider {
                    0
                } else {
                    amount
                }
            }),
    {
    }

    /// No pending milestone whose deadline has passed can be locked: the
    /// client alone cancels it, and its amount returns to the client, once.
    pub proof fn lemma_lapsed_can_be_cancelled(
        self,
        agreement_id: u128,
        index: u32,
        caller: AccountId,
        now: Timestamp,
    )
        requires
            self.has_milestone(agreement_id, index),
            self.status_of(agreement_id, index) == MilestoneStatus::Pending,
            caller == self.agreements[agreement_id as int].info.client,
            now > self.agreements[agreement_id as int].milestones[index as int].deadline,
        ensures
            self.cancel_milestone_result(agreement_id, index, caller, now) is Ok,
            ({
                let before = self.agreements[agreement_id as int];
                let next = self.cancel_milestone_next(agreement_id, index, caller, now);
                let after = next.agreements[agreement_id as int];
                &&& next.status_of(agreement_id, index) == MilestoneStatus::Cancelled
                &&& after.paid_to_provider == before.paid_to_provider
                &&& after.refunded_to_client == before.refunded_to_client
                    + before.milestones[index as int].amount
            }),
    {
    }

    /// A resolved or cancelled milestone is final: every later operation on
    /// it fails, for whoever calls it and whenever, and leaves the whole
    /// state as it was. A caller entitled to the operation is told
    /// `InvalidState`.
    pub proof fn lemma_settled_is_final(
        self,
        agreement_id: u128,
        index: u32,
        release_to_provider: bool,
        caller: AccountId,
        now: Timestamp,
    )
        requires
            self.has_milestone(agreement_id, index),
            self.status_of(agreement_id, index) == MilestoneStatus::Resolved || self.status_of(
                agreement_id,
                index,
            ) == MilestoneStatus::Cancelled,
        ensures
            self.cancel_milestone_result(agreement_id, index, caller, now) is Err,
            self.cancel_milestone_next(agreement_id, index, caller, now) == self,
            self.complete_milestone_result(agreement_id, index, caller) is Err,
            self.approve_and_release_result(agreement_id, index, caller) is Err,
            self.raise_dispute_result(agreement_id, index, caller, now) is Err,
            self.resolve_dispute_result(agreement_id, index, caller, now) is Err,
            self.complete_milestone_next(agreement_id, index, caller) == self,
            self.approve_and_release_next(agreement_id, index, caller) == self,
            self.raise_dispute_next(agreement_id, index, caller, now) == self,
            self.resolve_dispute_next(agreement_id, index, release_to_provider, caller, now)
                == self,
            self.agreements[agreement_id as int].may_release(caller)
                ==> self.approve_and_release_result(agreement_id, index, caller) == Err::<
                (),
                ContractError,
            >(ContractError::InvalidState),
            self.agreements[agreement_id as int].may_resolve(caller, now)
                ==> self.resolve_dispute_result(agreement_id, index, caller, now) == Err::<
                (),
                ContractError,
            >(ContractError::InvalidState),
    {
    }

    /// Funds are released at most once: after a successful release of a
    /// milestone, a second `approve_and_release` by the same caller fails
    /// with `InvalidState` and moves nothing.
    pub proof fn lemma_release_at_most_once(
        self,
        agreement_id: u128,
        index: u32,
        caller: AccountId,
    )
        requires
            self.approve_and_release_result(agreement_id, index, caller) is Ok,
        ensures
            ({
                let next = self.approve_and_release_next(agreement_id, index, caller);
                &&& next.status_of(agreement_id, index) == MilestoneStatus::Resolved
                &&& next.approve_and_release_result(agreement_id, index, caller) == Err::<
                    (),
                    ContractError,
                >(ContractError::InvalidState)
                &&& next.approve_and_release_next(agreement_id, index, caller) == next
            }),
    {
    }
}

// ============================================================================
// The escrow contract
// ============================================================================

/// One agreement as the contract stores it.
struct AgreementEntry {
    info: Agreement,
    milestones: Vec<Milestone>,
    paid_to_provider: Balance,
    refunded_to_client: Balance,
}

impl View for AgreementEntry {
    type V = AgreementState;

    closed spec fn view(&self) -> AgreementState {
        AgreementState {
            info: self.info,
            milestones: self.milestones@,
            paid_to_provider: self.paid_to_provider as nat,
            refunded_to_client: self.refunded_to_client as nat,
        }
    }
}

/// The escrow contract: milestone-based payment with dispute resolution.
///
/// Agreements are numbered from zero in the order of their creation and are
/// never removed. All changes go through the operations below; each either
/// applies in full or leaves the contract as it was.
pub struct EscrowContract {
    contract_address: AccountId,
    entries: Vec<AgreementEntry>,
}

impl View for EscrowContract {
    type V = EscrowState;

    closed spec fn view(&self) -> EscrowState {
        EscrowState {
            contract_address: self.contract_address,
            agreements: self.entries@.map_values(|e: AgreementEntry| e@),
        }
    }
}

/// Whether some milestone is not settled yet.
fn any_unsettled(milestones: &Vec<Milestone>) -> (unsettled: bool)
    ensures
        unsettled == has_unsettled(milestones@),
{
    let mut i: usize = 0;
    while i < milestones.len()
        invariant
            i <= milestones.len(),
            forall|k: int| 0 <= k < i ==> is_settled((#[trigger] milestones@[k]).status),
        decreases milestones.len() - i,
    {
        let status = milestones[i].status;
        if status != MilestoneStatus::Resolved && status != MilestoneStatus::Cancelled {
            return true;
        }
        i += 1;
    }
    false
}

/// Whether `slot` names the account `who`.
fn names_account(slot: &Option<AccountId>, who: &AccountId) -> (named: bool)
    ensures
        named == (*slot == Some(*who)),
{
    match slot {
        Some(account) => *account == *who,
        None => false,
    }
}

impl EscrowContract {
    /// An escrow at `contract_address` with no agreements.
    pub fn new(contract_address: AccountId) -> (escrow: Self)
        ensures
            escrow@.contract_address == contract_address,
            escrow@.agreements.len() == 0,
            escrow@.wf(),
    {
        EscrowContract { contract_address, entries: Vec::new() }
    }

    /// Update contract address. The agreements stay as they are.
    pub fn set_contract_address(&mut self, address: AccountId)
        ensures
            final(self)@.contract_address == address,
            final(self)@.agreements == old(self)@.agreements,
    {
        self.contract_address = address;
    }

    /// The address of the contract.
    pub fn contract_address(&self) -> (address: AccountId)
        ensures
            address == self@.contract_address,
    {
        self.contract_address
    }

    /// Where a milestone is stored, if it exists.
    fn locate(&self, agreement_id: u128, milestone_index: u32) -> (place: Option<(usize, usize)>)
        ensures
            place is Some == self@.has_milestone(agreement_id, milestone_index),
            place matches Some((a, m)) ==> a == agreement_id && m == milestone_index && a
                < self.entries.len() && m < self.entries[a as int].milestones.len(),
    {
        if agreement_id >= self.entries.len() as u128 {
            return None;
        }
        let a = agreement_id as usize;
        let m = milestone_index as usize;
        if m >= self.entries[a].milestones.len() {
            return None;
        }
        Some((a, m))
    }

    /// Moves a stored milestone to `status`.
    fn set_status(&mut self, a: usize, m: usize, status: MilestoneStatus)
        requires
            a < old(self).entries.len(),
            m < old(self).entries[a as int].milestones.len(),
        ensures
            final(self)@ == old(self)@.with_agreement(
                a as u128,
                old(self)@.agreements[a as int].with_status(m as int, status),
            ),
    {
        self.entries[a].milestones[m].status = status;
        assert(self@.agreements =~= old(self)@.agreements.update(
            a as int,
            old(self)@.agreements[a as int].with_status(m as int, status),
        ));
    }

    /// Resolves a stored milestone and books its amount to one party.
    fn settle(&mut self, a: usize, m: usize, to_provider: bool)
        requires
            old(self)@.wf(),
            a < old(self).entries.len(),
            m < old(self).entries[a as int].milestones.len(),
            old(self).entries[a as int].milestones[m as int].status != MilestoneStatus::Resolved,
            old(self).entries[a as int].milestones[m as int].status != MilestoneStatus::Cancelled,
        ensures
            final(self)@ == old(self)@.with_agreement(
                a as u128,
                old(self)@.agreements[a as int].settled(m as int, to_provider),
            ),
    {
        proof {
            let before = self@.agreements[a as int];
            before.lemma_settled_wf(m as int, to_provider);
        }
        let amount = self.entries[a].milestones[m].amount;
        self.entries[a].milestones[m].status = MilestoneStatus::Resolved;
        let still_active = any_unsettled(&self.entries[a].milestones);
        self.entries[a].info.is_active = still_active;
        if to_provider {
            self.entries[a].paid_to_provider = self.entries[a].paid_to_provider + amount;
        } else {
            self.entries[a].refunded_to_client = self.entries[a].refunded_to_client + amount;
        }
        assert(self@.agreements =~= old(self)@.agreements.update(
            a as int,
            old(self)@.agreements[a as int].settled(m as int, to_provider),
        ));
    }

    /// Create a new escrow agreement, funded in full by `params.value`.
    ///
    /// The caller becomes the client. The three milestone lists must have one
    /// length and the amounts must add up to `params.value`; otherwise the
    /// call fails with `AmountMismatch`. On success the result carries the
    /// id of the new agreement, the next unused number. Every milestone
    /// starts `Pending`, and is marked for oracle verification exactly when
    /// an oracle is named. The agreement is active while it has a milestone
    /// that is neither resolved nor cancelled.
    pub fn create_agreement(
        &mut self,
        params: CreateAgreementParams,
        caller: AccountId,
        now: Timestamp,
    ) -> (result: ContractResult<u128>)
        requires
            old(self)@.wf(),
            params.milestone_amounts.len() <= u32::MAX,
        ensures
            result.reports(
                old(self)@.create_agreement_result(
                    params.milestone_descriptions@,
                    params.milestone_amounts@,
                    params.milestone_deadlines@,
                    params.value,
                ),
            ),
            final(self)@ == old(self)@.create_agreement_next(params, caller, now),
            final(self)@.wf(),
    {
        proof {
            self@.lemma_create_agreement_wf(params, caller, now);
        }
        let count = params.milestone_amounts.len();
        if params.milestone_descriptions.len() != count || params.milestone_deadlines.len()
            != count {
            return ContractResult::fail(ContractError::AmountMismatch);
        }
        let ghost amounts = params.milestone_amounts@;
        let mut sum: u128 = 0;
        let mut i: usize = 0;
        while i < count
            invariant
                i <= count,
                count == amounts.len(),
                amounts == params.milestone_amounts@,
                sum == sum_balances(amounts.take(i as int)),
                *self == *old(self),
                self@.wf(),
            decreases count - i,
        {
            proof {
                lemma_sum_balances_prefix(amounts, i as int);
                lemma_sum_balances_prefix(amounts, i + 1);
            }
            match sum.checked_add(params.milestone_amounts[i]) {
                Some(more) => {
                    sum = more;
                },
                None => {
                    return ContractResult::fail(ContractError::AmountMismatch);
                },
            }
            i += 1;
        }
        assert(amounts.take(count as int) =~= amounts);
        if sum != params.value {
            return ContractResult::fail(ContractError::AmountMismatch);
        }
        let oracle_verification = params.oracle.is_some();
        let ghost expected = fresh_milestones(
            params.milestone_descriptions@,
            params.milestone_amounts@,
            params.milestone_deadlines@,
            oracle_verification,
        );
        let mut milestones: Vec<Milestone> = Vec::new();
        let mut k: usize = 0;
        while k < count
            invariant
                k <= count,
                count == params.milestone_amounts@.len(),
                count == params.milestone_descriptions@.len(),
                count == params.milestone_deadlines@.len(),
                expected == fresh_milestones(
                    params.milestone_descriptions@,
                    params.milestone_amounts@,
                    params.milestone_deadlines@,
                    oracle_verification,
                ),
                milestones@ == expected.take(k as int),
            decreases count - k,
        {
            milestones.push(
                Milestone {
                    description: params.milestone_descriptions[k].clone(),
                    amount: params.milestone_amounts[k],
                    status: MilestoneStatus::Pending,
                    deadline: params.milestone_deadlines[k],
                    oracle_verification,
                },
            );
            k += 1;
        }
        assert(expected.take(count as int) =~= expected);
        let id = self.entries.len() as u128;
        let entry = AgreementEntry {
            info: Agreement {
                client: caller,
                provider: params.provider,
                total_amount: params.value,
                deposited_amount: params.value,
                created_at: now,
                dispute_timeout: params.dispute_timeout,
                oracle: params.oracle,
                is_active: count > 0,
            },
            milestones,
            paid_to_provider: 0,
            refunded_to_client: 0,
        };
        self.entries.push(entry);
        proof {
            assert(self@.agreements =~= old(self)@.agreements.push(
                EscrowState::created_agreement(params, caller, now),
            ));
        }
        ContractResult::ok(id)
    }

    /// Mark a milestone as completed (by provider).
    ///
    /// Fails with `NotFound` for an unknown agreement or milestone, with
    /// `NotAuthorized` unless the caller is the provider, and with
    /// `InvalidState` unless the milestone is `Pending`.
    pub fn complete_milestone(
        &mut self,
        agreement_id: u128,
        milestone_index: u32,
        caller: AccountId,
    ) -> (result: ContractResult<()>)
        requires
            old(self)@.wf(),
        ensures
            result.reports(
                old(self)@.complete_milestone_result(agreement_id, milestone_index, caller),
            ),
            final(self)@ == old(self)@.complete_milestone_next(
                agreement_id,
                milestone_index,
                caller,
            ),
            final(self)@.wf(),
    {
        proof {
            self@.lemma_operations_keep_wf(agreement_id, milestone_index, true, caller, 0);
        }
        let (a, m) = match self.locate(agreement_id, milestone_index) {
            Some(place) => place,
            None => {
                return ContractResult::fail(ContractError::NotFound);
            },
        };
        if caller != self.entries[a].info.provider {
            return ContractResult::fail(ContractError::NotAuthorized);
        }
        if self.entries[a].milestones[m].status != MilestoneStatus::Pending {
            return ContractResult::fail(ContractError::InvalidState);
        }
        self.set_status(a, m, MilestoneStatus::Completed);
        ContractResult::ok(())
    }

    /// Approve milestone and release funds (by client or oracle).
    ///
    /// Fails with `NotFound` for an unknown agreement or milestone, with
    /// `NotAuthorized` unless the caller is the client or the designated
    /// oracle, and with `InvalidState` unless the milestone is `Completed`.
    /// On success the milestone is `Resolved` and its amount is paid to the
    /// provider.
    pub fn approve_and_release(
        &mut self,
        agreement_id: u128,
        milestone_index: u32,
        caller: AccountId,
    ) -> (result: ContractResult<()>)
        requires
            old(self)@.wf(),
        ensures
            result.reports(
                old(self)@.approve_and_release_result(agreement_id, milestone_index, caller),
            ),
            final(self)@ == old(self)@.approve_and_release_next(
                agreement_id,
                milestone_index,
                caller,
            ),
            final(self)@.wf(),
    {
        proof {
            self@.lemma_operations_keep_wf(agreement_id, milestone_index, true, caller, 0);
        }
        let (a, m) = match self.locate(agreement_id, milestone_index) {
            Some(place) => place,
            None => {
                return ContractResult::fail(ContractError::NotFound);
            },
        };
        let is_client = caller == self.entries[a].info.client;
        let is_oracle = names_account(&self.entries[a].info.oracle, &caller);
        if !is_client && !is_oracle {
            return ContractResult::fail(ContractError::NotAuthorized);
        }
        if self.entries[a].milestones[m].status != MilestoneStatus::Completed {
            return ContractResult::fail(ContractError::InvalidState);
        }
        self.settle(a, m, true);
        ContractResult::ok(())
    }

    /// Raise a dispute for a milestone at ledger time `now`.
    ///
    /// Fails with `NotFound` for an unknown agreement or milestone, with
    /// `NotAuthorized` unless the caller is the client or the provider, and
    /// with `InvalidState` unless the milestone is `Pending` or `Completed`
    /// and `now` is before the dispute timeout.
    pub fn raise_dispute(
        &mut self,
        agreement_id: u128,
        milestone_index: u32,
        caller: AccountId,
        now: Timestamp,
    ) -> (result: ContractResult<()>)
        requires
            old(self)@.wf(),
        ensures
            result.reports(
                old(self)@.raise_dispute_result(agreement_id, milestone_index, caller, now),
            ),
            final(self)@ == old(self)@.raise_dispute_next(
                agreement_id,
                milestone_index,
                caller,
                now,
            ),
            final(self)@.wf(),
    {
        proof {
            self@.lemma_operations_keep_wf(agreement_id, milestone_index, true, caller, now);
        }
        let (a, m) = match self.locate(agreement_id, milestone_index) {
            Some(place) => place,
            None => {
                return ContractResult::fail(ContractError::NotFound);
            },
        };
        if caller != self.entries[a].info.client && caller != self.entries[a].info.provider {
            return ContractResult::fail(ContractError::NotAuthorized);
        }
        let status = self.entries[a].milestones[m].status;
        if (status != MilestoneStatus::Pending && status != MilestoneStatus::Completed) || now
            >= self.entries[a].info.dispute_timeout {
            return ContractResult::fail(ContractError::InvalidState);
        }
        self.set_status(a, m, MilestoneStatus::Disputed);
        ContractResult::ok(())
    }

    /// Resolve a dispute (by oracle or after timeout) at ledger time `now`.
    ///
    /// Fails with `NotFound` for an unknown agreement or milestone; with
    /// `NotAuthorized` unless the caller is the oracle, or is the client or
    /// the provider and `now` has reached the dispute timeout; and with
    /// `InvalidState` unless the milestone is `Disputed`. On success the
    /// milestone is `Resolved` and its amount goes to the provider if
    /// `release_to_provider`, back to the client if not.
    pub fn resolve_dispute(
        &mut self,
        agreement_id: u128,
        milestone_index: u32,
        release_to_provider: bool,
        caller: AccountId,
        now: Timestamp,
    ) -> (result: ContractResult<()>)
        requires
            old(self)@.wf(),
        ensures
            result.reports(
                old(self)@.resolve_dispute_result(agreement_id, milestone_index, caller, now),
            ),
            final(self)@ == old(self)@.resolve_dispute_next(
                agreement_id,
                milestone_index,
                release_to_provider,
                caller,
                now,
            ),
            final(self)@.wf(),
    {
        proof {
            self@.lemma_operations_keep_wf(
                agreement_id,
                milestone_index,
                release_to_provider,
                caller,
                now,
            );
        }
        let (a, m) = match self.locate(agreement_id, milestone_index) {
            Some(place) => place,
            None => {
                return ContractResult::fail(ContractError::NotFound);
            },
        };
        let is_oracle = names_account(&self.entries[a].info.oracle, &caller);
        let is_party = caller == self.entries[a].info.client || caller
            == self.entries[a].info.provider;
        if !is_oracle && !(now >= self.entries[a].info.dispute_timeout && is_party) {
            return ContractResult::fail(ContractError::NotAuthorized);
        }
        if self.entries[a].milestones[m].status != MilestoneStatus::Disputed {
            return ContractResult::fail(ContractError::InvalidState);
        }
        self.settle(a, m, release_to_provider);
        ContractResult::ok(())
    }

    /// Cancel a milestone whose deadline has passed without the provider
    /// completing it, at ledger time `now`.
    ///
    /// Fails with `NotFound` for an unknown agreement or milestone, with
    /// `NotAuthorized` unless the caller is the client, and with
    /// `InvalidState` unless the milestone is `Pending` and `now` is past
    /// its deadline. On success the milestone is `Cancelled` and its amount
    /// goes back to the client.
    pub fn cancel_milestone(
        &mut self,
        agreement_id: u128,
        milestone_index: u32,
        caller: AccountId,
        now: Timestamp,
    ) -> (result: ContractResult<()>)
        requires
            old(self)@.wf(),
        ensures
            result.reports(
                old(self)@.cancel_milestone_result(agreement_id, milestone_index, caller, now),
            ),
            final(self)@ == old(self)@.cancel_milestone_next(
                agreement_id,
                milestone_index,
                caller,
                now,
            ),
            final(self)@.wf(),
    {
        proof {
            self@.lemma_operations_keep_wf(agreement_id, milestone_index, true, caller, now);
        }
        let (a, m) = match self.locate(agreement_id, milestone_index) {
            Some(place) => place,
            None => {
                return ContractResult::fail(ContractError::NotFound);
            },
        };
        if caller != self.entries[a].info.client {
            return ContractResult::fail(ContractError::NotAuthorized);
        }
        if self.entries[a].milestones[m].status != MilestoneStatus::Pending || now
            <= self.entries[a].milestones[m].deadline {
            return ContractResult::fail(ContractError::InvalidState);
        }
        proof {
            let before = self@.agreements[a as int];
            before.lemma_cancelled_wf(m as int);
        }
        let amount = self.entries[a].milestones[m].amount;
        self.entries[a].milestones[m].status = MilestoneStatus::Cancelled;
        let still_active = any_unsettled(&self.entries[a].milestones);
        self.entries[a].info.is_active = still_active;
        self.entries[a].refunded_to_client = self.entries[a].refunded_to_client + amount;
        assert(self@.agreements =~= old(self)@.agreements.update(
            a as int,
            old(self)@.agreements[a as int].cancelled(m as int),
        ));
        ContractResult::ok(())
    }

    /// Get agreement details, or `None` if there is no such agreement.
    pub fn get_agreement(&self, agreement_id: u128) -> (agreement: Option<Agreement>)
        ensures
            agreement == if agreement_id < self@.agreements.len() {
                Some(self@.agreements[agreement_id as int].info)
            } else {
                None
            },
    {
        if agreement_id >= self.entries.len() as u128 {
            return None;
        }
        Some(self.entries[agreement_id as usize].info)
    }

    /// Get milestone details, or `None` if there is no such milestone.
    pub fn get_milestone(&self, agreement_id: u128, milestone_index: u32) -> (milestone: Option<
        Milestone,
    >)
        ensures
            milestone == if self@.has_milestone(agreement_id, milestone_index) {
                Some(self@.agreements[agreement_id as int].milestones[milestone_index as int])
            } else {
                None
            },
    {
        match self.locate(agreement_id, milestone_index) {
            Some((a, m)) => Some(self.entries[a].milestones[m].clone()),
            None => None,
        }
    }

    /// Get milestone count for an agreement; zero if there is no such agreement.
    pub fn get_milestone_count(&self, agreement_id: u128) -> (count: u32)
        requires
            self@.wf(),
        ensures
            count == if agreement_id < self@.agreements.len() {
                self@.agreements[agreement_id as int].milestones.len()
            } else {
                0
            },
    {
        if agreement_id >= self.entries.len() as u128 {
            return 0;
        }
        let a = agreement_id as usize;
        self.entries[a].milestones.len() as u32
    }

    /// Get all milestones for an agreement, in order; none if there is no such agreement.
    pub fn get_all_milestones(&self, agreement_id: u128) -> (milestones: Vec<Milestone>)
        ensures
            milestones@ == if agreement_id < self@.agreements.len() {
                self@.agreements[agreement_id as int].milestones
            } else {
                Seq::<Milestone>::empty()
            },
    {
        let mut milestones: Vec<Milestone> = Vec::new();
        if agreement_id >= self.entries.len() as u128 {
            return milestones;
        }
        let a = agreement_id as usize;
        let count = self.entries[a].milestones.len();
        let mut i: usize = 0;
        while i < count
            invariant
                a < self.entries.len(),
                count == self.entries[a as int].milestones.len(),
                i <= count,
                milestones@ == self.entries[a as int].milestones@.take(i as int),
            decreases count - i,
        {
            milestones.push(self.entries[a].milestones[i].clone());
            i += 1;
        }
        assert(self.entries[a as int].milestones@.take(count as int)
            =~= self.entries[a as int].milestones@);
        milestones
    }

    /// What an agreement has paid to its provider and refunded to its client
    /// so far, in that order; `None` if there is no such agreement.
    pub fn get_payouts(&self, agreement_id: u128) -> (payouts: Option<(Balance, Balance)>)
        ensures
            payouts is Some == (agreement_id < self@.agreements.len()),
            payouts matches Some((paid, refunded)) ==> paid
                == self@.agreements[agreement_id as int].paid_to_provider && refunded
                == self@.agreements[agreement_id as int].refunded_to_client,
    {
        if agreement_id >= self.entries.len() as u128 {
            return None;
        }
        let a = agreement_id as usize;
        Some((self.entries[a].paid_to_provider, self.entries[a].refunded_to_client))
    }
}

} // verus!
