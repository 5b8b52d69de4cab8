//! Professional registry: who is registered in which role, at what stake,
//! and what their clients said of them.

use super::types::lemma_account_position;
use super::types::AccountId;
use super::types::Balance;
use super::types::ContractError;
use super::types::ContractResult;
use super::types::ProfessionalProfile;
use super::types::ProfessionalRole;
use super::types::RegisterProfessionalParams;
use super::types::Review;
use super::types::SubmitReviewParams;
use super::types::Timestamp;
use vstd::prelude::*;

verus! {

// ============================================================================
// Minimum stakes
// ============================================================================

/// The minimum stake that each role must put up to register.
#[derive(Debug, Clone, Copy)]
pub struct StakeConfig {
    pub lawyer: Balance,
    pub doctor: Balance,
    pub arbitrator: Balance,
    pub notary: Balance,
    pub auditor: Balance,
    pub consultant_other: Balance,
}

impl StakeConfig {
    /// The minimum stake of `role`.
    pub open spec fn spec_min_stake(self, role: ProfessionalRole) -> Balance {
        match role {
            ProfessionalRole::Lawyer => self.lawyer,
            ProfessionalRole::Doctor => self.doctor,
            ProfessionalRole::Arbitrator => self.arbitrator,
            ProfessionalRole::Notary => self.notary,
            ProfessionalRole::Auditor => self.auditor,
            ProfessionalRole::ConsultantOther => self.consultant_other,
        }
    }

    /// The thresholds a registry starts with unless told otherwise, in the
    /// smallest unit of a token of 18 decimals: 100 tokens for lawyers,
    /// notaries and auditors, 150 for doctors, 200 for arbitrators and 50
    /// for other consultants.
    pub open spec fn spec_standard() -> StakeConfig {
        StakeConfig {
            lawyer: 100_000_000_000_000_000_000,
            doctor: 150_000_000_000_000_000_000,
            arbitrator: 200_000_000_000_000_000_000,
            notary: 100_000_000_000_000_000_000,
            auditor: 100_000_000_000_000_000_000,
            consultant_other: 50_000_000_000_000_000_000,
        }
    }

    /// The standard thresholds.
    pub fn standard() -> (config: StakeConfig)
        ensures
            config == Self::spec_standard(),
    {
        StakeConfig {
            lawyer: 100_000_000_000_000_000_000,
            doctor: 150_000_000_000_000_000_000,
            arbitrator: 200_000_000_000_000_000_000,
            notary: 100_000_000_000_000_000_000,
            auditor: 100_000_000_000_000_000_000,
            consultant_other: 50_000_000_000_000_000_000,
        }
    }

    /// The minimum stake of `role`.
    pub fn min_stake(&self, role: ProfessionalRole) -> (stake: Balance)
        ensures
            stake == self.spec_min_stake(role),
    {
        match role {
            ProfessionalRole::Lawyer => self.lawyer,
            ProfessionalRole::Doctor => self.doctor,
            ProfessionalRole::Arbitrator => self.arbitrator,
            ProfessionalRole::Notary => self.notary,
            ProfessionalRole::Auditor => self.auditor,
            ProfessionalRole::ConsultantOther => self.consultant_other,
        }
    }
}

// ============================================================================
// Ratings
// ============================================================================

/// Sum of the ratings of a list of reviews.
pub open spec fn rating_sum(reviews: Seq<Review>) -> nat
    decreases reviews.len(),
{
    if reviews.len() == 0 {
        0
    } else {
        rating_sum(reviews.drop_last()) + reviews.last().rating as nat
    }
}

/// The reputation that a list of reviews earns: the arithmetic mean of the
/// ratings in hundredths, rounded down; zero while there are no reviews.
pub open spec fn mean_rating_hundredths(reviews: Seq<Review>) -> nat {
    if reviews.len() == 0 {
        0
    } else {
        rating_sum(reviews) * 100 / reviews.len()
    }
}

/// Every rating lies between 1 and 5.
pub open spec fn ratings_valid(reviews: Seq<Review>) -> bool {
    forall|i: int| 0 <= i < reviews.len() ==> 1 <= (#[trigger] reviews[i]).rating <= 5
}

/// A prefix of the reviews sums to no more than 255 a review, and one more
/// review adds its rating.
pub proof fn lemma_rating_sum_prefix(reviews: Seq<Review>, n: int)
    requires
        0 <= n <= reviews.len(),
    ensures
        rating_sum(reviews.take(n)) <= 255 * n,
        n < reviews.len() ==> rating_sum(reviews.take(n + 1)) == rating_sum(reviews.take(n))
            + reviews[n].rating as nat,
    decreases n,
{
    if n > 0 {
        lemma_rating_sum_prefix(reviews, n - 1);
    }
    if n < reviews.len() {
        assert(reviews.take(n + 1).drop_last() =~= reviews.take(n));
    }
}

/// With valid ratings the sum lies between one and five times the number of
/// reviews, so the mean in hundredths lies between 100 and 500.
pub proof fn lemma_mean_rating_bounds(reviews: Seq<Review>)
    requires
        ratings_valid(reviews),
    ensures
        reviews.len() <= rating_sum(reviews) <= 5 * reviews.len(),
        reviews.len() > 0 ==> 100 <= mean_rating_hundredths(reviews) <= 500,
    decreases reviews.len(),
{
    if reviews.len() > 0 {
        assert(ratings_valid(reviews.drop_last()));
        lemma_mean_rating_bounds(reviews.drop_last());
        let sum = rating_sum(reviews) as int;
        let n = reviews.len() as int;
        assert(100 <= sum * 100 / n <= 500) by (nonlinear_arith)
            requires
                n > 0,
                n <= sum <= 5 * n,
        ;
    }
}

/// The mean never falls when a rating is replaced by a higher one.
pub proof fn lemma_mean_rating_monotone(reviews: Seq<Review>, index: int, better: Review)
    requires
        0 <= index < reviews.len(),
        reviews[index].rating <= better.rating,
    ensures
        rating_sum(reviews) <= rating_sum(reviews.update(index, better)),
        mean_rating_hundredths(reviews) <= mean_rating_hundredths(reviews.update(index, better)),
    decreases reviews.len(),
{
    let updated = reviews.update(index, better);
    if index == reviews.len() - 1 {
        assert(updated.drop_last() =~= reviews.drop_last());
    } else {
        assert(updated.drop_last() =~= reviews.drop_last().update(index, better));
        lemma_mean_rating_monotone(reviews.drop_last(), index, better);
    }
    let a = rating_sum(reviews) as int;
    let b = rating_sum(updated) as int;
    let n = reviews.len() as int;
    assert(a * 100 / n <= b * 100 / n) by (nonlinear_arith)
        requires
            n > 0,
            0 <= a <= b,
    ;
}

// ============================================================================
// The registry as a mathematical state machine
// ============================================================================

/// What the registry holds about one professional.
pub struct ProfileState {
    /// The profile as queries return it.
    pub profile: ProfessionalProfile,
    /// The reviews received, oldest first.
    pub reviews: Seq<Review>,
}

impl ProfileState {
    /// Ratings are valid, the reviews can be counted in 32 bits, and the
    /// reputation is the mean of the ratings.
    pub open spec fn wf(self) -> bool {
        &&& self.reviews.len() <= u32::MAX
        &&& ratings_valid(self.reviews)
        &&& self.profile.reputation_score == mean_rating_hundredths(self.reviews)
    }

    /// The profile of a professional who has just registered.
    pub open spec fn registered(
        params: RegisterProfessionalParams,
        caller: AccountId,
        now: Timestamp,
    ) -> ProfileState {
        ProfileState {
            profile: ProfessionalProfile {
                account: caller,
                role: params.role,
                stake_amount: params.stake_amount,
                reputation_score: 0,
                total_jobs: 0,
                successful_jobs: 0,
                registered_at: now,
                is_active: true,
                metadata_uri: params.metadata_uri,
            },
            reviews: Seq::empty(),
        }
    }

    /// The profile with its stake set to `stake` and its activity to `is_active`.
    pub open spec fn with_stake(self, stake: Balance, is_active: bool) -> ProfileState {
        ProfileState {
            profile: ProfessionalProfile {
                account: self.profile.account,
                role: self.profile.role,
                stake_amount: stake,
                reputation_score: self.profile.reputation_score,
                total_jobs: self.profile.total_jobs,
                successful_jobs: self.profile.successful_jobs,
                registered_at: self.profile.registered_at,
                is_active,
                metadata_uri: self.profile.metadata_uri,
            },
            reviews: self.reviews,
        }
    }

    /// The profile with one more review and the reputation that follows from it.
    pub open spec fn with_review(self, review: Review) -> ProfileState {
        ProfileState {
            profile: ProfessionalProfile {
                account: self.profile.account,
                role: self.profile.role,
                stake_amount: self.profile.stake_amount,
                reputation_score: mean_rating_hundredths(self.reviews.push(review)) as u32,
                total_jobs: self.profile.total_jobs,
                successful_jobs: self.profile.successful_jobs,
                registered_at: self.profile.registered_at,
                is_active: self.profile.is_active,
                metadata_uri: self.profile.metadata_uri,
            },
            reviews: self.reviews.push(review),
        }
    }
}

/// The whole registry: its address, its thresholds, and every profile in
/// order of registration.
pub struct RegistryState {
    pub contract_address: AccountId,
    pub min_stakes: StakeConfig,
    pub profiles: Seq<ProfileState>,
}

impl RegistryState {
    /// The registered accounts, in order of registration.
    pub open spec fn accounts(self) -> Seq<AccountId> {
        self.profiles.map_values(|p: ProfileState| p.profile.account)
    }

    /// One profile per account, each well formed.
    pub open spec fn wf(self) -> bool {
        &&& self.accounts().no_duplicates()
        &&& forall|i: int| 0 <= i < self.profiles.len() ==> (#[trigger] self.profiles[i]).wf()
    }

    /// Whether `who` has a profile, active or not.
    pub open spec fn has_profile(self, who: AccountId) -> bool {
        self.accounts().contains(who)
    }

    /// The profile of `who`; meaningful when there is one.
    pub open spec fn profile_of(self, who: AccountId) -> ProfileState {
        self.profiles[self.accounts().index_of(who)]
    }

    /// The state with the profile of `who` replaced.
    pub open spec fn with_profile(self, who: AccountId, profile: ProfileState) -> RegistryState {
        RegistryState {
            contract_address: self.contract_address,
            min_stakes: self.min_stakes,
            profiles: self.profiles.update(self.accounts().index_of(who), profile),
        }
    }

    /// Outcome of `register`: `AlreadyRegistered` if the caller has a profile,
    /// `InsufficientStake` if the stake is below the minimum of the role.
    pub open spec fn register_result(
        self,
        role: ProfessionalRole,
        stake_amount: Balance,
        caller: AccountId,
    ) -> Result<(), ContractError> {
        if self.has_profile(caller) {
            Err(ContractError::AlreadyRegistered)
        } else if stake_amount < self.min_stakes.spec_min_stake(role) {
            Err(ContractError::InsufficientStake)
        } else {
            Ok(())
        }
    }

    /// State after `register`.
    pub open spec fn register_next(
        self,
        params: RegisterProfessionalParams,
        caller: AccountId,
        now: Timestamp,
    ) -> RegistryState {
        if self.register_result(params.role, params.stake_amount, caller) is Ok {
            RegistryState {
                contract_address: self.contract_address,
                min_stakes: self.min_stakes,
                profiles: self.profiles.push(ProfileState::registered(params, caller, now)),
            }
        } else {
            self
        }
    }

    /// Outcome of `increase_stake`: `NotFound` without a profile,
    /// `InvalidState` if the profile is inactive or the sum would not fit a balance.
    pub open spec fn increase_stake_result(self, additional_stake: Balance, caller: AccountId)
        -> Result<(), ContractError> {
        if !self.has_profile(caller) {
            Err(ContractError::NotFound)
        } else if !self.profile_of(caller).profile.is_active || self.profile_of(
            caller,
        ).profile.stake_amount + additional_stake > u128::MAX {
            Err(ContractError::InvalidState)
        } else {
            Ok(())
        }
    }

    /// State after `increase_stake`: the stake grows by exactly the amount.
    pub open spec fn increase_stake_next(self, additional_stake: Balance, caller: AccountId)
        -> RegistryState {
        if self.increase_stake_result(additional_stake, caller) is Ok {
            self.with_profile(
                caller,
                self.profile_of(caller).with_stake(
                    (self.profile_of(caller).profile.stake_amount + additional_stake) as u128,
                    true,
                ),
            )
        } else {
            self
        }
    }

    /// Outcome of `withdraw_stake`: the stake returned; `NotFound` without a
    /// profile, `InvalidState` if the profile is inactive already.
    pub open spec fn withdraw_stake_result(self, caller: AccountId) -> Result<
        Balance,
        ContractError,
    > {
        if !self.has_profile(caller) {
            Err(ContractError::NotFound)
        } else if !self.profile_of(caller).profile.is_active {
            Err(ContractError::InvalidState)
        } else {
            Ok(self.profile_of(caller).profile.stake_amount)
        }
    }

    /// State after `withdraw_stake`: the profile is inactive and holds no
    /// stake; its reviews and job counts stay.
    pub open spec fn withdraw_stake_next(self, caller: AccountId) -> RegistryState {
        if self.withdraw_stake_result(caller) is Ok {
            self.with_profile(caller, self.profile_of(caller).with_stake(0, false))
        } else {
            self
        }
    }

    /// Outcome of `submit_review`: `InvalidRating` unless the rating is
    /// between 1 and 5, `NotFound` if the professional has no profile,
    /// `InvalidState` if the professional's reviews can no longer be counted
    /// in 32 bits.
    pub open spec fn submit_review_result(self, professional: AccountId, rating: u8) -> Result<
        (),
        ContractError,
    > {
        if rating < 1 || rating > 5 {
            Err(ContractError::InvalidRating)
        } else if !self.has_profile(professional) {
            Err(ContractError::NotFound)
        } else if self.profile_of(professional).reviews.len() >= u32::MAX {
            Err(ContractError::InvalidState)
        } else {
            Ok(())
        }
    }

    /// The review that `submit_review` records.
    pub open spec fn review_from(params: SubmitReviewParams, caller: AccountId, now: Timestamp)
        -> Review {
        Review {
            reviewer: caller,
            rating: params.rating,
            comment: params.comment,
            timestamp: now,
        }
    }

    /// State after `submit_review`: the review is appended and the
    /// reputation recomputed.
    pub open spec fn submit_review_next(
        self,
        params: SubmitReviewParams,
        caller: AccountId,
        now: Timestamp,
    ) -> RegistryState {
        if self.submit_review_result(params.professional, params.rating) is Ok {
            self.with_profile(
                params.professional,
                self.profile_of(params.professional).with_review(
                    Self::review_from(params, caller, now),
                ),
            )
        } else {
            self
        }
    }

    /// Replacing a profile by a well-formed one of the same account keeps the
    /// registry well formed, and leaves every other account's profile alone.
    pub proof fn lemma_with_profile(self, who: AccountId, profile: ProfileState)
        requires
            self.wf(),
            self.has_profile(who),
            profile.wf(),
            profile.profile.account == who,
        ensures
            self.with_profile(who, profile).wf(),
            self.with_profile(who, profile).accounts() == self.accounts(),
            self.with_profile(who, profile).profile_of(who) == profile,
            forall|other: AccountId|
                other != who && self.has_profile(other) ==> self.with_profile(
                    who,
                    profile,
                ).profile_of(other) == self.profile_of(other),
    {
        let next = self.with_profile(who, profile);
        assert(next.accounts() =~= self.accounts());
        assert forall|other: AccountId| other != who && self.has_profile(
            other,
        ) implies next.profile_of(other) == self.profile_of(other) by {}
    }

    /// Registration keeps the registry well formed.
    pub proof fn lemma_register_keeps_wf(
        self,
        params: RegisterProfessionalParams,
        caller: AccountId,
        now: Timestamp,
    )
        requires
            self.wf(),
        ensures
            self.register_next(params, caller, now).wf(),
    {
        if self.register_result(params.role, params.stake_amount, caller) is Ok {
            let next = self.register_next(params, caller, now);
            assert(next.accounts() =~= self.accounts().push(caller));
        }
    }

    /// Raising and withdrawing a stake keep the registry well formed, and a
    /// withdrawal leaves the reviews and job counts of the profile in place.
    pub proof fn lemma_stake_operations_keep_wf(self, additional_stake: Balance, caller: AccountId)
        requires
            self.wf(),
        ensures
            self.increase_stake_next(additional_stake, caller).wf(),
            self.withdraw_stake_next(caller).wf(),
            self.withdraw_stake_result(caller) is Ok ==> {
                let before = self.profile_of(caller);
                let after = self.withdraw_stake_next(caller).profile_of(caller);
                &&& !after.profile.is_active
                &&& after.reviews == before.reviews
                &&& after.profile.total_jobs == before.profile.total_jobs
                &&& after.profile.successful_jobs == before.profile.successful_jobs
                &&& after.profile.reputation_score == before.profile.reputation_score
            },
    {
        if self.has_profile(caller) {
            if self.increase_stake_result(additional_stake, caller) is Ok {
                self.lemma_with_profile(
                    caller,
                    self.profile_of(caller).with_stake(
                        (self.profile_of(caller).profile.stake_amount + additional_stake) as u128,
                        true,
                    ),
                );
            }
            if self.withdraw_stake_result(caller) is Ok {
                self.lemma_with_profile(caller, self.profile_of(caller).with_stake(0, false));
            }
        }
    }

    /// A review keeps the registry well formed.
    pub proof fn lemma_submit_review_keeps_wf(
        self,
        review: SubmitReviewParams,
        caller: AccountId,
        now: Timestamp,
    )
        requires
            self.wf(),
        ensures
            self.submit_review_next(review, caller, now).wf(),
    {
        if self.submit_review_result(review.professional, review.rating) is Ok {
            let who = review.professional;
            let added = Self::review_from(review, caller, now);
            let after = self.profile_of(who).with_review(added);
            assert(ratings_valid(after.reviews));
            lemma_mean_rating_bounds(after.reviews);
            self.lemma_with_profile(who, after);
        }
    }

    /// A rating outside 1 to 5 is refused with `InvalidRating` and changes
    /// nothing; a rating within it, given to a registered professional,
    /// succeeds, and the professional's reputation becomes the mean, in
    /// hundredths, of the earlier ratings and the new one.
    pub proof fn lemma_review_sets_mean(
        self,
        params: SubmitReviewParams,
        caller: AccountId,
        now: Timestamp,
    )
        requires
            self.wf(),
        ensures
            (params.rating < 1 || params.rating > 5) ==> self.submit_review_result(
                params.professional,
                params.rating,
            ) == Err::<(), ContractError>(ContractError::InvalidRating) && self.submit_review_next(
                params,
                caller,
                now,
            ) == self,
            (1 <= params.rating <= 5 && self.has_profile(params.professional) && self.profile_of(
                params.professional,
            ).reviews.len() < u32::MAX) ==> {
                let before = self.profile_of(params.professional);
                let after = self.submit_review_next(params, caller, now).profile_of(
                    params.professional,
                );
                &&& self.submit_review_result(params.professional, params.rating) is Ok
                &&& after.reviews == before.reviews.push(Self::review_from(params, caller, now))
                &&& after.profile.reputation_score == (rating_sum(before.reviews) + params.rating)
                    * 100 / (before.reviews.len() + 1) as int
            },
    {
        if self.submit_review_result(params.professional, params.rating) is Ok {
            let who = params.professional;
            let added = Self::review_from(params, caller, now);
            let after = self.profile_of(who).with_review(added);
            self.lemma_submit_review_keeps_wf(params, caller, now);
            let next = self.submit_review_next(params, caller, now);
            assert(next.accounts() =~= self.accounts());
            assert(after.reviews.drop_last() =~= self.profile_of(who).reviews);
        }
    }
}

// ============================================================================
// The registry contract
// ============================================================================

/// One professional as the contract stores it.
struct ProfileEntry {
    profile: ProfessionalProfile,
    reviews: Vec<Review>,
}

impl View for ProfileEntry {
    type V = ProfileState;

    closed spec fn view(&self) -> ProfileState {
        ProfileState { profile: self.profile, reviews: self.reviews@ }
    }
}

/// The registry contract: professional registration, stakes and reviews.
///
/// Each account has at most one profile. Profiles are never removed: a
/// withdrawal deactivates the profile and keeps its history.
pub struct RegistryContract {
    contract_address: AccountId,
    min_stakes: StakeConfig,
    entries: Vec<ProfileEntry>,
}

impl View for RegistryContract {
    type V = RegistryState;

    closed spec fn view(&self) -> RegistryState {
        RegistryState {
            contract_address: self.contract_address,
            min_stakes: self.min_stakes,
            profiles: self.entries@.map_values(|e: ProfileEntry| e@),
        }
    }
}

/// Sum of the ratings of a list of reviews.
pub fn rating_total(reviews: &Vec<Review>) -> (total: u128)
    ensures
        total == rating_sum(reviews@),
{
    let mut total: u128 = 0;
    let mut i: usize = 0;
    while i < reviews.len()
        invariant
            i <= reviews.len(),
            total == rating_sum(reviews@.take(i as int)),
            total <= 255 * i,
        decreases reviews.len() - i,
    {
        proof {
            lemma_rating_sum_prefix(reviews@, i as int);
            lemma_rating_sum_prefix(reviews@, i + 1);
        }
        total = total + reviews[i].rating as u128;
        i += 1;
    }
    assert(reviews@.take(i as int) =~= reviews@);
    total
}

impl RegistryContract {
    /// A registry at `contract_address` with the standard minimum stakes and no profiles.
    pub fn new(contract_address: AccountId) -> (registry: Self)
        ensures
            registry@.contract_address == contract_address,
            registry@.min_stakes == StakeConfig::spec_standard(),
            registry@.profiles.len() == 0,
            registry@.wf(),
    {
        Self::with_min_stakes(contract_address, StakeConfig::standard())
    }

    /// A registry at `contract_address` with the given minimum stakes and no profiles.
    pub fn with_min_stakes(contract_address: AccountId, min_stakes: StakeConfig) -> (registry: Self)
        ensures
            registry@.contract_address == contract_address,
            registry@.min_stakes == min_stakes,
            registry@.profiles.len() == 0,
            registry@.wf(),
    {
        RegistryContract { contract_address, min_stakes, entries: Vec::new() }
    }

    /// Update contract address. Thresholds and profiles stay as they are.
    pub fn set_contract_address(&mut self, address: AccountId)
        ensures
            final(self)@.contract_address == address,
            final(self)@.min_stakes == old(self)@.min_stakes,
            final(self)@.profiles == old(self)@.profiles,
    {
        self.contract_address = address;
    }

    /// The address of the contract.
    pub fn contract_address(&self) -> (address: AccountId)
        ensures
            address == self@.contract_address,
    {
        self.contract_address
    }

    /// Where the profile of `who` is stored, if there is one.
    fn find(&self, who: &AccountId) -> (place: Option<usize>)
        requires
            self@.wf(),
        ensures
            place is Some == self@.has_profile(*who),
            place matches Some(i) ==> i < self.entries.len() && i == self@.accounts().index_of(
                *who,
            ) && self.entries[i as int]@ == self@.profile_of(*who),
    {
        let mut i: usize = 0;
        while i < self.entries.len()
            invariant
                i <= self.entries.len(),
                self@.wf(),
                forall|k: int| 0 <= k < i ==> self@.accounts()[k] != *who,
            decreases self.entries.len() - i,
        {
            if self.entries[i].profile.account == *who {
                proof {
                    lemma_account_position(self@.accounts(), *who, i as int);
                }
                return Some(i);
            }
            i += 1;
        }
        None
    }

    /// Register the caller as a professional at ledger time `now`.
    ///
    /// Fails with `AlreadyRegistered` if the caller has a profile, active or
    /// not, and with `InsufficientStake` if the stake is below the minimum
    /// of the role. On success the caller has an active profile holding the
    /// stake, with no reviews, no jobs and reputation zero.
    pub fn register(
        &mut self,
        params: RegisterProfessionalParams,
        caller: AccountId,
        now: Timestamp,
    ) -> (result: ContractResult<()>)
        requires
            old(self)@.wf(),
        ensures
            result.reports(old(self)@.register_result(params.role, params.stake_amount, caller)),
            final(self)@ == old(self)@.register_next(params, caller, now),
            final(self)@.wf(),
    {
        proof {
            self@.lemma_register_keeps_wf(params, caller, now);
        }
        if self.find(&caller).is_some() {
            return ContractResult::fail(ContractError::AlreadyRegistered);
        }
        if params.stake_amount < self.min_stakes.min_stake(params.role) {
            return ContractResult::fail(ContractError::InsufficientStake);
        }
        let entry = ProfileEntry {
            profile: ProfessionalProfile {
                account: caller,
                role: params.role,
                stake_amount: params.stake_amount,
                reputation_score: 0,
                total_jobs: 0,
                successful_jobs: 0,
                registered_at: now,
                is_active: true,
                metadata_uri: params.metadata_uri.clone(),
            },
            reviews: Vec::new(),
        };
        self.entries.push(entry);
        assert(self@.profiles =~= old(self)@.profiles.push(
            ProfileState::registered(params, caller, now),
        ));
        ContractResult::ok(())
    }

    /// Increase the caller's stake by `additional_stake`.
    ///
    /// Fails with `NotFound` if the caller has no profile, and with
    /// `InvalidState` if the profile is inactive or the new stake would not
    /// fit a balance.
    pub fn increase_stake(&mut self, additional_stake: Balance, caller: AccountId) -> (result:
        ContractResult<()>)
        requires
            old(self)@.wf(),
        ensures
            result.reports(old(self)@.increase_stake_result(additional_stake, caller)),
            final(self)@ == old(self)@.increase_stake_next(additional_stake, caller),
            final(self)@.wf(),
    {
        proof {
            self@.lemma_stake_operations_keep_wf(additional_stake, caller);
        }
        let at = match self.find(&caller) {
            Some(at) => at,
            None => {
                return ContractResult::fail(ContractError::NotFound);
            },
        };
        if !self.entries[at].profile.is_active {
            return ContractResult::fail(ContractError::InvalidState);
        }
        let stake = match self.entries[at].profile.stake_amount.checked_add(additional_stake) {
            Some(stake) => stake,
            None => {
                return ContractResult::fail(ContractError::InvalidState);
            },
        };
        self.entries[at].profile.stake_amount = stake;
        assert(self@.profiles =~= old(self)@.profiles.update(
            at as int,
            old(self)@.profile_of(caller).with_stake(stake, true),
        ));
        ContractResult::ok(())
    }

    /// Withdraw the caller's stake, which deactivates the profile.
    ///
    /// Fails with `NotFound` if the caller has no profile, and with
    /// `InvalidState` if the profile is inactive already. On success the
    /// result carries the stake returned; the profile keeps its reviews and
    /// job counts.
    pub fn withdraw_stake(&mut self, caller: AccountId) -> (result: ContractResult<Balance>)
        requires
            old(self)@.wf(),
        ensures
            result.reports(old(self)@.withdraw_stake_result(caller)),
            final(self)@ == old(self)@.withdraw_stake_next(caller),
            final(self)@.wf(),
    {
        proof {
            self@.lemma_stake_operations_keep_wf(0, caller);
        }
        let at = match self.find(&caller) {
            Some(at) => at,
            None => {
                return ContractResult::fail(ContractError::NotFound);
            },
        };
        if !self.entries[at].profile.is_active {
            return ContractResult::fail(ContractError::InvalidState);
        }
        let stake = self.entries[at].profile.stake_amount;
        self.entries[at].profile.stake_amount = 0;
        self.entries[at].profile.is_active = false;
        assert(self@.profiles =~= old(self)@.profiles.update(
            at as int,
            old(self)@.profile_of(caller).with_stake(0, false),
        ));
        ContractResult::ok(stake)
    }

    /// Submit a review for a professional at ledger time `now`.
    ///
    /// Fails with `InvalidRating` unless the rating is between 1 and 5,
    /// with `NotFound` if the professional has no profile, and with
    /// `InvalidState` if the professional already has as many reviews as 32
    /// bits can count. On success the review is appended, signed by the
    /// caller, and the professional's reputation becomes the mean of all
    /// ratings in hundredths, rounded down.
    pub fn submit_review(&mut self, params: SubmitReviewParams, caller: AccountId, now: Timestamp)
        -> (result: ContractResult<()>)
        requires
            old(self)@.wf(),
        ensures
            result.reports(old(self)@.submit_review_result(params.professional, params.rating)),
            final(self)@ == old(self)@.submit_review_next(params, caller, now),
            final(self)@.wf(),
    {
        proof {
            self@.lemma_submit_review_keeps_wf(params, caller, now);
        }
        if params.rating < 1 || params.rating > 5 {
            return ContractResult::fail(ContractError::InvalidRating);
        }
        let at = match self.find(&params.professional) {
            Some(at) => at,
            None => {
                return ContractResult::fail(ContractError::NotFound);
            },
        };
        if self.entries[at].reviews.len() >= u32::MAX as usize {
            return ContractResult::fail(ContractError::InvalidState);
        }
        let review = Review {
            reviewer: caller,
            rating: params.rating,
            comment: params.comment.clone(),
            timestamp: now,
        };
        self.entries[at].reviews.push(review);
        let total = rating_total(&self.entries[at].reviews);
        let count = self.entries[at].reviews.len() as u128;
        proof {
            lemma_rating_sum_prefix(self.entries[at as int].reviews@, count as int);
            assert(self.entries[at as int].reviews@.take(count as int)
                =~= self.entries[at as int].reviews@);
        }
        let mean = total * 100 / count;
        self.entries[at].profile.reputation_score = mean as u32;
        assert(self@.profiles =~= old(self)@.profiles.update(
            at as int,
            old(self)@.profile_of(params.professional).with_review(
                RegistryState::review_from(params, caller, now),
            ),
        ));
        ContractResult::ok(())
    }

    /// Get professional profile, or `None` if the account has none.
    pub fn get_profile(&self, account: &AccountId) -> (profile: Option<ProfessionalProfile>)
        requires
            self@.wf(),
        ensures
            profile == if self@.has_profile(*account) {
                Some(self@.profile_of(*account).profile)
            } else {
                None
            },
    {
        match self.find(account) {
            Some(at) => Some(self.entries[at].profile.clone()),
            None => None,
        }
    }

    /// Get review by index, oldest first, or `None` if there is no such review.
    pub fn get_review(&self, professional: &AccountId, review_index: u32) -> (review: Option<
        Review,
    >)
        requires
            self@.wf(),
        ensures
            review == if self@.has_profile(*professional) && review_index < self@.profile_of(
                *professional,
            ).reviews.len() {
                Some(self@.profile_of(*professional).reviews[review_index as int])
            } else {
                None
            },
    {
        match self.find(professional) {
            Some(at) => {
                let index = review_index as usize;
                if index < self.entries[at].reviews.len() {
                    Some(self.entries[at].reviews[index].clone())
                } else {
                    None
                }
            },
            None => None,
        }
    }

    /// Get review count for a professional; zero if the account has no profile.
    pub fn get_review_count(&self, professional: &AccountId) -> (count: u32)
        requires
            self@.wf(),
        ensures
            count == if self@.has_profile(*professional) {
                self@.profile_of(*professional).reviews.len()
            } else {
                0
            },
    {
        match self.find(professional) {
            Some(at) => {
                self.entries[at].reviews.len() as u32
            },
            None => 0,
        }
    }

    /// Get minimum stake required for a role.
    pub fn get_min_stake(&self, role: ProfessionalRole) -> (stake: Balance)
        ensures
            stake == self@.min_stakes.spec_min_stake(role),
    {
        self.min_stakes.min_stake(role)
    }

    /// Check if account is an active professional.
    pub fn is_active_professional(&self, account: &AccountId) -> (active: bool)
        requires
            self@.wf(),
        ensures
            active == (self@.has_profile(*account) && self@.profile_of(*account).profile.is_active),
    {
        match self.find(account) {
            Some(at) => self.entries[at].profile.is_active,
            None => false,
        }
    }

    /// Get all reviews for a professional, oldest first; none if the account has no profile.
    pub fn get_all_reviews(&self, professional: &AccountId) -> (reviews: Vec<Review>)
        requires
            self@.wf(),
        ensures
            reviews@ == if self@.has_profile(*professional) {
                self@.profile_of(*professional).reviews
            } else {
                Seq::<Review>::empty()
            },
    {
        let mut reviews: Vec<Review> = Vec::new();
        let at = match self.find(professional) {
            Some(at) => at,
            None => {
                return reviews;
            },
        };
        let count = self.entries[at].reviews.len();
        let mut i: usize = 0;
        while i < count
            invariant
                at < self.entries.len(),
                count == self.entries[at as int].reviews.len(),
                i <= count,
                reviews@ == self.entries[at as int].reviews@.take(i as int),
            decreases count - i,
        {
            reviews.push(self.entries[at].reviews[i].clone());
            i += 1;
        }
        assert(self.entries[at as int].reviews@.take(count as int)
            =~= self.entries[at as int].reviews@);
        reviews
    }

    /// Average rating of a professional in hundredths, rounded down: 450
    /// stands for four and a half. Zero if there are no reviews or no profile.
    pub fn get_average_rating(&self, professional: &AccountId) -> (hundredths: u32)
        requires
            self@.wf(),
        ensures
            hundredths == if self@.has_profile(*professional) {
                mean_rating_hundredths(self@.profile_of(*professional).reviews)
            } else {
                0
            },
    {
        match self.find(professional) {
            Some(at) => {
                self.entries[at].profile.reputation_score
            },
            None => 0,
        }
    }
}

} // verus!
