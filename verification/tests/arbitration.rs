use glin_sdk::contracts::arbitration::ArbitrationConfig;
use glin_sdk::contracts::{
    AccountId, ArbitrationContract, ContractResult, CreateDisputeParams, DisputeStatus,
    VoteChoice, VoteParams,
};

const GLIN: u128 = 1_000_000_000_000_000_000;
const WEEK: u64 = 604_800_000;
const THREE_DAYS: u64 = 259_200_000;

fn alice() -> AccountId {
    AccountId::new([1u8; 32])
}

fn bob() -> AccountId {
    AccountId::new([2u8; 32])
}

fn charlie() -> AccountId {
    AccountId::new([3u8; 32])
}

fn dave() -> AccountId {
    AccountId::new([4u8; 32])
}

fn eve() -> AccountId {
    AccountId::new([5u8; 32])
}

fn failed<T>(result: &ContractResult<T>, error: &str) -> bool {
    !result.success
        && result.data.is_none()
        && result.error.as_deref() == Some(error)
        && result.gas_consumed.is_none()
}

fn payment_dispute() -> CreateDisputeParams {
    CreateDisputeParams {
        defendant: bob(),
        description: "Payment dispute".to_string(),
        evidence_uri: "ipfs://dispute-evidence".to_string(),
    }
}

fn claimant(dispute_id: u128) -> VoteParams {
    VoteParams { dispute_id, choice: VoteChoice::InFavorOfClaimant }
}

fn defendant(dispute_id: u128) -> VoteParams {
    VoteParams { dispute_id, choice: VoteChoice::InFavorOfDefendant }
}

/// Charlie, Dave and Eve registered with 200, 300 and 150 tokens; dispute 0
/// by Alice against Bob, voting from time 1000.
fn voting_dispute() -> ArbitrationContract {
    let mut arbitration = ArbitrationContract::new(AccountId::new([9u8; 32]));
    assert!(arbitration.register_arbitrator(200 * GLIN, charlie()).success);
    assert!(arbitration.register_arbitrator(300 * GLIN, dave()).success);
    assert!(arbitration.register_arbitrator(150 * GLIN, eve()).success);
    assert_eq!(arbitration.create_dispute(payment_dispute(), alice(), 500).data, Some(0));
    assert!(arbitration.start_voting(0, alice(), 1_000).success);
    arbitration
}

fn resolved_for_claimant() -> ArbitrationContract {
    let mut arbitration = voting_dispute();
    assert!(arbitration.vote(claimant(0), charlie(), 2_000).success);
    assert!(arbitration.vote(defendant(0), dave(), 2_000).success);
    assert!(arbitration.vote(claimant(0), eve(), 2_000).success);
    assert_eq!(
        arbitration.finalize_dispute(0, 1_000 + WEEK).data,
        Some(VoteChoice::InFavorOfClaimant)
    );
    arbitration
}

#[test]
fn test_arbitration_register_arbitrator() {
    let mut arbitration = ArbitrationContract::new(AccountId::new([9u8; 32]));
    let result = arbitration.register_arbitrator(200_000_000_000_000_000_000, alice());
    assert!(result.success);
    assert!(failed(
        &arbitration.register_arbitrator(200_000_000_000_000_000_000, alice()),
        "AlreadyRegistered"
    ));
}

#[test]
fn test_arbitration_create_dispute() {
    let mut arbitration = ArbitrationContract::new(AccountId::new([9u8; 32]));
    let params = CreateDisputeParams {
        defendant: bob(),
        description: "Test dispute".to_string(),
        evidence_uri: "ipfs://evidence".to_string(),
    };

    let contract_result = arbitration.create_dispute(params, alice(), 1700000000);
    assert!(contract_result.success);
    assert_eq!(contract_result.data, Some(0));
    assert_eq!(arbitration.create_dispute(payment_dispute(), bob(), 1700000001).data, Some(1));
    assert_eq!(arbitration.get_dispute(1).unwrap().dispute_id, 1);
    assert_eq!(arbitration.get_dispute(1).unwrap().claimant, bob());
}

#[test]
fn test_arbitration_query_arbitrator() {
    let mut arbitration = ArbitrationContract::new(AccountId::new([9u8; 32]));
    assert!(arbitration.get_arbitrator(&alice()).is_none());
    assert!(!arbitration.is_active_arbitrator(&alice()));
    assert!(arbitration.register_arbitrator(250 * GLIN, alice()).success);
    let arbitrator = arbitration.get_arbitrator(&alice()).unwrap();
    assert_eq!(arbitrator.account, alice());
    assert_eq!(arbitrator.stake, 250 * GLIN);
    assert_eq!(arbitrator.disputes_participated, 0);
    assert_eq!(arbitrator.disputes_resolved, 0);
    assert_eq!(arbitrator.reputation, 100);
    assert!(arbitrator.is_active);
    assert!(arbitration.is_active_arbitrator(&alice()));
}

#[test]
fn test_arbitration_get_dispute() {
    let mut arbitration = ArbitrationContract::new(AccountId::new([9u8; 32]));
    assert!(arbitration.get_dispute(0).is_none());
    assert!(arbitration.create_dispute(payment_dispute(), alice(), 1700000000).success);
    let dispute = arbitration.get_dispute(0).unwrap();
    assert_eq!(dispute.dispute_id, 0);
    assert_eq!(dispute.claimant, alice());
    assert_eq!(dispute.defendant, bob());
    assert_eq!(dispute.description, "Payment dispute");
    assert_eq!(dispute.evidence_uri, "ipfs://dispute-evidence");
    assert_eq!(dispute.status, DisputeStatus::Open);
    assert_eq!(dispute.created_at, 1700000000);
    assert_eq!(dispute.voting_ends_at, 0);
    assert_eq!(dispute.votes_for_claimant, 0);
    assert_eq!(dispute.votes_for_defendant, 0);
    assert!(dispute.resolution.is_none());
    assert!(!dispute.can_appeal);
    assert!(arbitration.get_dispute(1).is_none());
}

#[test]
fn test_complete_arbitration_workflow() {
    let mut arbitration = ArbitrationContract::new(AccountId::new([9u8; 32]));

    // 1. Register as arbitrator
    assert!(arbitration.register_arbitrator(250_000_000_000_000_000_000, alice()).success);

    // 2. Check arbitrator info
    assert_eq!(arbitration.get_arbitrator(&alice()).unwrap().stake, 250_000_000_000_000_000_000);

    // 3. Create dispute
    let params = CreateDisputeParams {
        defendant: bob(),
        description: "Payment dispute".to_string(),
        evidence_uri: "ipfs://dispute-evidence".to_string(),
    };
    let dispute_result = arbitration.create_dispute(params, alice(), 10);
    assert!(dispute_result.success);
    assert_eq!(dispute_result.data, Some(0));
}

#[test]
fn standard_settings() {
    let arbitration = ArbitrationContract::new(AccountId::new([9u8; 32]));
    let config = arbitration.config();
    assert_eq!(config.min_arbitrator_stake, 100 * GLIN);
    assert_eq!(config.voting_period, WEEK);
    assert_eq!(config.appeal_period, THREE_DAYS);
    let standard = ArbitrationConfig::standard();
    assert_eq!(standard.min_arbitrator_stake, config.min_arbitrator_stake);
}

#[test]
fn arbitrators_need_the_minimum_stake() {
    let mut arbitration = ArbitrationContract::new(AccountId::new([9u8; 32]));
    assert!(failed(&arbitration.register_arbitrator(100 * GLIN - 1, alice()), "InsufficientStake"));
    assert!(arbitration.get_arbitrator(&alice()).is_none());
    assert!(arbitration.register_arbitrator(100 * GLIN, alice()).success);
    let config = ArbitrationConfig { min_arbitrator_stake: 7, voting_period: 10, appeal_period: 5 };
    let mut small = ArbitrationContract::with_config(AccountId::new([9u8; 32]), config);
    assert!(failed(&small.register_arbitrator(6, alice()), "InsufficientStake"));
    assert!(small.register_arbitrator(7, alice()).success);
}

#[test]
fn arbitrator_stake_grows_by_what_is_added() {
    let mut arbitration = voting_dispute();
    assert!(failed(&arbitration.increase_arbitrator_stake(5, alice()), "NotFound"));
    assert!(arbitration.increase_arbitrator_stake(50 * GLIN, charlie()).success);
    assert_eq!(arbitration.get_arbitrator(&charlie()).unwrap().stake, 250 * GLIN);
    assert_eq!(arbitration.get_arbitrator(&dave()).unwrap().stake, 300 * GLIN);
    assert!(failed(&arbitration.increase_arbitrator_stake(u128::MAX, charlie()), "InvalidState"));
    assert_eq!(arbitration.get_arbitrator(&charlie()).unwrap().stake, 250 * GLIN);
}

#[test]
fn voting_is_started_by_a_party_from_open() {
    let mut arbitration = ArbitrationContract::new(AccountId::new([9u8; 32]));
    assert!(arbitration.create_dispute(payment_dispute(), alice(), 500).success);
    assert!(failed(&arbitration.start_voting(1, alice(), 1_000), "NotFound"));
    assert!(failed(&arbitration.start_voting(0, charlie(), 1_000), "NotAuthorized"));
    assert!(failed(&arbitration.start_voting(0, alice(), u64::MAX), "InvalidState"));
    assert_eq!(arbitration.get_dispute(0).unwrap().status, DisputeStatus::Open);
    assert!(arbitration.start_voting(0, bob(), 1_000).success);
    let dispute = arbitration.get_dispute(0).unwrap();
    assert_eq!(dispute.status, DisputeStatus::Voting);
    assert_eq!(dispute.voting_ends_at, 1_000 + WEEK);
    assert!(failed(&arbitration.start_voting(0, alice(), 2_000), "InvalidState"));
    assert_eq!(arbitration.get_dispute(0).unwrap().voting_ends_at, 1_000 + WEEK);
}

#[test]
fn stake_weighted_votes_decide_the_dispute() {
    let mut arbitration = voting_dispute();
    assert!(arbitration.vote(claimant(0), charlie(), 2_000).success);
    assert_eq!(arbitration.get_dispute(0).unwrap().votes_for_claimant, 200 * GLIN);
    assert!(arbitration.vote(defendant(0), dave(), 2_000).success);
    assert!(arbitration.vote(claimant(0), eve(), 1_000 + WEEK - 1).success);
    let dispute = arbitration.get_dispute(0).unwrap();
    assert_eq!(dispute.votes_for_claimant, 350 * GLIN);
    assert_eq!(dispute.votes_for_defendant, 300 * GLIN);
    assert_eq!(
        arbitration.get_voting_results(0),
        Some((350 * GLIN, 300 * GLIN, VoteChoice::InFavorOfClaimant))
    );
    assert_eq!(arbitration.get_vote(0, &charlie()), Some(VoteChoice::InFavorOfClaimant));
    assert_eq!(arbitration.get_vote(0, &dave()), Some(VoteChoice::InFavorOfDefendant));
    assert_eq!(arbitration.get_vote(0, &eve()), Some(VoteChoice::InFavorOfClaimant));
    assert_eq!(arbitration.get_vote(0, &alice()), None);
    assert_eq!(arbitration.get_vote(1, &charlie()), None);

    let resolution = arbitration.finalize_dispute(0, 1_000 + WEEK);
    assert!(resolution.success);
    assert_eq!(resolution.data, Some(VoteChoice::InFavorOfClaimant));
    let dispute = arbitration.get_dispute(0).unwrap();
    assert_eq!(dispute.status, DisputeStatus::Resolved);
    assert_eq!(dispute.resolution, Some(VoteChoice::InFavorOfClaimant));
    assert!(dispute.can_appeal);
    assert_eq!(dispute.votes_for_claimant, 350 * GLIN);
    assert_eq!(dispute.votes_for_defendant, 300 * GLIN);
}

#[test]
fn tally_stays_within_the_stakes_of_the_voters() {
    let mut arbitration = voting_dispute();
    assert!(arbitration.vote(claimant(0), charlie(), 2_000).success);
    assert!(arbitration.vote(claimant(0), eve(), 2_000).success);
    assert!(failed(&arbitration.vote(defendant(0), eve(), 2_000), "AlreadyVoted"));
    let dispute = arbitration.get_dispute(0).unwrap();
    assert_eq!(dispute.votes_for_claimant, 350 * GLIN);
    assert_eq!(dispute.votes_for_defendant, 0);
    let stakes = arbitration.get_arbitrator(&charlie()).unwrap().stake
        + arbitration.get_arbitrator(&eve()).unwrap().stake;
    assert!(dispute.votes_for_claimant + dispute.votes_for_defendant <= stakes);
}

#[test]
fn weight_is_the_stake_at_the_time_of_voting() {
    let mut arbitration = voting_dispute();
    assert!(arbitration.vote(claimant(0), charlie(), 2_000).success);
    assert!(arbitration.increase_arbitrator_stake(500 * GLIN, charlie()).success);
    assert!(arbitration.increase_arbitrator_stake(10 * GLIN, eve()).success);
    assert!(arbitration.vote(defendant(0), eve(), 2_000).success);
    let dispute = arbitration.get_dispute(0).unwrap();
    assert_eq!(dispute.votes_for_claimant, 200 * GLIN);
    assert_eq!(dispute.votes_for_defendant, 160 * GLIN);
}

#[test]
fn votes_are_refused_outside_the_rules() {
    let mut arbitration = voting_dispute();
    assert!(failed(&arbitration.vote(claimant(3), charlie(), 2_000), "NotFound"));
    assert!(failed(&arbitration.vote(claimant(0), alice(), 2_000), "NotAuthorized"));
    assert!(arbitration.vote(claimant(0), charlie(), 2_000).success);
    assert!(failed(&arbitration.vote(claimant(0), charlie(), 2_001), "AlreadyVoted"));
    assert!(failed(&arbitration.vote(defendant(0), charlie(), 2_001), "AlreadyVoted"));
    assert!(failed(&arbitration.vote(defendant(0), dave(), 1_000 + WEEK), "VotingClosed"));
    assert!(failed(&arbitration.vote(defendant(0), dave(), 1_000 + WEEK + 1), "VotingClosed"));
    let dispute = arbitration.get_dispute(0).unwrap();
    assert_eq!(dispute.votes_for_claimant, 200 * GLIN);
    assert_eq!(dispute.votes_for_defendant, 0);

    assert_eq!(arbitration.create_dispute(payment_dispute(), alice(), 500).data, Some(1));
    assert!(failed(&arbitration.vote(claimant(1), charlie(), 2_000), "InvalidState"));
}

#[test]
fn finalize_waits_for_the_end_of_the_window_and_works_once() {
    let mut arbitration = voting_dispute();
    assert!(arbitration.vote(defendant(0), dave(), 2_000).success);
    assert!(failed(&arbitration.finalize_dispute(0, 1_000 + WEEK - 1), "InvalidState"));
    assert!(failed(&arbitration.finalize_dispute(4, 1_000 + WEEK), "NotFound"));
    assert_eq!(arbitration.get_dispute(0).unwrap().status, DisputeStatus::Voting);
    assert!(arbitration.get_dispute(0).unwrap().resolution.is_none());
    assert!(!arbitration.has_voting_ended(0, 1_000 + WEEK - 1));
    assert!(arbitration.has_voting_ended(0, 1_000 + WEEK));
    assert!(!arbitration.has_voting_ended(4, 1_000 + WEEK));
    let first = arbitration.finalize_dispute(0, 1_000 + WEEK);
    assert_eq!(first.data, Some(VoteChoice::InFavorOfDefendant));
    assert!(failed(&arbitration.finalize_dispute(0, 1_000 + WEEK), "InvalidState"));
    assert!(failed(&arbitration.finalize_dispute(0, 1_000 + WEEK + 5), "InvalidState"));
    assert_eq!(arbitration.get_arbitrator(&dave()).unwrap().disputes_participated, 1);
}

#[test]
fn finalize_needs_a_started_vote() {
    let mut arbitration = ArbitrationContract::new(AccountId::new([9u8; 32]));
    assert!(arbitration.create_dispute(payment_dispute(), alice(), 500).success);
    assert!(failed(&arbitration.finalize_dispute(0, u64::MAX), "InvalidState"));
    assert_eq!(arbitration.get_dispute(0).unwrap().status, DisputeStatus::Open);
}

#[test]
fn a_tie_goes_to_the_defendant() {
    let config = ArbitrationConfig { min_arbitrator_stake: 1, voting_period: 10, appeal_period: 5 };
    let mut arbitration = ArbitrationContract::with_config(AccountId::new([9u8; 32]), config);
    assert!(arbitration.register_arbitrator(40, charlie()).success);
    assert!(arbitration.register_arbitrator(40, dave()).success);
    assert!(arbitration.create_dispute(payment_dispute(), alice(), 0).success);
    assert!(arbitration.start_voting(0, alice(), 0).success);
    assert_eq!(arbitration.get_voting_results(0), Some((0, 0, VoteChoice::InFavorOfDefendant)));
    assert!(arbitration.vote(claimant(0), charlie(), 1).success);
    assert_eq!(arbitration.get_voting_results(0), Some((40, 0, VoteChoice::InFavorOfClaimant)));
    assert!(arbitration.vote(defendant(0), dave(), 1).success);
    assert_eq!(arbitration.get_voting_results(0), Some((40, 40, VoteChoice::InFavorOfDefendant)));
    assert_eq!(arbitration.finalize_dispute(0, 10).data, Some(VoteChoice::InFavorOfDefendant));
    assert_eq!(arbitration.get_voting_results(1), None);
}

#[test]
fn voters_are_credited_on_finalize() {
    let arbitration = resolved_for_claimant();
    let charlie = arbitration.get_arbitrator(&charlie()).unwrap();
    assert_eq!(charlie.disputes_participated, 1);
    assert_eq!(charlie.disputes_resolved, 1);
    assert_eq!(charlie.reputation, 101);
    assert_eq!(charlie.stake, 200 * GLIN);
    let dave = arbitration.get_arbitrator(&dave()).unwrap();
    assert_eq!(dave.disputes_participated, 1);
    assert_eq!(dave.disputes_resolved, 0);
    assert_eq!(dave.reputation, 100);
    let eve = arbitration.get_arbitrator(&eve()).unwrap();
    assert_eq!(eve.disputes_participated, 1);
    assert_eq!(eve.disputes_resolved, 1);
    assert_eq!(eve.reputation, 101);
}

#[test]
fn the_losing_party_appeals_once() {
    let mut arbitration = resolved_for_claimant();
    let resolved_at = 1_000 + WEEK;
    assert!(failed(&arbitration.appeal_dispute(9, bob(), resolved_at + 1), "NotFound"));
    assert!(failed(&arbitration.appeal_dispute(0, alice(), resolved_at + 1), "NotAuthorized"));
    assert!(failed(&arbitration.appeal_dispute(0, charlie(), resolved_at + 1), "NotAuthorized"));
    assert!(failed(
        &arbitration.appeal_dispute(0, bob(), resolved_at + THREE_DAYS),
        "InvalidState"
    ));
    assert_eq!(arbitration.get_dispute(0).unwrap().status, DisputeStatus::Resolved);
    assert!(arbitration.appeal_dispute(0, bob(), resolved_at + THREE_DAYS - 1).success);
    let dispute = arbitration.get_dispute(0).unwrap();
    assert_eq!(dispute.status, DisputeStatus::Appealed);
    assert!(!dispute.can_appeal);
    assert_eq!(dispute.resolution, Some(VoteChoice::InFavorOfClaimant));
    assert_eq!(dispute.votes_for_claimant, 0);
    assert_eq!(dispute.votes_for_defendant, 0);
    assert_eq!(dispute.voting_ends_at, resolved_at + THREE_DAYS - 1 + WEEK);
    assert_eq!(arbitration.get_vote(0, &charlie()), None);
    assert!(failed(&arbitration.appeal_dispute(0, bob(), resolved_at + 2), "InvalidState"));
    assert!(failed(&arbitration.appeal_dispute(0, alice(), resolved_at + 2), "InvalidState"));
}

#[test]
fn appeal_needs_a_resolved_dispute() {
    let mut arbitration = voting_dispute();
    assert!(failed(&arbitration.appeal_dispute(0, bob(), 2_000), "InvalidState"));
    assert!(failed(&arbitration.appeal_dispute(0, alice(), 2_000), "InvalidState"));
    assert_eq!(arbitration.get_dispute(0).unwrap().status, DisputeStatus::Voting);
}

#[test]
fn the_appeal_round_is_final() {
    let mut arbitration = resolved_for_claimant();
    let appealed_at = 1_000 + WEEK + 10;
    assert!(arbitration.appeal_dispute(0, bob(), appealed_at).success);
    assert!(arbitration.vote(defendant(0), charlie(), appealed_at + 1).success);
    assert!(arbitration.vote(defendant(0), dave(), appealed_at + 1).success);
    assert!(failed(&arbitration.vote(claimant(0), dave(), appealed_at + 2), "AlreadyVoted"));
    assert!(failed(&arbitration.finalize_dispute(0, appealed_at + WEEK - 1), "InvalidState"));
    let second = arbitration.finalize_dispute(0, appealed_at + WEEK);
    assert_eq!(second.data, Some(VoteChoice::InFavorOfDefendant));
    let dispute = arbitration.get_dispute(0).unwrap();
    assert_eq!(dispute.status, DisputeStatus::Appealed);
    assert_eq!(dispute.resolution, Some(VoteChoice::InFavorOfDefendant));
    assert!(!dispute.can_appeal);
    assert_eq!(dispute.votes_for_defendant, 500 * GLIN);
    assert!(failed(&arbitration.finalize_dispute(0, appealed_at + WEEK), "InvalidState"));
    assert!(failed(&arbitration.appeal_dispute(0, alice(), appealed_at + WEEK + 1), "InvalidState"));
    assert!(failed(&arbitration.vote(claimant(0), eve(), appealed_at + 3), "InvalidState"));
    let charlie = arbitration.get_arbitrator(&charlie()).unwrap();
    assert_eq!(charlie.disputes_participated, 2);
    assert_eq!(charlie.disputes_resolved, 2);
    assert_eq!(charlie.reputation, 102);
    assert_eq!(arbitration.get_arbitrator(&eve()).unwrap().disputes_participated, 1);
}

#[test]
fn stake_cannot_be_withdrawn_with_a_vote_pending() {
    let mut arbitration = voting_dispute();
    assert!(failed(&arbitration.withdraw_arbitrator_stake(alice()), "NotFound"));
    assert!(arbitration.vote(claimant(0), charlie(), 2_000).success);
    assert!(failed(&arbitration.withdraw_arbitrator_stake(charlie()), "InvalidState"));
    assert!(arbitration.is_active_arbitrator(&charlie()));
    assert_eq!(arbitration.get_arbitrator(&charlie()).unwrap().stake, 200 * GLIN);

    let withdrawn = arbitration.withdraw_arbitrator_stake(dave());
    assert_eq!(withdrawn.data, Some(300 * GLIN));
    assert!(!arbitration.is_active_arbitrator(&dave()));
    assert_eq!(arbitration.get_arbitrator(&dave()).unwrap().stake, 0);
    assert!(failed(&arbitration.withdraw_arbitrator_stake(dave()), "InvalidState"));
    assert!(failed(&arbitration.vote(defendant(0), dave(), 2_000), "NotAuthorized"));
    assert!(failed(&arbitration.increase_arbitrator_stake(1, dave()), "InvalidState"));
    assert!(failed(&arbitration.register_arbitrator(300 * GLIN, dave()), "AlreadyRegistered"));

    assert!(arbitration.finalize_dispute(0, 1_000 + WEEK).success);
    let withdrawn = arbitration.withdraw_arbitrator_stake(charlie());
    assert_eq!(withdrawn.data, Some(200 * GLIN));
    let charlie = arbitration.get_arbitrator(&charlie()).unwrap();
    assert!(!charlie.is_active);
    assert_eq!(charlie.disputes_participated, 1);
    assert_eq!(charlie.reputation, 101);
    assert_eq!(arbitration.get_dispute(0).unwrap().votes_for_claimant, 200 * GLIN);
}

#[test]
fn the_claimant_withdraws_an_open_dispute() {
    let mut arbitration = ArbitrationContract::new(AccountId::new([9u8; 32]));
    assert!(arbitration.create_dispute(payment_dispute(), alice(), 500).success);
    assert!(failed(&arbitration.cancel_dispute(1, alice()), "NotFound"));
    assert!(failed(&arbitration.cancel_dispute(0, bob()), "NotAuthorized"));
    assert!(arbitration.cancel_dispute(0, alice()).success);
    let dispute = arbitration.get_dispute(0).unwrap();
    assert_eq!(dispute.status, DisputeStatus::Cancelled);
    assert!(dispute.resolution.is_none());
    assert!(failed(&arbitration.cancel_dispute(0, alice()), "InvalidState"));
    assert!(failed(&arbitration.start_voting(0, alice(), 1_000), "InvalidState"));
    assert!(failed(&arbitration.finalize_dispute(0, u64::MAX), "InvalidState"));
    assert!(failed(&arbitration.appeal_dispute(0, bob(), 1_000), "InvalidState"));
    assert_eq!(arbitration.get_dispute(0).unwrap().status, DisputeStatus::Cancelled);
}

#[test]
fn a_dispute_under_vote_cannot_be_withdrawn() {
    let mut arbitration = voting_dispute();
    assert!(failed(&arbitration.cancel_dispute(0, alice()), "InvalidState"));
    assert_eq!(arbitration.get_dispute(0).unwrap().status, DisputeStatus::Voting);
}
