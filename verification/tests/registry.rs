use glin_sdk::contracts::registry::{rating_total, StakeConfig};
use glin_sdk::contracts::{
    AccountId, ContractResult, ProfessionalRole, RegisterProfessionalParams, RegistryContract,
    Review, SubmitReviewParams,
};

const GLIN: u128 = 1_000_000_000_000_000_000;

fn alice() -> AccountId {
    AccountId::new([1u8; 32])
}

fn bob() -> AccountId {
    AccountId::new([2u8; 32])
}

fn carol() -> AccountId {
    AccountId::new([3u8; 32])
}

fn failed<T>(result: &ContractResult<T>, error: &str) -> bool {
    !result.success
        && result.data.is_none()
        && result.error.as_deref() == Some(error)
        && result.gas_consumed.is_none()
}

fn lawyer(stake_amount: u128) -> RegisterProfessionalParams {
    RegisterProfessionalParams {
        role: ProfessionalRole::Lawyer,
        metadata_uri: "ipfs://test".to_string(),
        stake_amount,
    }
}

fn review(professional: AccountId, rating: u8) -> SubmitReviewParams {
    SubmitReviewParams { professional, rating, comment: "Excellent service".to_string() }
}

fn registry_with_alice() -> RegistryContract {
    let mut registry = RegistryContract::new(AccountId::new([9u8; 32]));
    assert!(registry.register(lawyer(100_000_000_000_000_000_000), alice(), 1700000000).success);
    registry
}

#[test]
fn test_registry_register_professional() {
    let mut registry = RegistryContract::new(AccountId::new([9u8; 32]));
    let params = RegisterProfessionalParams {
        role: ProfessionalRole::Lawyer,
        metadata_uri: "ipfs://test".to_string(),
        stake_amount: 100_000_000_000_000_000_000,
    };

    let result = registry.register(params, alice(), 1700000000);
    assert!(result.success);
    assert_eq!(result.data, Some(()));

    let again = registry.register(lawyer(100_000_000_000_000_000_000), alice(), 1700000001);
    assert!(failed(&again, "AlreadyRegistered"));
}

#[test]
fn test_registry_query_profile() {
    let registry = registry_with_alice();
    let profile = registry.get_profile(&alice()).unwrap();
    assert_eq!(profile.account, alice());
    assert_eq!(profile.role, ProfessionalRole::Lawyer);
    assert_eq!(profile.stake_amount, 100 * GLIN);
    assert_eq!(profile.reputation_score, 0);
    assert_eq!(profile.total_jobs, 0);
    assert_eq!(profile.successful_jobs, 0);
    assert_eq!(profile.registered_at, 1700000000);
    assert!(profile.is_active);
    assert_eq!(profile.metadata_uri, "ipfs://test");
    assert!(registry.get_profile(&bob()).is_none());
    assert!(registry.is_active_professional(&alice()));
    assert!(!registry.is_active_professional(&bob()));
}

#[test]
fn test_registry_min_stake() {
    let registry = RegistryContract::new(AccountId::new([9u8; 32]));
    let stake = registry.get_min_stake(ProfessionalRole::Lawyer);
    assert!(stake > 0);
    assert_eq!(stake, 100 * GLIN);
    assert_eq!(registry.get_min_stake(ProfessionalRole::Doctor), 150 * GLIN);
    assert_eq!(registry.get_min_stake(ProfessionalRole::Arbitrator), 200 * GLIN);
    assert_eq!(registry.get_min_stake(ProfessionalRole::Notary), 100 * GLIN);
    assert_eq!(registry.get_min_stake(ProfessionalRole::Auditor), 100 * GLIN);
    assert_eq!(registry.get_min_stake(ProfessionalRole::ConsultantOther), 50 * GLIN);
}

#[test]
fn test_complete_registry_workflow() {
    let mut registry = RegistryContract::new(AccountId::new([9u8; 32]));

    // 1. Check minimum stake
    let stake = registry.get_min_stake(ProfessionalRole::Doctor);
    assert!(stake > 0);

    // 2. Register professional
    let params = RegisterProfessionalParams {
        role: ProfessionalRole::Doctor,
        metadata_uri: "ipfs://profile".to_string(),
        stake_amount: 150_000_000_000_000_000_000,
    };
    assert!(registry.register(params, alice(), 5).success);

    // 3. Query profile
    let profile = registry.get_profile(&alice()).unwrap();
    assert_eq!(profile.role, ProfessionalRole::Doctor);
    assert_eq!(profile.stake_amount, 150_000_000_000_000_000_000);
    assert_eq!(profile.metadata_uri, "ipfs://profile");
}

#[test]
fn thresholds_can_be_configured() {
    let config = StakeConfig {
        lawyer: 1,
        doctor: 2,
        arbitrator: 3,
        notary: 4,
        auditor: 5,
        consultant_other: 0,
    };
    let mut registry = RegistryContract::with_min_stakes(AccountId::new([9u8; 32]), config);
    assert_eq!(registry.get_min_stake(ProfessionalRole::Auditor), 5);
    assert_eq!(config.min_stake(ProfessionalRole::Notary), 4);
    let auditor = RegisterProfessionalParams {
        role: ProfessionalRole::Auditor,
        metadata_uri: String::new(),
        stake_amount: 4,
    };
    assert!(failed(&registry.register(auditor, alice(), 1), "InsufficientStake"));
    let consultant = RegisterProfessionalParams {
        role: ProfessionalRole::ConsultantOther,
        metadata_uri: String::new(),
        stake_amount: 0,
    };
    assert!(registry.register(consultant, alice(), 1).success);
}

#[test]
fn registration_needs_the_minimum_stake() {
    let mut registry = RegistryContract::new(AccountId::new([9u8; 32]));
    assert!(failed(&registry.register(lawyer(100 * GLIN - 1), alice(), 1), "InsufficientStake"));
    assert!(registry.get_profile(&alice()).is_none());
    assert!(registry.register(lawyer(100 * GLIN), alice(), 1).success);
    assert!(failed(&registry.register(lawyer(1), alice(), 1), "AlreadyRegistered"));
}

#[test]
fn stake_grows_by_what_is_added() {
    let mut registry = registry_with_alice();
    assert!(failed(&registry.increase_stake(5, bob()), "NotFound"));
    assert!(registry.increase_stake(50 * GLIN, alice()).success);
    assert_eq!(registry.get_profile(&alice()).unwrap().stake_amount, 150 * GLIN);
    assert!(failed(&registry.increase_stake(u128::MAX, alice()), "InvalidState"));
    assert_eq!(registry.get_profile(&alice()).unwrap().stake_amount, 150 * GLIN);
}

#[test]
fn withdrawal_deactivates_and_keeps_history() {
    let mut registry = registry_with_alice();
    assert!(registry.submit_review(review(alice(), 4), bob(), 10).success);
    assert!(failed(&registry.withdraw_stake(bob()), "NotFound"));
    let withdrawn = registry.withdraw_stake(alice());
    assert!(withdrawn.success);
    assert_eq!(withdrawn.data, Some(100 * GLIN));
    let profile = registry.get_profile(&alice()).unwrap();
    assert!(!profile.is_active);
    assert_eq!(profile.stake_amount, 0);
    assert_eq!(profile.reputation_score, 400);
    assert_eq!(registry.get_review_count(&alice()), 1);
    assert!(!registry.is_active_professional(&alice()));
    assert!(failed(&registry.withdraw_stake(alice()), "InvalidState"));
    assert!(failed(&registry.increase_stake(1, alice()), "InvalidState"));
    assert!(failed(&registry.register(lawyer(100 * GLIN), alice(), 20), "AlreadyRegistered"));
}

#[test]
fn ratings_outside_one_to_five_are_refused() {
    let mut registry = registry_with_alice();
    assert!(failed(&registry.submit_review(review(alice(), 0), bob(), 10), "InvalidRating"));
    assert!(failed(&registry.submit_review(review(alice(), 6), bob(), 10), "InvalidRating"));
    assert!(failed(&registry.submit_review(review(alice(), 255), bob(), 10), "InvalidRating"));
    assert!(failed(&registry.submit_review(review(carol(), 0), bob(), 10), "InvalidRating"));
    assert_eq!(registry.get_review_count(&alice()), 0);
    assert_eq!(registry.get_average_rating(&alice()), 0);
    for rating in 1..=5u8 {
        assert!(registry.submit_review(review(alice(), rating), bob(), 10).success);
    }
    assert_eq!(registry.get_review_count(&alice()), 5);
    assert_eq!(registry.get_average_rating(&alice()), 300);
}

#[test]
fn reviews_of_four_and_five_average_four_and_a_half() {
    let mut registry = registry_with_alice();
    assert!(registry.submit_review(review(alice(), 4), bob(), 10).success);
    assert_eq!(registry.get_average_rating(&alice()), 400);
    assert!(registry.submit_review(review(alice(), 5), carol(), 11).success);
    assert_eq!(registry.get_average_rating(&alice()), 450);
    assert_eq!(registry.get_profile(&alice()).unwrap().reputation_score, 450);
    let reviews = registry.get_all_reviews(&alice());
    assert_eq!(rating_total(&reviews), 9);
    assert_eq!(rating_total(&reviews) as f32 / reviews.len() as f32, 4.5);
}

#[test]
fn mean_is_rounded_down_to_hundredths() {
    let mut registry = registry_with_alice();
    for rating in [5u8, 4, 4] {
        assert!(registry.submit_review(review(alice(), rating), bob(), 10).success);
    }
    assert_eq!(registry.get_average_rating(&alice()), 433);
}

#[test]
fn reviews_are_kept_in_order() {
    let mut registry = registry_with_alice();
    assert!(failed(&registry.submit_review(review(bob(), 3), alice(), 10), "NotFound"));
    assert!(registry.submit_review(review(alice(), 2), bob(), 10).success);
    assert!(registry.submit_review(review(alice(), 5), carol(), 11).success);
    assert_eq!(registry.get_review_count(&alice()), 2);
    assert_eq!(registry.get_review_count(&bob()), 0);
    let first = registry.get_review(&alice(), 0).unwrap();
    assert_eq!(first.reviewer, bob());
    assert_eq!(first.rating, 2);
    assert_eq!(first.comment, "Excellent service");
    assert_eq!(first.timestamp, 10);
    let second = registry.get_review(&alice(), 1).unwrap();
    assert_eq!(second.reviewer, carol());
    assert_eq!(second.rating, 5);
    assert_eq!(second.timestamp, 11);
    assert!(registry.get_review(&alice(), 2).is_none());
    assert!(registry.get_review(&bob(), 0).is_none());
    let all = registry.get_all_reviews(&alice());
    assert_eq!(all.len(), 2);
    assert_eq!(all[0].rating, 2);
    assert_eq!(all[1].rating, 5);
    assert!(registry.get_all_reviews(&bob()).is_empty());
}

#[test]
fn rating_total_adds_the_ratings() {
    let reviews: Vec<Review> = [4u8, 5, 1]
        .iter()
        .map(|rating| Review {
            reviewer: bob(),
            rating: *rating,
            comment: String::new(),
            timestamp: 0,
        })
        .collect();
    assert_eq!(rating_total(&reviews), 10);
    assert_eq!(rating_total(&Vec::new()), 0);
}
