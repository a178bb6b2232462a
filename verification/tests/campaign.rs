use crowdfund::contract::CrowdfundContract;
use crowdfund::types::{
    Abort, CampaignInfo, ContractError, PlatformConfig, Status, Transfer, CONTRACT_VERSION,
};

const ADMIN: u64 = 1;
const CREATOR: u64 = 2;
const TOKEN: u64 = 3;
const PLATFORM: u64 = 4;
const NFT: u64 = 5;
const ALICE: u64 = 10;
const BOB: u64 = 11;
const CAROL: u64 = 12;

const START: u64 = 1_000;
const DEADLINE: u64 = START + 3600;
const GOAL: i128 = 1_000_000;
const MIN: i128 = 1_000;

fn campaign_with(platform: Option<PlatformConfig>, hard_cap: Option<i128>) -> CrowdfundContract {
    let mut c = CrowdfundContract::new();
    assert_eq!(c.initialize_abort(GOAL, platform, None, hard_cap), None);
    let r = c.initialize(
        ADMIN,
        CREATOR,
        TOKEN,
        GOAL,
        DEADLINE,
        MIN,
        "Title".to_string(),
        "Description".to_string(),
        platform,
        None,
        None,
        hard_cap,
    );
    assert_eq!(r, Ok(()));
    c
}

fn campaign() -> CrowdfundContract {
    campaign_with(None, None)
}

fn give(c: &mut CrowdfundContract, now: u64, who: u64, amount: i128) {
    assert_eq!(c.contribute_abort(now, who, amount), None);
    assert_eq!(c.contribute(now, who, amount, None), Ok(()));
}

// ── initialization ──────────────────────────────────────────────────────────

#[test]
fn test_initialize_sets_parameters() {
    let c = campaign();
    assert!(c.is_initialized());
    assert_eq!(c.creator(), CREATOR);
    assert_eq!(c.admin(), ADMIN);
    assert_eq!(c.token(), TOKEN);
    assert_eq!(c.goal(), GOAL);
    assert_eq!(c.deadline(), DEADLINE);
    assert_eq!(c.min_contribution(), MIN);
    assert_eq!(c.total_raised(), 0);
    assert_eq!(c.status(), Status::Active);
    assert_eq!(c.title(), "Title");
    assert_eq!(c.description(), "Description");
    assert_eq!(c.socials(), "");
    assert_eq!(c.version(), CONTRACT_VERSION);
    assert_eq!(c.version(), 3);
    assert_eq!(c.contributor_count(), 0);
    assert_eq!(c.roadmap().len(), 0);
    assert_eq!(c.get_updates().len(), 0);
    assert_eq!(c.reward_tiers().len(), 0);
    assert_eq!(c.nft_contract(), None);
}

#[test]
fn test_uninitialized_views() {
    let c = CrowdfundContract::new();
    assert!(!c.is_initialized());
    assert_eq!(c.total_raised(), 0);
    assert_eq!(c.contribution(ALICE), 0);
    assert_eq!(c.title(), "");
    assert_eq!(c.current_milestone(), 0);
    assert_eq!(c.contributor_count(), 0);
    assert!(!c.is_whitelisted(ALICE));
    assert_eq!(c.contribute_abort(START, ALICE, MIN), Some(Abort::NotInitialized));
    assert_eq!(c.stats_abort(), Some(Abort::NotInitialized));
    assert_eq!(c.set_nft_contract_abort(CREATOR), Some(Abort::NotInitialized));
}

#[test]
fn test_double_initialize_fails() {
    let mut c = campaign();
    let r = c.initialize(
        ADMIN, BOB, TOKEN, 5, DEADLINE, MIN, "Other".to_string(), "Other".to_string(), None, None,
        None, None,
    );
    assert_eq!(r, Err(ContractError::AlreadyInitialized));
    assert_eq!(c.creator(), CREATOR);
    assert_eq!(c.goal(), GOAL);
    assert_eq!(c.title(), "Title");
}

#[test]
fn test_initialize_rejects_hard_cap_below_goal() {
    let mut c = CrowdfundContract::new();
    let r = c.initialize(
        ADMIN, CREATOR, TOKEN, GOAL, DEADLINE, MIN, "Title".to_string(),
        "Description".to_string(), None, None, None, Some(GOAL - 1),
    );
    assert_eq!(r, Err(ContractError::InvalidHardCap));
    assert!(!c.is_initialized());
}

#[test]
fn test_initialize_aborts_on_fee_above_100_percent() {
    let c = CrowdfundContract::new();
    let config = PlatformConfig { address: PLATFORM, fee_bps: 10_001 };
    assert_eq!(c.initialize_abort(GOAL, Some(config), None, None), Some(Abort::FeeTooHigh));
    assert_eq!(Abort::FeeTooHigh.message(), "platform fee cannot exceed 100%");
    let ok = PlatformConfig { address: PLATFORM, fee_bps: 10_000 };
    assert_eq!(c.initialize_abort(GOAL, Some(ok), None, None), None);
}

#[test]
fn test_initialize_rejects_bonus_goal_not_above_primary() {
    let c = CrowdfundContract::new();
    assert_eq!(c.initialize_abort(GOAL, None, Some(GOAL), None), Some(Abort::BonusGoalTooLow));
    assert_eq!(Abort::BonusGoalTooLow.message(), "bonus goal must be greater than primary goal");
    assert_eq!(c.initialize_abort(GOAL, None, Some(GOAL + 1), None), None);
    // An invalid hard cap is reported before the bonus goal is looked at.
    assert_eq!(c.initialize_abort(GOAL, None, Some(GOAL), Some(GOAL - 1)), None);
    // The default hard cap, twice the goal, must fit.
    assert_eq!(c.initialize_abort(i128::MAX, None, None, None), Some(Abort::ArithmeticOverflow));
}

// ── contributions ───────────────────────────────────────────────────────────

#[test]
fn test_contribute() {
    let mut c = campaign();
    give(&mut c, START, ALICE, 300_000);
    give(&mut c, START, BOB, 200_000);
    assert_eq!(c.total_raised(), 500_000);
    assert_eq!(c.contribution(ALICE), 300_000);
    assert_eq!(c.contribution(BOB), 200_000);
    assert_eq!(c.contributor_count(), 2);
}

#[test]
fn test_multiple_contributions_accumulate() {
    let mut c = campaign();
    give(&mut c, START, ALICE, 1_000);
    give(&mut c, START + 60, ALICE, 2_000);
    give(&mut c, START + 120, ALICE, 3_000);
    assert_eq!(c.contribution(ALICE), 6_000);
    assert_eq!(c.total_raised(), 6_000);
    assert_eq!(c.contributor_count(), 1);
}

#[test]
fn test_contribute_after_deadline_returns_error() {
    let mut c = campaign();
    assert_eq!(c.contribute(DEADLINE + 1, ALICE, 500_000, None), Err(ContractError::CampaignEnded));
    assert_eq!(c.total_raised(), 0);
    assert_eq!(c.contribution(ALICE), 0);
    // At the deadline itself contributions are still accepted.
    assert_eq!(c.contribute(DEADLINE, ALICE, 500_000, None), Ok(()));
}

#[test]
fn test_contribute_rate_limited() {
    let mut c = campaign();
    give(&mut c, START, ALICE, 1_000);
    assert_eq!(c.contribute(START + 59, ALICE, 1_000, None), Err(ContractError::RateLimitExceeded));
    assert_eq!(c.contribution(ALICE), 1_000);
    assert_eq!(c.contribute(START + 60, ALICE, 1_000, None), Ok(()));
    assert_eq!(c.contribution(ALICE), 2_000);
    // Other accounts are not held back.
    assert_eq!(c.contribute(START + 61, BOB, 1_000, None), Ok(()));
}

#[test]
fn test_contribute_below_minimum_aborts() {
    let c = campaign();
    assert_eq!(c.contribute_abort(START, ALICE, MIN - 1), Some(Abort::BelowMinimum));
    assert_eq!(Abort::BelowMinimum.message(), "amount below minimum");
    assert_eq!(c.contribute_abort(START, ALICE, MIN), None);
}

#[test]
fn test_contribute_respects_hard_cap() {
    let mut c = campaign_with(None, Some(GOAL + 500));
    give(&mut c, START, ALICE, GOAL);
    assert_eq!(c.contribute(START, BOB, 1_000, None), Err(ContractError::HardCapExceeded));
    assert_eq!(c.total_raised(), GOAL);
    // Reaching the hard cap exactly is allowed.
    assert_eq!(c.contribute(START, BOB, 500, None), Ok(()));
    assert_eq!(c.total_raised(), GOAL + 500);
    let mut d = campaign_with(None, Some(GOAL + 1_000));
    give(&mut d, START, ALICE, GOAL);
    assert_eq!(d.contribute(START, BOB, 1_000, None), Ok(()));
    assert_eq!(d.total_raised(), GOAL + 1_000);
}

#[test]
fn test_contribute_with_referral_tallies() {
    let mut c = campaign();
    assert_eq!(c.contribute(START, ALICE, 5_000, Some(CAROL)), Ok(()));
    assert_eq!(c.contribute(START, BOB, 7_000, Some(CAROL)), Ok(()));
    // Referring oneself does not count.
    assert_eq!(c.contribute(START + 60, ALICE, 1_000, Some(ALICE)), Ok(()));
    assert_eq!(c.referral_tally(CAROL), 12_000);
    assert_eq!(c.referral_tally(ALICE), 0);
    assert_eq!(c.total_raised(), 13_000);
}

#[test]
fn test_contribute_referral_overflow_leaves_records() {
    let mut c = CrowdfundContract::new();
    let r = c.initialize(
        ADMIN, CREATOR, TOKEN, GOAL, DEADLINE, 1, "Title".to_string(),
        "Description".to_string(), None, None, None, Some(i128::MAX),
    );
    assert_eq!(r, Ok(()));
    assert_eq!(c.contribute(START, ALICE, i128::MAX - 10, Some(CAROL)), Ok(()));
    assert_eq!(c.withdraw_contribution_abort(START, ALICE, i128::MAX - 10), None);
    c.withdraw_contribution(START, ALICE, i128::MAX - 10);
    assert_eq!(c.total_raised(), 0);
    assert_eq!(c.contribute(START, BOB, 100, Some(CAROL)), Err(ContractError::Overflow));
    assert_eq!(c.contribution(BOB), 0);
    assert_eq!(c.total_raised(), 0);
    assert_eq!(c.contributor_count(), 0);
    assert_eq!(c.referral_tally(CAROL), i128::MAX - 10);
}

#[test]
fn test_paused_campaign_blocks_contributions() {
    let mut c = campaign();
    assert_eq!(c.creator_action_abort(), None);
    c.set_paused(true);
    assert!(c.is_paused());
    assert_eq!(c.contribute(START, ALICE, 5_000, None), Err(ContractError::ContractPaused));
    assert_eq!(c.withdraw_contribution_abort(START, ALICE, 0), Some(Abort::Paused));
    c.set_paused(false);
    assert!(!c.is_paused());
    assert_eq!(c.contribute(START, ALICE, 5_000, None), Ok(()));
}

#[test]
fn test_contributor_count_zero_before_contributions() {
    let c = campaign();
    assert_eq!(c.contributor_count(), 0);
}

#[test]
fn test_contributor_count_one_after_single_contribution() {
    let mut c = campaign();
    give(&mut c, START, ALICE, 500_000);
    assert_eq!(c.contributor_count(), 1);
}

#[test]
fn test_contributor_count_multiple_contributors() {
    let mut c = campaign();
    give(&mut c, START, ALICE, 1_000);
    give(&mut c, START, BOB, 2_000);
    give(&mut c, START, CAROL, 3_000);
    give(&mut c, START + 60, BOB, 2_000);
    assert_eq!(c.contributor_count(), 3);
}

// ── early withdrawal ────────────────────────────────────────────────────────

#[test]
fn test_partial_withdrawal() {
    let mut c = campaign();
    give(&mut c, START, ALICE, 500_000);
    assert_eq!(c.withdraw_contribution_abort(START, ALICE, 200_000), None);
    c.withdraw_contribution(START, ALICE, 200_000);
    assert_eq!(c.total_raised(), 300_000);
    assert_eq!(c.contribution(ALICE), 300_000);
    assert_eq!(c.contributor_count(), 1);
}

#[test]
fn test_full_withdrawal_removes_contributor() {
    let mut c = campaign();
    give(&mut c, START, ALICE, 500_000);
    give(&mut c, START, BOB, 100_000);
    assert_eq!(c.get_stats().contributor_count, 2);
    c.withdraw_contribution(START, ALICE, 500_000);
    assert_eq!(c.total_raised(), 100_000);
    assert_eq!(c.contribution(ALICE), 0);
    assert_eq!(c.get_stats().contributor_count, 1);
    assert_eq!(c.contributor_count(), 1);
}

#[test]
fn test_withdraw_exceeding_balance_aborts() {
    let mut c = campaign();
    give(&mut c, START, ALICE, 100_000);
    assert_eq!(c.withdraw_contribution_abort(START, ALICE, 100_001), Some(Abort::InsufficientBalance));
    assert_eq!(Abort::InsufficientBalance.message(), "insufficient balance");
}

#[test]
fn test_withdraw_after_deadline_aborts() {
    let mut c = campaign();
    give(&mut c, START, ALICE, 100_000);
    assert_eq!(c.withdraw_contribution_abort(DEADLINE + 1, ALICE, 1), Some(Abort::CampaignEnded));
    assert_eq!(Abort::CampaignEnded.message(), "campaign has ended");
}

#[test]
fn test_withdraw_then_contribute_again() {
    let mut c = campaign();
    give(&mut c, START, ALICE, 5_000);
    give(&mut c, START, BOB, 5_000);
    c.withdraw_contribution(START, ALICE, 5_000);
    give(&mut c, START + 60, ALICE, 7_000);
    assert_eq!(c.contribution(ALICE), 7_000);
    assert_eq!(c.contributor_count(), 2);
    assert_eq!(c.total_raised(), 12_000);
}

// ── payout ──────────────────────────────────────────────────────────────────

#[test]
fn test_withdraw_successful_campaign_updates_status_and_balance() {
    let mut c = campaign();
    give(&mut c, START, ALICE, 1_000_000);
    assert_eq!(c.withdraw_abort(DEADLINE + 1), None);
    let plan = c.withdraw(DEADLINE + 1).unwrap();
    assert_eq!(plan.creator, CREATOR);
    assert_eq!(plan.total, 1_000_000);
    assert_eq!(plan.fee, None);
    assert_eq!(plan.creator_payout, 1_000_000);
    assert_eq!(c.total_raised(), 0);
    assert_eq!(c.status(), Status::Successful);
    assert_eq!(c.withdraw_abort(DEADLINE + 2), Some(Abort::NotActive));
}

#[test]
fn test_withdraw_before_deadline_fails() {
    let mut c = campaign();
    give(&mut c, START, ALICE, 1_000_000);
    assert_eq!(c.withdraw(DEADLINE).unwrap_err(), ContractError::CampaignStillActive);
    assert_eq!(c.total_raised(), 1_000_000);
    assert_eq!(c.status(), Status::Active);
}

#[test]
fn test_withdraw_goal_not_reached_fails() {
    let mut c = campaign();
    give(&mut c, START, ALICE, 500_000);
    assert_eq!(c.withdraw(DEADLINE + 1).unwrap_err(), ContractError::GoalNotReached);
    assert_eq!(c.status(), Status::Active);
}

#[test]
fn test_withdraw_paused_fails() {
    let mut c = campaign();
    give(&mut c, START, ALICE, 1_000_000);
    c.set_paused(true);
    assert_eq!(c.withdraw(DEADLINE + 1).unwrap_err(), ContractError::ContractPaused);
}

#[test]
fn test_withdraw_with_platform_fee() {
    let config = PlatformConfig { address: PLATFORM, fee_bps: 250 };
    let mut c = campaign_with(Some(config), None);
    give(&mut c, START, ALICE, 1_000_003);
    let plan = c.withdraw(DEADLINE + 1).unwrap();
    // 2.5% of 1_000_003 is 25_000.075, rounded towards zero.
    assert_eq!(plan.fee, Some(Transfer { account: PLATFORM, amount: 25_000 }));
    assert_eq!(plan.creator_payout, 975_003);
    assert_eq!(plan.creator_payout + 25_000, plan.total);
}

#[test]
fn test_withdraw_with_full_fee() {
    let config = PlatformConfig { address: PLATFORM, fee_bps: 10_000 };
    let mut c = campaign_with(Some(config), None);
    give(&mut c, START, ALICE, 1_000_000);
    let plan = c.withdraw(DEADLINE + 1).unwrap();
    assert_eq!(plan.fee, Some(Transfer { account: PLATFORM, amount: 1_000_000 }));
    assert_eq!(plan.creator_payout, 0);
}

#[test]
fn test_withdraw_fee_overflow_aborts() {
    let config = PlatformConfig { address: PLATFORM, fee_bps: 10_000 };
    let mut c = CrowdfundContract::new();
    let r = c.initialize(
        ADMIN, CREATOR, TOKEN, 1, DEADLINE, 1, "Title".to_string(),
        "Description".to_string(), Some(config), None, None, Some(i128::MAX),
    );
    assert_eq!(r, Ok(()));
    give(&mut c, START, ALICE, i128::MAX / 2);
    assert_eq!(c.withdraw_abort(DEADLINE + 1), Some(Abort::FeeOverflow));
    assert_eq!(Abort::FeeOverflow.message(), "fee calculation overflow");
}

#[test]
fn test_withdraw_mints_nft_for_each_contributor() {
    let mut c = campaign();
    assert_eq!(c.set_nft_contract_abort(CREATOR), None);
    c.set_nft_contract(CREATOR, NFT);
    assert_eq!(c.nft_contract(), Some(NFT));
    give(&mut c, START, ALICE, 600_000);
    give(&mut c, START, BOB, 400_000);
    give(&mut c, START, CAROL, 5_000);
    c.withdraw_contribution(START, CAROL, 5_000);
    let plan = c.withdraw(DEADLINE + 1).unwrap();
    assert_eq!(plan.nft_contract, Some(NFT));
    assert_eq!(plan.nft_recipients, vec![ALICE, BOB]);
}

#[test]
fn test_withdraw_skips_nft_mint_when_contract_not_set() {
    let mut c = campaign();
    give(&mut c, START, ALICE, 1_000_000);
    let plan = c.withdraw(DEADLINE + 1).unwrap();
    assert_eq!(plan.nft_contract, None);
    assert!(plan.nft_recipients.is_empty());
}

#[test]
fn test_set_nft_contract_rejects_non_creator() {
    let c = campaign();
    assert_eq!(c.set_nft_contract_abort(ALICE), Some(Abort::NotAuthorized));
    assert_eq!(Abort::NotAuthorized.message(), "not authorized");
}

// ── refunds ─────────────────────────────────────────────────────────────────

#[test]
fn test_refund_single_before_deadline_fails() {
    let mut c = campaign();
    give(&mut c, START, ALICE, 500_000);
    assert_eq!(c.refund_single(DEADLINE, ALICE), Err(ContractError::CampaignStillActive));
    assert_eq!(c.contribution(ALICE), 500_000);
}

#[test]
fn test_refund_single_after_goal_reached_fails() {
    let mut c = campaign();
    give(&mut c, START, ALICE, 1_000_000);
    assert_eq!(c.refund_single(DEADLINE + 1, ALICE), Err(ContractError::GoalReached));
    assert_eq!(c.total_raised(), 1_000_000);
}

#[test]
fn test_refund_returns_exact_amount() {
    let mut c = campaign();
    give(&mut c, START, ALICE, 300_000);
    give(&mut c, START, BOB, 200_000);
    assert_eq!(c.refund_abort(DEADLINE + 1, ALICE), None);
    assert_eq!(c.refund_single(DEADLINE + 1, ALICE), Ok(300_000));
    assert_eq!(c.contribution(ALICE), 0);
    assert_eq!(c.total_raised(), 200_000);
    assert_eq!(c.status(), Status::Active);
    // A second refund has nothing left to return.
    assert_eq!(c.refund_single(DEADLINE + 2, ALICE), Ok(0));
    assert_eq!(c.total_raised(), 200_000);
    assert_eq!(c.refund_single(DEADLINE + 2, BOB), Ok(200_000));
    assert_eq!(c.total_raised(), 0);
    assert_eq!(c.status(), Status::Active);
    assert_eq!(c.refund_abort(DEADLINE + 3, CAROL), None);
    assert_eq!(c.refund_single(DEADLINE + 3, CAROL), Ok(0));
}

#[test]
fn test_second_refund_does_nothing() {
    let mut c = campaign();
    give(&mut c, START, ALICE, 500_000);
    assert_eq!(c.refund_abort(DEADLINE + 1, ALICE), None);
    assert_eq!(c.refund_single(DEADLINE + 1, ALICE), Ok(500_000));
    assert_eq!(c.total_raised(), 0);
    // Second refund should succeed but do nothing (amount is 0).
    assert_eq!(c.refund_abort(DEADLINE + 1, ALICE), None);
    assert_eq!(c.refund_single(DEADLINE + 1, ALICE), Ok(0));
    assert_eq!(c.total_raised(), 0);
    assert_eq!(c.contribution(ALICE), 0);
    assert_eq!(c.status(), Status::Active);
}

#[test]
fn test_refund_non_contributor_is_noop() {
    let mut c = campaign();
    give(&mut c, START, ALICE, 1_000);
    assert_eq!(c.refund_single(DEADLINE + 1, CAROL), Ok(0));
    assert_eq!(c.total_raised(), 1_000);
    assert_eq!(c.status(), Status::Active);
}

// ── pledges ─────────────────────────────────────────────────────────────────

#[test]
fn test_pledges_collected_when_goal_met() {
    let mut c = campaign();
    give(&mut c, START, ALICE, 400_000);
    assert_eq!(c.pledge_abort(START, BOB, 500_000), None);
    assert_eq!(c.pledge(START, BOB, 500_000), Ok(()));
    assert_eq!(c.pledge(START, CAROL, 50_000), Ok(()));
    assert_eq!(c.pledge(START, CAROL, 50_000), Ok(()));
    assert_eq!(c.total_pledged(), 600_000);
    assert_eq!(c.pledged(CAROL), 100_000);
    assert!(matches!(c.collect_pledges(DEADLINE), Err(ContractError::CampaignStillActive)));
    let collected = c.collect_pledges(DEADLINE + 1).unwrap();
    assert_eq!(
        collected.transfers,
        vec![Transfer { account: BOB, amount: 500_000 }, Transfer { account: CAROL, amount: 100_000 }]
    );
    assert_eq!(collected.total_collected, 600_000);
    assert_eq!(c.total_raised(), 1_000_000);
    assert_eq!(c.total_pledged(), 0);
    assert_eq!(c.pledged(BOB), 0);
    assert_eq!(c.pledged(CAROL), 0);
}

#[test]
fn test_collect_pledges_goal_not_reached() {
    let mut c = campaign();
    assert_eq!(c.pledge(START, BOB, 500_000), Ok(()));
    assert!(matches!(c.collect_pledges(DEADLINE + 1), Err(ContractError::GoalNotReached)));
    assert_eq!(c.total_pledged(), 500_000);
    assert_eq!(c.total_raised(), 0);
}

#[test]
fn test_pledge_after_deadline_fails() {
    let mut c = campaign();
    assert_eq!(c.pledge(DEADLINE + 1, BOB, 5_000), Err(ContractError::CampaignEnded));
    assert_eq!(c.pledge_abort(START, BOB, 5), Some(Abort::BelowMinimum));
    assert_eq!(c.total_pledged(), 0);
}

// ── the campaign's record ───────────────────────────────────────────────────

#[test]
fn test_add_multiple_roadmap_items_in_order() {
    let mut c = campaign();
    assert_eq!(c.add_roadmap_item_abort(START, START + 10, "Prototype"), None);
    c.add_roadmap_item(START, START + 10, "Prototype".to_string());
    c.add_roadmap_item(START, START + 20, "Launch".to_string());
    let roadmap = c.roadmap();
    assert_eq!(roadmap.len(), 2);
    assert_eq!(roadmap[0].date, START + 10);
    assert_eq!(roadmap[0].description, "Prototype");
    assert_eq!(roadmap[1].date, START + 20);
    assert_eq!(roadmap[1].description, "Launch");
}

#[test]
fn test_add_roadmap_item_with_past_or_current_date_aborts() {
    let c = campaign();
    assert_eq!(c.add_roadmap_item_abort(START, START - 1, "Past"), Some(Abort::DateNotInFuture));
    assert_eq!(c.add_roadmap_item_abort(START, START, "Now"), Some(Abort::DateNotInFuture));
    assert_eq!(Abort::DateNotInFuture.message(), "date must be in the future");
}

#[test]
fn test_add_roadmap_item_with_empty_description_aborts() {
    let c = campaign();
    assert_eq!(c.add_roadmap_item_abort(START, START + 1, ""), Some(Abort::EmptyDescription));
    assert_eq!(Abort::EmptyDescription.message(), "description cannot be empty");
}

#[test]
fn test_post_multiple_updates_chronological_order() {
    let mut c = campaign();
    assert_eq!(c.post_update_abort("First"), None);
    c.post_update(START, "First".to_string());
    c.post_update(START + 5, "Second".to_string());
    let updates = c.get_updates();
    assert_eq!(updates, vec![(START, "First".to_string()), (START + 5, "Second".to_string())]);
}

#[test]
fn test_post_update_with_empty_text_aborts() {
    let c = campaign();
    assert_eq!(c.post_update_abort(""), Some(Abort::EmptyUpdate));
    assert_eq!(Abort::EmptyUpdate.message(), "update text cannot be empty");
}

#[test]
fn test_update_metadata() {
    let mut c = campaign();
    assert_eq!(c.update_metadata_abort(CREATOR), None);
    assert_eq!(c.update_metadata_abort(ALICE), Some(Abort::NotAuthorized));
    c.update_metadata(CREATOR, Some("New title".to_string()), None, Some("@campaign".to_string()));
    assert_eq!(c.title(), "New title");
    assert_eq!(c.description(), "Description");
    assert_eq!(c.socials(), "@campaign");
    c.update_metadata(CREATOR, None, Some("New description".to_string()), None);
    assert_eq!(c.title(), "New title");
    assert_eq!(c.description(), "New description");
}

#[test]
fn test_update_metadata_after_success_aborts() {
    let mut c = campaign();
    give(&mut c, START, ALICE, GOAL);
    c.withdraw(DEADLINE + 1).unwrap();
    assert_eq!(c.update_metadata_abort(CREATOR), Some(Abort::NotActive));
    assert_eq!(c.add_reward_tier_abort(CREATOR, 10), Some(Abort::NotActive));
}

#[test]
fn test_batch_whitelist_addition() {
    let mut c = campaign();
    assert!(!c.is_whitelisted(ALICE));
    c.add_to_whitelist(&vec![ALICE, BOB]);
    assert!(c.is_whitelisted(ALICE));
    assert!(c.is_whitelisted(BOB));
    assert!(!c.is_whitelisted(CAROL));
}

#[test]
fn test_whitelisted_contribution() {
    let mut c = campaign();
    c.add_to_whitelist(&vec![ALICE]);
    give(&mut c, START, ALICE, 500_000);
    assert_eq!(c.contribution(ALICE), 500_000);
    assert_eq!(c.contribute_abort(START, BOB, 500_000), Some(Abort::NotWhitelisted));
    assert_eq!(Abort::NotWhitelisted.message(), "address is not whitelisted");
    assert_eq!(c.contribution(BOB), 0);
    assert_eq!(c.total_raised(), 500_000);
}

#[test]
fn test_open_campaign_no_whitelist() {
    let mut c = campaign();
    give(&mut c, START, ALICE, 500_000);
    give(&mut c, START, BOB, 300_000);
    assert_eq!(c.total_raised(), 800_000);
    assert!(!c.is_whitelisted(ALICE));
}

#[test]
fn test_whitelist_checked_before_amount() {
    let mut c = campaign();
    c.add_to_whitelist(&vec![ALICE]);
    assert_eq!(c.contribute_abort(START, BOB, 1), Some(Abort::NotWhitelisted));
    assert_eq!(c.contribute_abort(START, ALICE, 1), Some(Abort::BelowMinimum));
}

#[test]
fn test_get_campaign_info_with_contributions() {
    let mut c = campaign();
    give(&mut c, START, ALICE, 250_000);
    assert_eq!(
        c.get_campaign_info(),
        CampaignInfo { creator: CREATOR, token: TOKEN, goal: GOAL, deadline: DEADLINE, total_raised: 250_000 }
    );
}

// ── stretch goals and reward tiers ──────────────────────────────────────────

#[test]
fn test_current_milestone() {
    let mut c = campaign();
    assert_eq!(c.current_milestone(), 0);
    assert_eq!(c.add_stretch_goal_abort(GOAL), Some(Abort::StretchGoalTooLow));
    c.add_stretch_goal(1_500_000);
    c.add_stretch_goal(2_000_000);
    assert_eq!(c.current_milestone(), 1_500_000);
    give(&mut c, START, ALICE, 1_500_000);
    assert_eq!(c.current_milestone(), 2_000_000);
    give(&mut c, START, BOB, 500_000);
    assert_eq!(c.current_milestone(), 0);
}

#[test]
fn test_get_user_tier_highest_qualifying_tier_returned() {
    let mut c = campaign();
    c.add_reward_tier(CREATOR, "Bronze".to_string(), 10_000);
    c.add_reward_tier(CREATOR, "Silver".to_string(), 100_000);
    c.add_reward_tier(CREATOR, "Gold".to_string(), 500_000);
    give(&mut c, START, ALICE, 600_000);
    give(&mut c, START, BOB, 100_000);
    give(&mut c, START, CAROL, 5_000);
    assert_eq!(c.get_user_tier(ALICE), Some("Gold".to_string()));
    assert_eq!(c.get_user_tier(BOB), Some("Silver".to_string()));
    assert_eq!(c.get_user_tier(CAROL), None);
}

#[test]
fn test_get_user_tier_first_of_equal_tiers() {
    let mut c = campaign();
    c.add_reward_tier(CREATOR, "Gold".to_string(), 500_000);
    c.add_reward_tier(CREATOR, "Bronze".to_string(), 10_000);
    c.add_reward_tier(CREATOR, "Also gold".to_string(), 500_000);
    give(&mut c, START, ALICE, 900_000);
    assert_eq!(c.get_user_tier(ALICE), Some("Gold".to_string()));
}

#[test]
fn test_get_user_tier_non_contributor_returns_none() {
    let mut c = campaign();
    c.add_reward_tier(CREATOR, "Bronze".to_string(), 10_000);
    assert_eq!(c.get_user_tier(ALICE), None);
}

#[test]
fn test_get_user_tier_no_tiers_defined_returns_none() {
    let mut c = campaign();
    give(&mut c, START, ALICE, 500_000);
    assert_eq!(c.get_user_tier(ALICE), None);
}

#[test]
fn test_add_reward_tier_rejects_zero_min_amount() {
    let c = campaign();
    assert_eq!(c.add_reward_tier_abort(CREATOR, 0), Some(Abort::TierAmountNotPositive));
    assert_eq!(Abort::TierAmountNotPositive.message(), "min_amount must be greater than 0");
    assert_eq!(c.add_reward_tier_abort(ALICE, 10), Some(Abort::NotAuthorized));
}

#[test]
fn test_reward_tiers_view() {
    let mut c = campaign();
    c.add_reward_tier(CREATOR, "Bronze".to_string(), 10_000);
    c.add_reward_tier(CREATOR, "Silver".to_string(), 100_000);
    let tiers = c.reward_tiers();
    assert_eq!(tiers.len(), 2);
    assert_eq!(tiers[0].name, "Bronze");
    assert_eq!(tiers[0].min_amount, 10_000);
    assert_eq!(tiers[1].name, "Silver");
    assert_eq!(tiers[1].min_amount, 100_000);
}

// ── statistics ──────────────────────────────────────────────────────────────

#[test]
fn test_get_stats() {
    let mut c = campaign();
    give(&mut c, START, ALICE, 300_000);
    give(&mut c, START, BOB, 200_001);
    give(&mut c, START, CAROL, 1_000);
    assert_eq!(c.stats_abort(), None);
    let stats = c.get_stats();
    assert_eq!(stats.total_raised, 501_001);
    assert_eq!(stats.goal, GOAL);
    assert_eq!(stats.progress_bps, 5_010);
    assert_eq!(stats.contributor_count, 3);
    assert_eq!(stats.average_contribution, 167_000);
    assert_eq!(stats.largest_contribution, 300_000);
}

#[test]
fn test_get_stats_caps_progress() {
    let mut c = campaign();
    give(&mut c, START, ALICE, 1_500_000);
    let stats = c.get_stats();
    assert_eq!(stats.progress_bps, 10_000);
}

#[test]
fn test_get_stats_empty() {
    let c = campaign();
    let stats = c.get_stats();
    assert_eq!(stats.progress_bps, 0);
    assert_eq!(stats.contributor_count, 0);
    assert_eq!(stats.average_contribution, 0);
    assert_eq!(stats.largest_contribution, 0);
}

// ── laws on concrete values ─────────────────────────────────────────────────

#[test]
fn test_total_raised_equals_sum_of_contributions() {
    let mut c = campaign();
    give(&mut c, START, ALICE, 123_456);
    give(&mut c, START, BOB, 7_890);
    give(&mut c, START + 60, ALICE, 1_111);
    c.withdraw_contribution(START + 61, BOB, 890);
    let sum = c.contribution(ALICE) + c.contribution(BOB);
    assert_eq!(c.total_raised(), sum);
    assert_eq!(c.refund_single(DEADLINE + 1, ALICE), Ok(124_567));
    assert_eq!(c.total_raised(), c.contribution(ALICE) + c.contribution(BOB));
}

#[test]
fn test_withdraw_undoes_contribute() {
    let mut c = campaign();
    give(&mut c, START, BOB, 4_000);
    give(&mut c, START, ALICE, 9_000);
    c.withdraw_contribution(START, ALICE, 9_000);
    assert_eq!(c.contribution(ALICE), 0);
    assert_eq!(c.total_raised(), 4_000);
    assert_eq!(c.contributor_count(), 1);
    give(&mut c, START + 60, BOB, 1_000);
    c.withdraw_contribution(START + 60, BOB, 1_000);
    assert_eq!(c.contribution(BOB), 4_000);
    assert_eq!(c.contributor_count(), 1);
}

#[test]
fn test_failed_request_changes_nothing() {
    let mut c = campaign();
    give(&mut c, START, ALICE, 5_000);
    let before = (c.total_raised(), c.contribution(ALICE), c.contributor_count());
    assert!(c.contribute(START + 1, ALICE, 5_000, None).is_err());
    assert!(c.withdraw(START + 1).is_err());
    assert!(c.refund_single(START + 1, ALICE).is_err());
    assert!(c.collect_pledges(START + 1).is_err());
    assert_eq!(before, (c.total_raised(), c.contribution(ALICE), c.contributor_count()));
    assert_eq!(c.status(), Status::Active);
}

#[test]
fn test_error_codes() {
    assert_eq!(ContractError::AlreadyInitialized.code(), 1);
    assert_eq!(ContractError::CampaignEnded.code(), 2);
    assert_eq!(ContractError::CampaignStillActive.code(), 3);
    assert_eq!(ContractError::GoalNotReached.code(), 4);
    assert_eq!(ContractError::GoalReached.code(), 5);
    assert_eq!(ContractError::Overflow.code(), 6);
    assert_eq!(ContractError::InvalidHardCap.code(), 7);
    assert_eq!(ContractError::HardCapExceeded.code(), 8);
    assert_eq!(ContractError::RateLimitExceeded.code(), 9);
    assert_eq!(ContractError::ContractPaused.code(), 10);
    assert_eq!(ContractError::InvalidLimit.code(), 11);
}

// ── storing and restoring ───────────────────────────────────────────────────

#[test]
fn test_record_round_trip() {
    let mut c = campaign();
    give(&mut c, START, ALICE, 5_000);
    assert_eq!(c.contribute(START, BOB, 6_000, Some(CAROL)), Ok(()));
    assert_eq!(c.pledge(START, CAROL, 7_000), Ok(()));
    c.add_roadmap_item(START, START + 1, "Step".to_string());
    c.post_update(START, "Hello".to_string());
    c.add_reward_tier(CREATOR, "Gold".to_string(), 5_500);
    c.add_stretch_goal(GOAL + 1);
    c.add_to_whitelist(&vec![ALICE]);
    let record = c.to_record();
    assert_eq!(record.contributors, vec![ALICE, BOB]);
    assert_eq!(record.contributions, vec![(ALICE, 5_000), (BOB, 6_000)]);
    let mut d = CrowdfundContract::from_record(record).unwrap();
    assert_eq!(d.total_raised(), 11_000);
    assert_eq!(d.contribution(BOB), 6_000);
    assert_eq!(d.pledged(CAROL), 7_000);
    assert_eq!(d.referral_tally(CAROL), 6_000);
    assert_eq!(d.roadmap()[0].description, "Step");
    assert_eq!(d.get_updates(), vec![(START, "Hello".to_string())]);
    assert_eq!(d.get_user_tier(BOB), Some("Gold".to_string()));
    assert_eq!(d.current_milestone(), GOAL + 1);
    assert!(d.is_whitelisted(ALICE));
    assert_eq!(d.contribute(START + 1, ALICE, 1_000, None), Err(ContractError::RateLimitExceeded));
}

#[test]
fn test_record_with_duplicates_is_refused() {
    let mut c = campaign();
    give(&mut c, START, ALICE, 5_000);
    let mut record = c.to_record();
    record.contributors.push(ALICE);
    assert!(CrowdfundContract::from_record(record).is_none());
    let mut record = c.to_record();
    record.contributions.push((ALICE, 1));
    assert!(CrowdfundContract::from_record(record).is_none());
    let mut record = CrowdfundContract::new().to_record();
    record.contributors.push(ALICE);
    assert!(CrowdfundContract::from_record(record).is_none());
}

// ── amounts that are not positive ───────────────────────────────────────────

fn open_minimum_campaign() -> CrowdfundContract {
    let mut c = CrowdfundContract::new();
    let r = c.initialize(
        ADMIN, CREATOR, TOKEN, GOAL, DEADLINE, 0, "Title".to_string(),
        "Description".to_string(), None, None, None, None,
    );
    assert_eq!(r, Ok(()));
    c
}

#[test]
fn test_contribute_zero_or_negative_aborts() {
    let c = open_minimum_campaign();
    assert_eq!(c.contribute_abort(START, ALICE, 0), Some(Abort::NotPositive));
    assert_eq!(c.contribute_abort(START, ALICE, -5), Some(Abort::BelowMinimum));
    assert_eq!(c.contribute_abort(START, ALICE, 1), None);
    assert_eq!(Abort::NotPositive.message(), "amount must be positive");
    assert_eq!(c.total_raised(), 0);
    assert_eq!(c.contributor_count(), 0);
}

#[test]
fn test_contribute_negative_with_negative_minimum_aborts() {
    let mut c = CrowdfundContract::new();
    let r = c.initialize(
        ADMIN, CREATOR, TOKEN, GOAL, DEADLINE, -10, "Title".to_string(),
        "Description".to_string(), None, None, None, None,
    );
    assert_eq!(r, Ok(()));
    assert_eq!(c.contribute_abort(START, ALICE, -5), Some(Abort::NotPositive));
    assert_eq!(c.contribute_abort(START, ALICE, -11), Some(Abort::BelowMinimum));
    assert_eq!(c.pledge_abort(START, ALICE, -5), None);
    assert_eq!(c.pledge_abort(START, ALICE, -11), Some(Abort::BelowMinimum));
    assert_eq!(c.pledge(START, ALICE, -5), Ok(()));
    assert_eq!(c.pledged(ALICE), -5);
    assert_eq!(c.total_pledged(), -5);
    assert_eq!(c.pledge_abort(DEADLINE + 1, BOB, -5), None);
    assert_eq!(c.pledge(DEADLINE + 1, BOB, -5), Err(ContractError::CampaignEnded));
    assert_eq!(c.pledged(BOB), 0);
}

#[test]
fn test_pledge_of_zero_meeting_the_minimum() {
    let mut c = open_minimum_campaign();
    assert_eq!(c.pledge_abort(START, ALICE, 0), None);
    assert_eq!(c.pledge(START, ALICE, 0), Ok(()));
    assert_eq!(c.pledged(ALICE), 0);
    assert_eq!(c.total_pledged(), 0);
    assert_eq!(c.pledge_abort(START, ALICE, -1), Some(Abort::BelowMinimum));
    assert_eq!(c.pledge(START, ALICE, 1), Ok(()));
    assert_eq!(c.total_pledged(), 1);
}

#[test]
fn test_withdraw_negative_contribution_aborts() {
    let mut c = campaign();
    give(&mut c, START, ALICE, 5_000);
    assert_eq!(c.withdraw_contribution_abort(START, ALICE, -5), Some(Abort::NegativeAmount));
    assert_eq!(Abort::NegativeAmount.message(), "amount must not be negative");
    assert_eq!(c.withdraw_contribution_abort(START, ALICE, 5_001), Some(Abort::InsufficientBalance));
    assert_eq!(c.withdraw_contribution_abort(START, ALICE, 0), None);
    assert_eq!(c.contribution(ALICE), 5_000);
}

// ── initialization with title and description ───────────────────────────────

#[test]
fn test_initialize_stores_title_and_description() {
    let mut c = CrowdfundContract::new();
    let r = c.initialize(
        ADMIN, CREATOR, TOKEN, GOAL, DEADLINE, MIN, "Save the park".to_string(),
        "Plant new trees".to_string(), None, None, None, None,
    );
    assert_eq!(r, Ok(()));
    assert_eq!(c.title(), "Save the park");
    assert_eq!(c.description(), "Plant new trees");
}

// ── laws on concrete values ─────────────────────────────────────────────────

#[test]
fn test_collect_pledges_twice_collects_once() {
    let mut c = campaign();
    give(&mut c, START, ALICE, 600_000);
    assert_eq!(c.pledge(START, BOB, 500_000), Ok(()));
    let first = c.collect_pledges(DEADLINE + 1).unwrap();
    assert_eq!(first.total_collected, 500_000);
    assert_eq!(c.total_raised(), 1_100_000);
    assert_eq!(c.collect_pledges_abort(DEADLINE + 2), None);
    let second = c.collect_pledges(DEADLINE + 2).unwrap();
    assert_eq!(second.transfers, vec![]);
    assert_eq!(second.total_collected, 0);
    assert_eq!(c.total_raised(), 1_100_000);
    assert_eq!(c.total_pledged(), 0);
    assert_eq!(c.pledged(BOB), 0);
}

#[test]
fn test_best_tier_ignores_order_of_tiers() {
    let mut c = campaign();
    let mut d = campaign();
    c.add_reward_tier(CREATOR, "Bronze".to_string(), 1_000);
    c.add_reward_tier(CREATOR, "Gold".to_string(), 100_000);
    c.add_reward_tier(CREATOR, "Silver".to_string(), 10_000);
    d.add_reward_tier(CREATOR, "Silver".to_string(), 10_000);
    d.add_reward_tier(CREATOR, "Gold".to_string(), 100_000);
    d.add_reward_tier(CREATOR, "Bronze".to_string(), 1_000);
    give(&mut c, START, ALICE, 50_000);
    give(&mut d, START, ALICE, 50_000);
    assert_eq!(c.get_user_tier(ALICE), Some("Silver".to_string()));
    assert_eq!(d.get_user_tier(ALICE), Some("Silver".to_string()));
}

#[test]
fn test_updates_stay_chronological() {
    let mut c = campaign();
    c.post_update(START, "First".to_string());
    c.post_update(START + 5, "Second".to_string());
    c.post_update(START + 5, "Third".to_string());
    let updates = c.get_updates();
    assert_eq!(updates.len(), 3);
    assert!(updates.windows(2).all(|w| w[0].0 <= w[1].0));
    assert_eq!(updates[2], (START + 5, "Third".to_string()));
}

#[test]
fn test_current_milestone_unsorted_goals() {
    let mut c = campaign();
    c.add_stretch_goal(3_000_000);
    c.add_stretch_goal(2_000_000);
    c.add_stretch_goal(1_500_000);
    assert_eq!(c.current_milestone(), 1_500_000);
    give(&mut c, START, ALICE, 1_600_000);
    assert_eq!(c.current_milestone(), 2_000_000);
}

#[test]
fn test_current_milestone_skips_goals_already_met() {
    let mut c = campaign_with(None, Some(5_000_000));
    c.add_stretch_goal(1_200_000);
    c.add_stretch_goal(4_000_000);
    c.add_stretch_goal(2_500_000);
    give(&mut c, START, ALICE, 2_500_000);
    assert_eq!(c.current_milestone(), 4_000_000);
    give(&mut c, START, BOB, 2_000_000);
    assert_eq!(c.current_milestone(), 0);
}
