//! Plain data types of the crowdfunding campaign.
use vstd::prelude::*;

verus! {

/// An account (user, multisig wallet, DAO or contract) as the campaign sees it:
/// the campaign only ever compares accounts for equality, so an account is an
/// opaque integer identifier.
pub type Account = u64;

/// Version number reported by [`crate::contract::CrowdfundContract::version`].
pub const CONTRACT_VERSION: u32 = 3;

/// Seconds that must pass between two contributions of the same account.
pub const CONTRIBUTION_COOLDOWN: u64 = 60;

/// Basis points that make up one hundred percent.
pub const BPS_SCALE: i128 = 10_000;

/// Progress, in basis points, of a campaign that has met its goal.
pub const FULL_PROGRESS_BPS: u32 = 10_000;

/// Largest platform fee, in basis points, that a campaign accepts.
pub const MAX_FEE_BPS: u32 = 10_000;

/// Lifecycle of a campaign.
#[derive(Clone, Copy, Debug, PartialEq, Eq, Structural)]
pub enum Status {
    Active,
    Successful,
    Refunded,
    Cancelled,
}

/// Errors that the campaign reports (as opposed to the requests it refuses
/// outright, which its functions exclude by their preconditions).
#[derive(Clone, Copy, Debug, PartialEq, Eq, Structural)]
pub enum ContractError {
    AlreadyInitialized,
    CampaignEnded,
    CampaignStillActive,
    GoalNotReached,
    GoalReached,
    Overflow,
    InvalidHardCap,
    HardCapExceeded,
    RateLimitExceeded,
    ContractPaused,
    InvalidLimit,
}

impl ContractError {
    /// The stable numeric code of the error (1 for `AlreadyInitialized`, and so on).
    pub fn code(&self) -> (c: u32)
        ensures
            c == self.spec_code(),
    {
        match self {
            ContractError::AlreadyInitialized => 1,
            ContractError::CampaignEnded => 2,
            ContractError::CampaignStillActive => 3,
            ContractError::GoalNotReached => 4,
            ContractError::GoalReached => 5,
            ContractError::Overflow => 6,
            ContractError::InvalidHardCap => 7,
            ContractError::HardCapExceeded => 8,
            ContractError::RateLimitExceeded => 9,
            ContractError::ContractPaused => 10,
            ContractError::InvalidLimit => 11,
        }
    }

    pub open spec fn spec_code(&self) -> u32 {
        match self {
            ContractError::AlreadyInitialized => 1,
            ContractError::CampaignEnded => 2,
            ContractError::CampaignStillActive => 3,
            ContractError::GoalNotReached => 4,
            ContractError::GoalReached => 5,
            ContractError::Overflow => 6,
            ContractError::InvalidHardCap => 7,
            ContractError::HardCapExceeded => 8,
            ContractError::RateLimitExceeded => 9,
            ContractError::ContractPaused => 10,
            ContractError::InvalidLimit => 11,
        }
    }
}

/// Why an operation would abort the transaction that calls it. The
/// operations of the campaign take, as their precondition, that none applies.
#[derive(Clone, Copy, Debug, PartialEq, Eq, Structural)]
pub enum Abort {
    NotInitialized,
    NotActive,
    Paused,
    BelowMinimum,
    NotPositive,
    NegativeAmount,
    NotWhitelisted,
    CampaignEnded,
    InsufficientBalance,
    NotAuthorized,
    FeeTooHigh,
    BonusGoalTooLow,
    DateNotInFuture,
    EmptyDescription,
    EmptyUpdate,
    StretchGoalTooLow,
    TierAmountNotPositive,
    FeeOverflow,
    PayoutUnderflow,
    ArithmeticOverflow,
}

impl Abort {
    /// The message with which the transaction aborts.
    pub open spec fn spec_message(&self) -> Seq<char> {
        match self {
            Abort::NotInitialized => "campaign is not initialized"@,
            Abort::NotActive => "campaign is not active"@,
            Abort::Paused => "campaign is paused"@,
            Abort::BelowMinimum => "amount below minimum"@,
            Abort::NotPositive => "amount must be positive"@,
            Abort::NegativeAmount => "amount must not be negative"@,
            Abort::NotWhitelisted => "address is not whitelisted"@,
            Abort::CampaignEnded => "campaign has ended"@,
            Abort::InsufficientBalance => "insufficient balance"@,
            Abort::NotAuthorized => "not authorized"@,
            Abort::FeeTooHigh => "platform fee cannot exceed 100%"@,
            Abort::BonusGoalTooLow => "bonus goal must be greater than primary goal"@,
            Abort::DateNotInFuture => "date must be in the future"@,
            Abort::EmptyDescription => "description cannot be empty"@,
            Abort::EmptyUpdate => "update text cannot be empty"@,
            Abort::StretchGoalTooLow => "stretch goal must be greater than primary goal"@,
            Abort::TierAmountNotPositive => "min_amount must be greater than 0"@,
            Abort::FeeOverflow => "fee calculation overflow"@,
            Abort::PayoutUnderflow => "creator payout underflow"@,
            Abort::ArithmeticOverflow => "arithmetic overflow"@,
        }
    }

    /// The message with which the transaction aborts.
    pub fn message(&self) -> (r: &'static str)
        ensures
            r@ == self.spec_message(),
    {
        match self {
            Abort::NotInitialized => "campaign is not initialized",
            Abort::NotActive => "campaign is not active",
            Abort::Paused => "campaign is paused",
            Abort::BelowMinimum => "amount below minimum",
            Abort::NotPositive => "amount must be positive",
            Abort::NegativeAmount => "amount must not be negative",
            Abort::NotWhitelisted => "address is not whitelisted",
            Abort::CampaignEnded => "campaign has ended",
            Abort::InsufficientBalance => "insufficient balance",
            Abort::NotAuthorized => "not authorized",
            Abort::FeeTooHigh => "platform fee cannot exceed 100%",
            Abort::BonusGoalTooLow => "bonus goal must be greater than primary goal",
            Abort::DateNotInFuture => "date must be in the future",
            Abort::EmptyDescription => "description cannot be empty",
            Abort::EmptyUpdate => "update text cannot be empty",
            Abort::StretchGoalTooLow => "stretch goal must be greater than primary goal",
            Abort::TierAmountNotPositive => "min_amount must be greater than 0",
            Abort::FeeOverflow => "fee calculation overflow",
            Abort::PayoutUnderflow => "creator payout underflow",
            Abort::ArithmeticOverflow => "arithmetic overflow",
        }
    }
}

/// Platform that takes a fee, in basis points, of a successful campaign.
#[derive(Clone, Copy, Debug, PartialEq, Eq, Structural)]
pub struct PlatformConfig {
    pub address: Account,
    pub fee_bps: u32,
}

/// A dated milestone of the campaign's roadmap.
#[derive(Clone, Debug)]
pub struct RoadmapItem {
    pub date: u64,
    pub description: String,
}

/// A named reward level, reached by contributions of at least `min_amount`.
#[derive(Clone, Debug)]
pub struct RewardTier {
    pub name: String,
    pub min_amount: i128,
}

/// Summary statistics of a campaign.
#[derive(Clone, Copy, Debug, PartialEq, Eq, Structural)]
pub struct CampaignStats {
    pub total_raised: i128,
    pub goal: i128,
    pub progress_bps: u32,
    pub contributor_count: u32,
    pub average_contribution: i128,
    pub largest_contribution: i128,
}

/// The campaign's main parameters and its current total.
#[derive(Clone, Copy, Debug, PartialEq, Eq, Structural)]
pub struct CampaignInfo {
    pub creator: Account,
    pub token: Account,
    pub goal: i128,
    pub deadline: u64,
    pub total_raised: i128,
}

/// A token transfer of `amount` to or from `account`.
#[derive(Clone, Copy, Debug, PartialEq, Eq, Structural)]
pub struct Transfer {
    pub account: Account,
    pub amount: i128,
}

/// What a successful `withdraw` pays out and mints.
#[derive(Clone, Debug)]
pub struct WithdrawPlan {
    /// The creator, who receives `creator_payout`.
    pub creator: Account,
    /// The total that was raised and is paid out.
    pub total: i128,
    /// The platform's fee, paid before the creator, when a platform is configured.
    pub fee: Option<Transfer>,
    /// What the creator receives: the total less the fee.
    pub creator_payout: i128,
    /// The contract that mints the commemorative tokens, if one is set.
    pub nft_contract: Option<Account>,
    /// The contributors, in order, that receive a commemorative token.
    pub nft_recipients: Vec<Account>,
}

/// What a successful `collect_pledges` transfers in.
#[derive(Clone, Debug)]
pub struct PledgeCollection {
    /// One transfer from each pledger with a positive pledge, in pledge order.
    pub transfers: Vec<Transfer>,
    /// The total pledged that is added to the amount raised.
    pub total_collected: i128,
}

} // verus!

verus! {

/// Everything a campaign records, as plain values: the form in which a
/// campaign is stored between calls and restored.
#[derive(Clone, Debug)]
pub struct CampaignRecord {
    pub initialized: bool,
    pub admin: Account,
    pub creator: Account,
    pub token: Account,
    pub goal: i128,
    pub hard_cap: i128,
    pub deadline: u64,
    pub min_contribution: i128,
    pub title: String,
    pub description: String,
    pub socials: String,
    pub total_raised: i128,
    pub status: Status,
    pub paused: bool,
    pub platform_config: Option<PlatformConfig>,
    pub bonus_goal: Option<i128>,
    pub bonus_goal_description: Option<String>,
    pub bonus_goal_reached_emitted: bool,
    pub nft_contract: Option<Account>,
    pub contributors: Vec<Account>,
    pub contributions: Vec<(Account, i128)>,
    pub pledgers: Vec<Account>,
    pub pledges: Vec<(Account, i128)>,
    pub total_pledged: i128,
    pub referral_tallies: Vec<(Account, i128)>,
    pub last_contribution_time: Vec<(Account, u64)>,
    pub roadmap: Vec<RoadmapItem>,
    pub updates: Vec<(u64, String)>,
    pub stretch_goals: Vec<i128>,
    pub reward_tiers: Vec<RewardTier>,
    pub whitelist_enabled: bool,
    pub whitelist: Vec<Account>,
}

} // verus!

verus! {

impl DeepView for RoadmapItem {
    type V = (u64, Seq<char>);

    open spec fn deep_view(&self) -> (u64, Seq<char>) {
        (self.date, self.description@)
    }
}

impl DeepView for RewardTier {
    type V = (Seq<char>, i128);

    open spec fn deep_view(&self) -> (Seq<char>, i128) {
        (self.name@, self.min_amount)
    }
}

} // verus!
