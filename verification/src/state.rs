//! The abstract state of a campaign and the transitions that its operations make.
use vstd::prelude::*;
use crate::sums::{accounted, amount_of, sum_of, max_of};
use crate::types::{
    Abort, Account, CampaignStats, ContractError, PlatformConfig, Status, Transfer, WithdrawPlan,
    BPS_SCALE, CONTRIBUTION_COOLDOWN, FULL_PROGRESS_BPS, MAX_FEE_BPS,
};

verus! {

/// Whether `x` fits in an `i128`.
pub open spec fn fits_i128(x: int) -> bool {
    i128::MIN <= x <= i128::MAX
}

/// Division that rounds towards zero, as Rust's integer division does.
pub open spec fn div_toward_zero(x: int, d: int) -> int
    recommends
        d > 0,
{
    if x >= 0 { x / d } else { -((-x) / d) }
}

/// The hard cap that a campaign gets: the one given, or twice the goal.
pub open spec fn hard_cap_or_default(goal: i128, hard_cap: Option<i128>) -> int {
    match hard_cap {
        Some(h) => h as int,
        None => goal * 2,
    }
}

/// The platform fee on `total` at `fee_bps` basis points.
pub open spec fn fee_on(total: int, fee_bps: u32) -> int {
    div_toward_zero(total * fee_bps, BPS_SCALE as int)
}

/// The accounts of `s`, in order, whose amount in `m` is positive.
pub open spec fn positive_accounts(s: Seq<Account>, m: Map<Account, i128>) -> Seq<Account>
    decreases s.len(),
{
    if s.len() == 0 {
        Seq::empty()
    } else {
        let rest = positive_accounts(s.drop_last(), m);
        if amount_of(m, s.last()) > 0 { rest.push(s.last()) } else { rest }
    }
}

/// One transfer for each account of `s`, in order, whose amount in `m` is positive.
pub open spec fn positive_transfers(s: Seq<Account>, m: Map<Account, i128>) -> Seq<Transfer>
    decreases s.len(),
{
    if s.len() == 0 {
        Seq::empty()
    } else {
        let rest = positive_transfers(s.drop_last(), m);
        if amount_of(m, s.last()) > 0 {
            rest.push(Transfer { account: s.last(), amount: m[s.last()] })
        } else {
            rest
        }
    }
}

/// Whether a status change is one the campaign's lifecycle allows: a campaign
/// leaves `Active` at most once, and never comes back.
pub open spec fn status_step_allowed(before: Status, after: Status) -> bool {
    before == after || (before == Status::Active && after != Status::Active)
}

/// Everything the campaign records, as mathematical values.
#[verifier::ext_equal]
pub struct CampaignState {
    pub initialized: bool,
    pub admin: Account,
    pub creator: Account,
    pub token: Account,
    pub goal: i128,
    pub hard_cap: i128,
    pub deadline: u64,
    pub min_contribution: i128,
    pub title: Seq<char>,
    pub description: Seq<char>,
    pub socials: Seq<char>,
    pub total_raised: i128,
    pub status: Status,
    pub paused: bool,
    pub platform_config: Option<PlatformConfig>,
    pub bonus_goal: Option<i128>,
    pub bonus_goal_description: Option<Seq<char>>,
    pub bonus_goal_reached_emitted: bool,
    pub nft_contract: Option<Account>,
    /// Contributors, in order of their first contribution.
    pub contributors: Seq<Account>,
    pub contributions: Map<Account, i128>,
    /// Pledgers, in order of their first pledge.
    pub pledgers: Seq<Account>,
    pub pledges: Map<Account, i128>,
    pub total_pledged: i128,
    pub referral_tallies: Map<Account, i128>,
    pub last_contribution_time: Map<Account, u64>,
    pub roadmap: Seq<(u64, Seq<char>)>,
    pub updates: Seq<(u64, Seq<char>)>,
    pub stretch_goals: Seq<i128>,
    pub reward_tiers: Seq<(Seq<char>, i128)>,
    pub whitelist_enabled: bool,
    pub whitelist: Set<Account>,
}

impl CampaignState {
    /// The amount an account has contributed (0 for one that has not).
    pub open spec fn contribution_of(self, a: Account) -> int {
        amount_of(self.contributions, a)
    }

    /// The amount an account has pledged and not yet paid.
    pub open spec fn pledge_of(self, a: Account) -> int {
        amount_of(self.pledges, a)
    }

    /// The contributions that an account has referred.
    pub open spec fn tally_of(self, a: Account) -> int {
        amount_of(self.referral_tallies, a)
    }

    /// The sum of all contributions on record.
    pub open spec fn contributions_total(self) -> int {
        sum_of(self.contributors, self.contributions)
    }

    /// The sum of all pledges on record.
    pub open spec fn pledges_total(self) -> int {
        sum_of(self.pledgers, self.pledges)
    }

    /// The total pledged is the sum of the pledges on record.
    pub open spec fn pledges_balanced(self) -> bool {
        self.total_pledged as int == self.pledges_total()
    }

    /// The amount raised is the sum of the contributions on record.
    pub open spec fn is_balanced(self) -> bool {
        self.total_raised as int == self.contributions_total()
    }

    /// The records that every operation keeps: the contributor and pledger
    /// lists name no account twice, before the campaign starts no one has
    /// contributed, and no contribution is negative.
    pub open spec fn records_consistent(self) -> bool {
        &&& !self.initialized ==> self.contributors.len() == 0 && self.contributions.dom() =~= Set::empty()
        &&& self.contributors.no_duplicates()
        &&& self.pledgers.no_duplicates()
        &&& forall|a: Account| #[trigger] amount_of(self.contributions, a) >= 0
    }

    /// Every account with a non-zero pledge is on the pledger list.
    pub open spec fn pledges_accounted(self) -> bool {
        accounted(self.pledgers, self.pledges)
    }

    /// Every account with a non-zero contribution is on the contributor list.
    pub open spec fn contributions_accounted(self) -> bool {
        accounted(self.contributors, self.contributions)
    }

    // ── initialize ─────────────────────────────────────────────────────────

    /// Why `initialize` would abort, if it would.
    pub open spec fn initialize_abort(
        self,
        goal: i128,
        platform_config: Option<PlatformConfig>,
        bonus_goal: Option<i128>,
        hard_cap: Option<i128>,
    ) -> Option<Abort> {
        if self.initialized {
            None
        } else if platform_config matches Some(c) && c.fee_bps > MAX_FEE_BPS {
            Some(Abort::FeeTooHigh)
        } else if hard_cap is None && !fits_i128(goal * 2) {
            Some(Abort::ArithmeticOverflow)
        } else if hard_cap_or_default(goal, hard_cap) < goal {
            None
        } else if bonus_goal matches Some(b) && b <= goal {
            Some(Abort::BonusGoalTooLow)
        } else {
            None
        }
    }

    pub open spec fn initialize_aborts(
        self,
        goal: i128,
        platform_config: Option<PlatformConfig>,
        bonus_goal: Option<i128>,
        hard_cap: Option<i128>,
    ) -> bool {
        self.initialize_abort(goal, platform_config, bonus_goal, hard_cap) is Some
    }

    pub open spec fn initialize_result(self, goal: i128, hard_cap: Option<i128>) -> Result<(), ContractError> {
        if self.initialized {
            Err(ContractError::AlreadyInitialized)
        } else if hard_cap_or_default(goal, hard_cap) < goal {
            Err(ContractError::InvalidHardCap)
        } else {
            Ok(())
        }
    }

    pub open spec fn after_initialize(
        self,
        admin: Account,
        creator: Account,
        token: Account,
        goal: i128,
        deadline: u64,
        min_contribution: i128,
        title: Seq<char>,
        description: Seq<char>,
        platform_config: Option<PlatformConfig>,
        bonus_goal: Option<i128>,
        bonus_goal_description: Option<Seq<char>>,
        hard_cap: Option<i128>,
    ) -> CampaignState {
        CampaignState {
            initialized: true,
            admin,
            creator,
            token,
            goal,
            hard_cap: hard_cap_or_default(goal, hard_cap) as i128,
            deadline,
            min_contribution,
            title,
            description,
            total_raised: 0,
            status: Status::Active,
            platform_config: if platform_config is Some { platform_config } else { self.platform_config },
            bonus_goal: if bonus_goal is Some { bonus_goal } else { self.bonus_goal },
            bonus_goal_description: if bonus_goal_description is Some {
                bonus_goal_description
            } else {
                self.bonus_goal_description
            },
            bonus_goal_reached_emitted: false,
            contributors: Seq::empty(),
            roadmap: Seq::empty(),
            ..self
        }
    }

    // ── contribute ─────────────────────────────────────────────────────────

    /// Whether `a` contributed less than the cooldown before `now`.
    pub open spec fn rate_limited(self, a: Account, now: u64) -> bool {
        self.last_contribution_time.contains_key(a)
            && now < self.last_contribution_time[a] + CONTRIBUTION_COOLDOWN
    }

    /// Whether a contribution of `amount` would take the total past the hard cap.
    pub open spec fn exceeds_hard_cap(self, amount: i128) -> bool {
        self.total_raised + amount > self.hard_cap
    }

    /// Why `contribute` would abort, if it would.
    pub open spec fn contribute_abort(self, now: u64, a: Account, amount: i128) -> Option<Abort> {
        if !self.initialized {
            Some(Abort::NotInitialized)
        } else if self.last_contribution_time.contains_key(a)
            && self.last_contribution_time[a] + CONTRIBUTION_COOLDOWN > u64::MAX {
            Some(Abort::ArithmeticOverflow)
        } else if self.rate_limited(a, now) {
            None
        } else if self.status != Status::Active {
            Some(Abort::NotActive)
        } else if self.paused {
            None
        } else if self.whitelist_enabled && !self.whitelist.contains(a) {
            Some(Abort::NotWhitelisted)
        } else if amount < self.min_contribution {
            Some(Abort::BelowMinimum)
        } else if amount <= 0 {
            Some(Abort::NotPositive)
        } else if now > self.deadline || self.exceeds_hard_cap(amount) {
            None
        } else if !fits_i128(self.contribution_of(a) + amount) || !fits_i128(self.total_raised + amount) {
            Some(Abort::ArithmeticOverflow)
        } else {
            None
        }
    }

    pub open spec fn contribute_aborts(self, now: u64, a: Account, amount: i128) -> bool {
        self.contribute_abort(now, a, amount) is Some
    }

    pub open spec fn contribute_result(self, now: u64, a: Account, amount: i128, referral: Option<Account>) -> Result<(), ContractError> {
        if self.rate_limited(a, now) {
            Err(ContractError::RateLimitExceeded)
        } else if self.paused {
            Err(ContractError::ContractPaused)
        } else if now > self.deadline {
            Err(ContractError::CampaignEnded)
        } else if self.exceeds_hard_cap(amount) {
            Err(ContractError::HardCapExceeded)
        } else if referral matches Some(r) && r != a && !fits_i128(self.tally_of(r) + amount) {
            Err(ContractError::Overflow)
        } else {
            Ok(())
        }
    }

    pub open spec fn after_contribute(self, now: u64, a: Account, amount: i128, referral: Option<Account>) -> CampaignState {
        CampaignState {
            contributions: self.contributions.insert(a, (self.contribution_of(a) + amount) as i128),
            total_raised: (self.total_raised + amount) as i128,
            contributors: if self.contributors.contains(a) {
                self.contributors
            } else {
                self.contributors.push(a)
            },
            referral_tallies: match referral {
                Some(r) => if r != a {
                    self.referral_tallies.insert(r, (self.tally_of(r) + amount) as i128)
                } else {
                    self.referral_tallies
                },
                None => self.referral_tallies,
            },
            last_contribution_time: self.last_contribution_time.insert(a, now),
            ..self
        }
    }

    // ── pledge ─────────────────────────────────────────────────────────────

    /// Why `pledge` would abort, if it would.
    pub open spec fn pledge_abort(self, now: u64, a: Account, amount: i128) -> Option<Abort> {
        if !self.initialized {
            Some(Abort::NotInitialized)
        } else if amount < self.min_contribution {
            Some(Abort::BelowMinimum)
        } else if now > self.deadline {
            None
        } else if !fits_i128(self.pledge_of(a) + amount) || !fits_i128(self.total_pledged + amount) {
            Some(Abort::ArithmeticOverflow)
        } else {
            None
        }
    }

    pub open spec fn pledge_aborts(self, now: u64, a: Account, amount: i128) -> bool {
        self.pledge_abort(now, a, amount) is Some
    }

    pub open spec fn pledge_result(self, now: u64) -> Result<(), ContractError> {
        if now > self.deadline { Err(ContractError::CampaignEnded) } else { Ok(()) }
    }

    pub open spec fn after_pledge(self, a: Account, amount: i128) -> CampaignState {
        CampaignState {
            pledges: self.pledges.insert(a, (self.pledge_of(a) + amount) as i128),
            total_pledged: (self.total_pledged + amount) as i128,
            pledgers: if self.pledgers.contains(a) { self.pledgers } else { self.pledgers.push(a) },
            ..self
        }
    }

    // ── collect_pledges ────────────────────────────────────────────────────

    /// Why `collect_pledges` would abort, if it would.
    pub open spec fn collect_pledges_abort(self, now: u64) -> Option<Abort> {
        if !self.initialized {
            Some(Abort::NotInitialized)
        } else if self.status != Status::Active {
            Some(Abort::NotActive)
        } else if now <= self.deadline {
            None
        } else if !fits_i128(self.total_raised + self.total_pledged) {
            Some(Abort::ArithmeticOverflow)
        } else {
            None
        }
    }

    pub open spec fn collect_pledges_aborts(self, now: u64) -> bool {
        self.collect_pledges_abort(now) is Some
    }

    pub open spec fn collect_pledges_result(self, now: u64) -> Result<(), ContractError> {
        if now <= self.deadline {
            Err(ContractError::CampaignStillActive)
        } else if self.total_raised + self.total_pledged < self.goal {
            Err(ContractError::GoalNotReached)
        } else {
            Ok(())
        }
    }

    /// The pledges after the positive pledge of every listed pledger has been collected.
    pub open spec fn collected_pledges(self) -> Map<Account, i128> {
        Map::new(
            |a: Account| self.pledges.contains_key(a),
            |a: Account| if self.pledgers.contains(a) && self.pledges[a] > 0 { 0i128 } else { self.pledges[a] },
        )
    }

    pub open spec fn after_collect_pledges(self) -> CampaignState {
        CampaignState {
            pledges: self.collected_pledges(),
            total_raised: (self.total_raised + self.total_pledged) as i128,
            total_pledged: 0,
            ..self
        }
    }

    // ── withdraw_contribution ──────────────────────────────────────────────

    /// Why `withdraw_contribution` would abort, if it would.
    pub open spec fn withdraw_contribution_abort(self, now: u64, a: Account, amount: i128) -> Option<Abort> {
        if !self.initialized {
            Some(Abort::NotInitialized)
        } else if self.status != Status::Active {
            Some(Abort::NotActive)
        } else if self.paused {
            Some(Abort::Paused)
        } else if now > self.deadline {
            Some(Abort::CampaignEnded)
        } else if amount > self.contribution_of(a) {
            Some(Abort::InsufficientBalance)
        } else if amount < 0 {
            Some(Abort::NegativeAmount)
        } else if !fits_i128(self.contribution_of(a) - amount) || !fits_i128(self.total_raised - amount) {
            Some(Abort::ArithmeticOverflow)
        } else {
            None
        }
    }

    pub open spec fn withdraw_contribution_aborts(self, now: u64, a: Account, amount: i128) -> bool {
        self.withdraw_contribution_abort(now, a, amount) is Some
    }

    pub open spec fn after_withdraw_contribution(self, a: Account, amount: i128) -> CampaignState {
        let rest = self.contribution_of(a) - amount;
        CampaignState {
            contributions: if rest == 0 {
                self.contributions.remove(a)
            } else {
                self.contributions.insert(a, rest as i128)
            },
            contributors: if rest == 0 { self.contributors.remove_value(a) } else { self.contributors },
            total_raised: (self.total_raised - amount) as i128,
            ..self
        }
    }

    // ── withdraw ───────────────────────────────────────────────────────────

    /// Why the fee arithmetic of the payout would abort, if it would.
    pub open spec fn fee_abort(self) -> Option<Abort> {
        match self.platform_config {
            Some(c) => if !fits_i128(self.total_raised * c.fee_bps) {
                Some(Abort::FeeOverflow)
            } else if !fits_i128(self.total_raised - fee_on(self.total_raised as int, c.fee_bps)) {
                Some(Abort::PayoutUnderflow)
            } else {
                None
            },
            None => None,
        }
    }

    /// Why `withdraw` would abort, if it would.
    pub open spec fn withdraw_abort(self, now: u64) -> Option<Abort> {
        if !self.initialized {
            Some(Abort::NotInitialized)
        } else if self.status != Status::Active {
            Some(Abort::NotActive)
        } else if self.paused || now <= self.deadline || self.total_raised < self.goal {
            None
        } else {
            self.fee_abort()
        }
    }

    pub open spec fn withdraw_aborts(self, now: u64) -> bool {
        self.withdraw_abort(now) is Some
    }

    pub open spec fn withdraw_check(self, now: u64) -> Result<(), ContractError> {
        if self.paused {
            Err(ContractError::ContractPaused)
        } else if now <= self.deadline {
            Err(ContractError::CampaignStillActive)
        } else if self.total_raised < self.goal {
            Err(ContractError::GoalNotReached)
        } else {
            Ok(())
        }
    }

    /// The platform's fee on the amount raised, if a platform is configured.
    pub open spec fn platform_fee(self) -> Option<Transfer> {
        match self.platform_config {
            Some(c) => Some(Transfer {
                account: c.address,
                amount: fee_on(self.total_raised as int, c.fee_bps) as i128,
            }),
            None => None,
        }
    }

    /// What the creator receives of the amount raised.
    pub open spec fn creator_payout(self) -> int {
        match self.platform_fee() {
            Some(f) => self.total_raised - f.amount,
            None => self.total_raised as int,
        }
    }

    /// Whether `plan` is the payout of this state.
    pub open spec fn is_withdraw_plan(self, plan: WithdrawPlan) -> bool {
        &&& plan.creator == self.creator
        &&& plan.total == self.total_raised
        &&& plan.fee == self.platform_fee()
        &&& plan.creator_payout == self.creator_payout()
        &&& plan.nft_contract == self.nft_contract
        &&& plan.nft_recipients@ == (if self.nft_contract is Some {
            positive_accounts(self.contributors, self.contributions)
        } else {
            Seq::empty()
        })
    }

    pub open spec fn after_withdraw(self) -> CampaignState {
        CampaignState { total_raised: 0, status: Status::Successful, ..self }
    }

    // ── refund_single ──────────────────────────────────────────────────────

    /// Why `refund_single` would abort, if it would.
    pub open spec fn refund_abort(self, now: u64, a: Account) -> Option<Abort> {
        if !self.initialized {
            Some(Abort::NotInitialized)
        } else if self.status != Status::Active {
            Some(Abort::NotActive)
        } else if self.paused || now <= self.deadline || self.total_raised >= self.goal {
            None
        } else if !fits_i128(self.total_raised - self.contribution_of(a)) {
            Some(Abort::ArithmeticOverflow)
        } else {
            None
        }
    }

    pub open spec fn refund_aborts(self, now: u64, a: Account) -> bool {
        self.refund_abort(now, a) is Some
    }

    pub open spec fn refund_result(self, now: u64, a: Account) -> Result<i128, ContractError> {
        if self.paused {
            Err(ContractError::ContractPaused)
        } else if now <= self.deadline {
            Err(ContractError::CampaignStillActive)
        } else if self.total_raised >= self.goal {
            Err(ContractError::GoalReached)
        } else {
            Ok(self.contribution_of(a) as i128)
        }
    }

    pub open spec fn after_refund(self, a: Account) -> CampaignState {
        let amount = self.contribution_of(a);
        if amount == 0 {
            self
        } else {
            CampaignState {
                contributions: self.contributions.insert(a, 0),
                total_raised: (self.total_raised - amount) as i128,
                ..self
            }
        }
    }

    // ── the campaign's record ──────────────────────────────────────────────

    /// Why `set_nft_contract` would abort, if it would.
    pub open spec fn set_nft_contract_abort(self, creator: Account) -> Option<Abort> {
        if !self.initialized {
            Some(Abort::NotInitialized)
        } else if creator != self.creator {
            Some(Abort::NotAuthorized)
        } else {
            None
        }
    }

    /// Why a creator-only operation without further checks (`add_to_whitelist`,
    /// `set_paused`) would abort, if it would.
    pub open spec fn creator_action_abort(self) -> Option<Abort> {
        if !self.initialized { Some(Abort::NotInitialized) } else { None }
    }

    /// Why `update_metadata` would abort, if it would.
    pub open spec fn update_metadata_abort(self, creator: Account) -> Option<Abort> {
        if !self.initialized {
            Some(Abort::NotInitialized)
        } else if self.status != Status::Active {
            Some(Abort::NotActive)
        } else if creator != self.creator {
            Some(Abort::NotAuthorized)
        } else {
            None
        }
    }

    /// Why `add_roadmap_item` would abort, if it would.
    pub open spec fn add_roadmap_item_abort(self, now: u64, date: u64, description: Seq<char>) -> Option<Abort> {
        if !self.initialized {
            Some(Abort::NotInitialized)
        } else if date <= now {
            Some(Abort::DateNotInFuture)
        } else if description.len() == 0 {
            Some(Abort::EmptyDescription)
        } else {
            None
        }
    }

    /// Why `post_update` would abort, if it would.
    pub open spec fn post_update_abort(self, text: Seq<char>) -> Option<Abort> {
        if !self.initialized {
            Some(Abort::NotInitialized)
        } else if text.len() == 0 {
            Some(Abort::EmptyUpdate)
        } else {
            None
        }
    }

    /// Why `add_stretch_goal` would abort, if it would.
    pub open spec fn add_stretch_goal_abort(self, milestone: i128) -> Option<Abort> {
        if !self.initialized {
            Some(Abort::NotInitialized)
        } else if milestone <= self.goal {
            Some(Abort::StretchGoalTooLow)
        } else {
            None
        }
    }

    /// Why `add_reward_tier` would abort, if it would.
    pub open spec fn add_reward_tier_abort(self, creator: Account, min_amount: i128) -> Option<Abort> {
        if !self.initialized {
            Some(Abort::NotInitialized)
        } else if self.status != Status::Active {
            Some(Abort::NotActive)
        } else if creator != self.creator {
            Some(Abort::NotAuthorized)
        } else if min_amount <= 0 {
            Some(Abort::TierAmountNotPositive)
        } else {
            None
        }
    }

    /// Why `get_stats` would abort, if it would.
    pub open spec fn stats_abort(self) -> Option<Abort> {
        if !self.initialized {
            Some(Abort::NotInitialized)
        } else if self.goal > 0 && !fits_i128(self.total_raised * BPS_SCALE) {
            Some(Abort::ArithmeticOverflow)
        } else {
            None
        }
    }

    // ── statistics ─────────────────────────────────────────────────────────

    /// Progress towards the goal, in basis points, capped at 100%.
    pub open spec fn progress_bps(self) -> u32 {
        if self.goal > 0 {
            let raw = div_toward_zero(self.total_raised * BPS_SCALE, self.goal as int);
            if raw > BPS_SCALE { FULL_PROGRESS_BPS } else { raw as u32 }
        } else {
            0
        }
    }

    /// The statistics that `get_stats` reports.
    pub open spec fn stats(self) -> CampaignStats {
        let count = self.contributors.len() as u32;
        CampaignStats {
            total_raised: self.total_raised,
            goal: self.goal,
            progress_bps: self.progress_bps(),
            contributor_count: count,
            average_contribution: if count == 0 {
                0
            } else {
                div_toward_zero(self.total_raised as int, count as int) as i128
            },
            largest_contribution: if count == 0 {
                0
            } else {
                max_of(self.contributors, self.contributions) as i128
            },
        }
    }

    /// The next stretch goal not yet reached, the smallest one above the
    /// total raised, or 0 when every stretch goal has been reached.
    pub open spec fn next_milestone(self) -> i128 {
        match least_above(self.stretch_goals, self.total_raised) {
            Some(m) => m,
            None => 0,
        }
    }
}

/// Whether tier `t` is within reach of a contribution `c`.
pub open spec fn tier_qualifies(t: (Seq<char>, i128), c: int) -> bool {
    c >= t.1
}

/// The position of the best tier of `tiers` that a contribution `c` reaches:
/// the first of those with the highest minimum amount.
pub open spec fn best_tier(tiers: Seq<(Seq<char>, i128)>, c: int) -> Option<int>
    decreases tiers.len(),
{
    if tiers.len() == 0 {
        None
    } else {
        let best = best_tier(tiers.drop_last(), c);
        let last = tiers.len() - 1;
        if tier_qualifies(tiers[last], c) && (best matches Some(b) ==> tiers[last].1 > tiers[b].1) {
            Some(last)
        } else {
            best
        }
    }
}

/// Updates listed in order of their times.
pub open spec fn chronological(updates: Seq<(u64, Seq<char>)>) -> bool {
    forall|i: int, j: int| 0 <= i < j < updates.len() ==> updates[i].0 <= updates[j].0
}

/// No update is stamped later than `now`.
pub open spec fn stamped_by(updates: Seq<(u64, Seq<char>)>, now: u64) -> bool {
    forall|i: int| 0 <= i < updates.len() ==> #[trigger] updates[i].0 <= now
}

/// The smallest element of `s` greater than `x`, if there is one.
pub open spec fn least_above(s: Seq<i128>, x: i128) -> Option<i128>
    decreases s.len(),
{
    if s.len() == 0 {
        None
    } else {
        let rest = least_above(s.drop_last(), x);
        let v = s.last();
        if x < v && (rest matches Some(m) ==> v < m) { Some(v) } else { rest }
    }
}

} // verus!
