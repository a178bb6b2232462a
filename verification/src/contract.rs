//! The campaign contract: its records and the operations on them.
use vstd::prelude::*;
use crate::ledger::{Ledger, entries_map, keys_unique, lemma_entries_map};
use crate::state::{
    CampaignState, best_tier, chronological, fee_on, fits_i128, least_above, positive_accounts, positive_transfers,
    stamped_by, status_step_allowed,
};
use crate::sums::{amount_of, lemma_record_and_list, lemma_remove_and_unlist, max_of, sum_of};
use crate::types::{
    Abort, Account, CampaignInfo, CampaignRecord, CampaignStats, ContractError, PlatformConfig,
    PledgeCollection, RewardTier, RoadmapItem, Status, Transfer, WithdrawPlan, BPS_SCALE,
    CONTRACT_VERSION, CONTRIBUTION_COOLDOWN, FULL_PROGRESS_BPS, MAX_FEE_BPS,
};

verus! {

/// The amount recorded for `a` (0 when none is).
fn amount_in(m: &Ledger<i128>, a: Account) -> (r: i128)
    requires
        m.wf(),
    ensures
        r == amount_of(m@, a),
{
    match m.get(a) {
        Some(v) => v,
        None => 0,
    }
}

/// The accounts of `v`, in order, with a positive amount in `m`.
fn positive_accounts_in(v: &Vec<Account>, m: &Ledger<i128>) -> (r: Vec<Account>)
    requires
        m.wf(),
    ensures
        r@ == positive_accounts(v@, m@),
{
    let mut r: Vec<Account> = Vec::new();
    let mut i: usize = 0;
    while i < v.len()
        invariant
            i <= v.len(),
            m.wf(),
            r@ == positive_accounts(v@.take(i as int), m@),
        decreases v.len() - i,
    {
        let a = v[i];
        proof {
            assert(v@.take(i + 1).drop_last() =~= v@.take(i as int));
            assert(v@.take(i + 1).last() == a);
        }
        if amount_in(m, a) > 0 {
            r.push(a);
        }
        i = i + 1;
    }
    proof {
        assert(v@.take(v@.len() as int) =~= v@);
    }
    r
}

/// The fee on `total` at `fee_bps` basis points, rounded towards zero.
fn fee_share(total: i128, fee_bps: u32) -> (f: i128)
    requires
        fits_i128(total * fee_bps),
    ensures
        f == fee_on(total as int, fee_bps),
{
    let bps: i128 = fee_bps as i128;
    match total.checked_mul(bps) {
        Some(product) => {
            match product.checked_div(BPS_SCALE) {
                Some(q) => q,
                None => {
                    proof {
                        assert(false);
                    }
                    0
                },
            }
        },
        None => {
            proof {
                assert(false);
            }
            0
        },
    }
}

/// A copy of `v`.
fn copy_vec<T: Copy>(v: &Vec<T>) -> (r: Vec<T>)
    ensures
        r@ == v@,
{
    let mut r: Vec<T> = Vec::new();
    let mut i: usize = 0;
    while i < v.len()
        invariant
            i <= v.len(),
            r@ == v@.take(i as int),
        decreases v.len() - i,
    {
        r.push(v[i]);
        proof {
            assert(r@ =~= v@.take(i + 1));
        }
        i = i + 1;
    }
    proof {
        assert(v@.take(v@.len() as int) =~= v@);
    }
    r
}

/// Whether no account occurs twice in `v`.
fn no_duplicates(v: &Vec<Account>) -> (r: bool)
    ensures
        r == v@.no_duplicates(),
{
    let mut i: usize = 0;
    while i < v.len()
        invariant
            i <= v.len(),
            forall|x: int, y: int| 0 <= x < i && 0 <= y < v@.len() && x != y ==> v@[x] != v@[y],
        decreases v.len() - i,
    {
        let mut j: usize = 0;
        while j < v.len()
            invariant
                i < v.len(),
                j <= v.len(),
                forall|x: int, y: int| 0 <= x < i && 0 <= y < v@.len() && x != y ==> v@[x] != v@[y],
                forall|y: int| 0 <= y < j && y != i ==> v@[i as int] != v@[y],
            decreases v.len() - j,
        {
            if j != i && v[i] == v[j] {
                return false;
            }
            j = j + 1;
        }
        i = i + 1;
    }
    true
}

/// The campaign state that a record describes.
pub open spec fn record_state(r: CampaignRecord) -> CampaignState {
    CampaignState {
        initialized: r.initialized,
        admin: r.admin,
        creator: r.creator,
        token: r.token,
        goal: r.goal,
        hard_cap: r.hard_cap,
        deadline: r.deadline,
        min_contribution: r.min_contribution,
        title: r.title@,
        description: r.description@,
        socials: r.socials@,
        total_raised: r.total_raised,
        status: r.status,
        paused: r.paused,
        platform_config: r.platform_config,
        bonus_goal: r.bonus_goal,
        bonus_goal_description: r.bonus_goal_description.deep_view(),
        bonus_goal_reached_emitted: r.bonus_goal_reached_emitted,
        nft_contract: r.nft_contract,
        contributors: r.contributors@,
        contributions: entries_map(r.contributions@),
        pledgers: r.pledgers@,
        pledges: entries_map(r.pledges@),
        total_pledged: r.total_pledged,
        referral_tallies: entries_map(r.referral_tallies@),
        last_contribution_time: entries_map(r.last_contribution_time@),
        roadmap: r.roadmap.deep_view(),
        updates: r.updates.deep_view(),
        stretch_goals: r.stretch_goals@,
        reward_tiers: r.reward_tiers.deep_view(),
        whitelist_enabled: r.whitelist_enabled,
        whitelist: r.whitelist@.to_set(),
    }
}

/// Whether a record describes a campaign that its operations could have
/// produced: no account twice in a list or a ledger, and no contributor
/// before the campaign starts.
pub open spec fn record_valid(r: CampaignRecord) -> bool {
    &&& keys_unique(r.contributions@)
    &&& keys_unique(r.pledges@)
    &&& keys_unique(r.referral_tallies@)
    &&& keys_unique(r.last_contribution_time@)
    &&& record_state(r).records_consistent()
}

/// Whether no entry of `v` has a negative amount.
fn amounts_non_negative(v: &Vec<(Account, i128)>) -> (r: bool)
    ensures
        r <==> forall|i: int| 0 <= i < v.len() ==> #[trigger] v@[i].1 >= 0,
{
    let mut i: usize = 0;
    while i < v.len()
        invariant
            i <= v.len(),
            forall|j: int| 0 <= j < i ==> #[trigger] v@[j].1 >= 0,
        decreases v.len() - i,
    {
        if v[i].1 < 0 {
            return false;
        }
        i = i + 1;
    }
    true
}

/// The first position of `a` in `v`, if any.
fn position_of(v: &Vec<Account>, a: Account) -> (r: Option<usize>)
    ensures
        match r {
            Some(i) => i < v.len() && v@[i as int] == a && forall|j: int| 0 <= j < i ==> v@[j] != a,
            None => !v@.contains(a),
        },
{
    let mut i: usize = 0;
    while i < v.len()
        invariant
            i <= v.len(),
            forall|j: int| 0 <= j < i ==> v@[j] != a,
        decreases v.len() - i,
    {
        if v[i] == a {
            return Some(i);
        }
        i = i + 1;
    }
    None
}

/// The records of one crowdfunding campaign.
pub struct CrowdfundContract {
    initialized: bool,
    admin: Account,
    creator: Account,
    token: Account,
    goal: i128,
    hard_cap: i128,
    deadline: u64,
    min_contribution: i128,
    title: String,
    description: String,
    socials: String,
    total_raised: i128,
    status: Status,
    paused: bool,
    platform_config: Option<PlatformConfig>,
    bonus_goal: Option<i128>,
    bonus_goal_description: Option<String>,
    bonus_goal_reached_emitted: bool,
    nft_contract: Option<Account>,
    contributors: Vec<Account>,
    contributions: Ledger<i128>,
    pledgers: Vec<Account>,
    pledges: Ledger<i128>,
    total_pledged: i128,
    referral_tallies: Ledger<i128>,
    last_contribution_time: Ledger<u64>,
    roadmap: Vec<RoadmapItem>,
    updates: Vec<(u64, String)>,
    stretch_goals: Vec<i128>,
    reward_tiers: Vec<RewardTier>,
    whitelist_enabled: bool,
    whitelist: Vec<Account>,
}

impl View for CrowdfundContract {
    type V = CampaignState;

    closed spec fn view(&self) -> CampaignState {
        CampaignState {
            initialized: self.initialized,
            admin: self.admin,
            creator: self.creator,
            token: self.token,
            goal: self.goal,
            hard_cap: self.hard_cap,
            deadline: self.deadline,
            min_contribution: self.min_contribution,
            title: self.title@,
            description: self.description@,
            socials: self.socials@,
            total_raised: self.total_raised,
            status: self.status,
            paused: self.paused,
            platform_config: self.platform_config,
            bonus_goal: self.bonus_goal,
            bonus_goal_description: self.bonus_goal_description.deep_view(),
            bonus_goal_reached_emitted: self.bonus_goal_reached_emitted,
            nft_contract: self.nft_contract,
            contributors: self.contributors@,
            contributions: self.contributions@,
            pledgers: self.pledgers@,
            pledges: self.pledges@,
            total_pledged: self.total_pledged,
            referral_tallies: self.referral_tallies@,
            last_contribution_time: self.last_contribution_time@,
            roadmap: self.roadmap.deep_view(),
            updates: self.updates.deep_view(),
            stretch_goals: self.stretch_goals@,
            reward_tiers: self.reward_tiers.deep_view(),
            whitelist_enabled: self.whitelist_enabled,
            whitelist: self.whitelist@.to_set(),
        }
    }
}

impl CrowdfundContract {
    /// The records are consistent (see `CampaignState::records_consistent`)
    /// and each ledger names every account at most once.
    pub closed spec fn wf(&self) -> bool {
        &&& self@.records_consistent()
        &&& self.contributions.wf()
        &&& self.pledges.wf()
        &&& self.referral_tallies.wf()
        &&& self.last_contribution_time.wf()
    }

    /// Consistent records describe a consistent state.
    pub proof fn lemma_wf(&self)
        requires
            self.wf(),
        ensures
            self@.records_consistent(),
    {
    }

    /// A contract with no campaign yet: every record empty.
    pub fn new() -> (c: Self)
        ensures
            c.wf(),
            !c@.initialized,
            c@.total_raised == 0,
            c@.title.len() == 0,
            c@.description.len() == 0,
            c@.socials.len() == 0,
            c@.platform_config is None,
            c@.bonus_goal is None,
            c@.bonus_goal_description is None,
            c@.nft_contract is None,
            c@.paused == false,
            c@.contributors.len() == 0,
            c@.contributions == Map::<Account, i128>::empty(),
            c@.pledgers.len() == 0,
            c@.pledges == Map::<Account, i128>::empty(),
            c@.total_pledged == 0,
            c@.referral_tallies == Map::<Account, i128>::empty(),
            c@.last_contribution_time == Map::<Account, u64>::empty(),
            c@.roadmap.len() == 0,
            c@.updates.len() == 0,
            c@.stretch_goals.len() == 0,
            c@.reward_tiers.len() == 0,
            c@.whitelist_enabled == false,
            c@.whitelist == Set::<Account>::empty(),
    {
        let c = CrowdfundContract {
            initialized: false,
            admin: 0,
            creator: 0,
            token: 0,
            goal: 0,
            hard_cap: 0,
            deadline: 0,
            min_contribution: 0,
            title: String::new(),
            description: String::new(),
            socials: String::new(),
            total_raised: 0,
            status: Status::Active,
            paused: false,
            platform_config: None,
            bonus_goal: None,
            bonus_goal_description: None,
            bonus_goal_reached_emitted: false,
            nft_contract: None,
            contributors: Vec::new(),
            contributions: Ledger::new(),
            pledgers: Vec::new(),
            pledges: Ledger::new(),
            total_pledged: 0,
            referral_tallies: Ledger::new(),
            last_contribution_time: Ledger::new(),
            roadmap: Vec::new(),
            updates: Vec::new(),
            stretch_goals: Vec::new(),
            reward_tiers: Vec::new(),
            whitelist_enabled: false,
            whitelist: Vec::new(),
        };
        proof {
            assert(c@.roadmap =~= Seq::empty());
            assert(c@.updates =~= Seq::empty());
            assert(c@.reward_tiers =~= Seq::empty());
            assert(c@.whitelist =~= Set::empty());
        }
        c
    }

    /// Starts the campaign with its goal, deadline, minimum contribution,
    /// title and description.
    ///
    /// Fails with `AlreadyInitialized` on a second call, and with
    /// `InvalidHardCap` when the hard cap (by default twice the goal) is below
    /// the goal. Aborts when the platform fee exceeds 100% or the bonus goal
    /// does not exceed the goal.
    pub fn initialize(
        &mut self,
        admin: Account,
        creator: Account,
        token: Account,
        goal: i128,
        deadline: u64,
        min_contribution: i128,
        title: String,
        description: String,
        platform_config: Option<PlatformConfig>,
        bonus_goal: Option<i128>,
        bonus_goal_description: Option<String>,
        hard_cap: Option<i128>,
    ) -> (r: Result<(), ContractError>)
        requires
            old(self).wf(),
            !old(self)@.initialize_aborts(goal, platform_config, bonus_goal, hard_cap),
        ensures
            final(self).wf(),
            r == old(self)@.initialize_result(goal, hard_cap),
            r is Ok ==> final(self)@ == old(self)@.after_initialize(
                admin,
                creator,
                token,
                goal,
                deadline,
                min_contribution,
                title@,
                description@,
                platform_config,
                bonus_goal,
                bonus_goal_description.deep_view(),
                hard_cap,
            ),
            r is Ok ==> final(self)@.contributions_accounted() && final(self)@.is_balanced(),
            r is Err ==> final(self)@ == old(self)@,
    {
        if self.initialized {
            return Err(ContractError::AlreadyInitialized);
        }
        let hard_cap_value: i128 = match hard_cap {
            Some(h) => h,
            None => goal * 2,
        };
        if hard_cap_value < goal {
            return Err(ContractError::InvalidHardCap);
        }
        if platform_config.is_some() {
            self.platform_config = platform_config;
        }
        if bonus_goal.is_some() {
            self.bonus_goal = bonus_goal;
        }
        if bonus_goal_description.is_some() {
            self.bonus_goal_description = bonus_goal_description;
        }
        self.initialized = true;
        self.admin = admin;
        self.creator = creator;
        self.token = token;
        self.goal = goal;
        self.hard_cap = hard_cap_value;
        self.deadline = deadline;
        self.min_contribution = min_contribution;
        self.title = title;
        self.description = description;
        self.total_raised = 0;
        self.bonus_goal_reached_emitted = false;
        self.status = Status::Active;
        self.contributors = Vec::new();
        self.roadmap = Vec::new();
        proof {
            assert(self@.roadmap =~= Seq::empty());
            assert(self@.contributors =~= Seq::empty());
            assert forall|a: Account| !self@.contributions.contains_key(a) by {
                assert(!old(self)@.contributions.dom().contains(a));
            }
            assert(sum_of(self@.contributors, self@.contributions) == 0);
        }
        Ok(())
    }

    /// Contributes `amount` of `contributor` at time `now`, with an optional referrer.
    ///
    /// Fails, leaving every record as it was, with `RateLimitExceeded` within
    /// the cooldown after the contributor's last contribution,
    /// `ContractPaused` while paused, `CampaignEnded` after the deadline,
    /// `HardCapExceeded` when the total would pass the hard cap, and
    /// `Overflow` when the referrer's tally would overflow. Aborts when the
    /// campaign is not active or the amount is below the minimum.
    pub fn contribute(
        &mut self,
        now: u64,
        contributor: Account,
        amount: i128,
        referral: Option<Account>,
    ) -> (r: Result<(), ContractError>)
        requires
            old(self).wf(),
            !old(self)@.contribute_aborts(now, contributor, amount),
        ensures
            final(self).wf(),
            r == old(self)@.contribute_result(now, contributor, amount, referral),
            r is Ok ==> final(self)@ == old(self)@.after_contribute(now, contributor, amount, referral),
            r is Ok ==> final(self)@.total_raised <= final(self)@.hard_cap,
            r is Err ==> final(self)@ == old(self)@,
            old(self)@.contributions_accounted() ==> final(self)@.contributions_accounted(),
            old(self)@.contributions_accounted() && r is Ok ==> final(self)@.contributions_total()
                == old(self)@.contributions_total() + amount,
            old(self)@.contributions_accounted() && old(self)@.is_balanced() ==> final(self)@.is_balanced(),
            status_step_allowed(old(self)@.status, final(self)@.status),
    {
        match self.last_contribution_time.get(contributor) {
            Some(last) => {
                if now < last + CONTRIBUTION_COOLDOWN {
                    return Err(ContractError::RateLimitExceeded);
                }
            },
            None => {},
        }
        if self.paused {
            return Err(ContractError::ContractPaused);
        }
        if now > self.deadline {
            return Err(ContractError::CampaignEnded);
        }
        let exceeds = match self.total_raised.checked_add(amount) {
            Some(sum) => sum > self.hard_cap,
            None => amount > 0,
        };
        if exceeds {
            return Err(ContractError::HardCapExceeded);
        }
        let previous = amount_in(&self.contributions, contributor);
        let new_amount = previous + amount;
        let new_total = self.total_raised + amount;
        let mut new_tally: Option<(Account, i128)> = None;
        match referral {
            Some(referrer) => {
                if referrer != contributor {
                    let current = amount_in(&self.referral_tallies, referrer);
                    match current.checked_add(amount) {
                        Some(tally) => {
                            new_tally = Some((referrer, tally));
                        },
                        None => {
                            return Err(ContractError::Overflow);
                        },
                    }
                }
            },
            None => {},
        }
        let position = position_of(&self.contributors, contributor);
        let is_new = position.is_none();
        self.contributions.insert(contributor, new_amount);
        self.total_raised = new_total;
        if is_new {
            self.contributors.push(contributor);
        }
        match new_tally {
            Some((referrer, tally)) => {
                self.referral_tallies.insert(referrer, tally);
            },
            None => {},
        }
        self.last_contribution_time.insert(contributor, now);
        proof {
            lemma_record_and_list(
                old(self)@.contributors,
                old(self)@.contributions,
                contributor,
                new_amount,
                self@.contributors,
            );
            assert(self@ =~= old(self)@.after_contribute(now, contributor, amount, referral));
            assert(amount > 0);
            assert forall|b: Account| #[trigger] amount_of(self@.contributions, b) >= 0 by {
                assert(amount_of(old(self)@.contributions, b) >= 0);
            }
        }
        Ok(())
    }

    /// Pledges `amount` of `pledger` at time `now`, to be collected later.
    ///
    /// Fails with `CampaignEnded` after the deadline. Aborts when the amount is
    /// below the minimum.
    pub fn pledge(&mut self, now: u64, pledger: Account, amount: i128) -> (r: Result<(), ContractError>)
        requires
            old(self).wf(),
            !old(self)@.pledge_aborts(now, pledger, amount),
        ensures
            final(self).wf(),
            r == old(self)@.pledge_result(now),
            r is Ok ==> final(self)@ == old(self)@.after_pledge(pledger, amount),
            r is Err ==> final(self)@ == old(self)@,
            old(self)@.pledges_accounted() ==> final(self)@.pledges_accounted(),
            old(self)@.pledges_accounted() && old(self)@.pledges_balanced() ==> final(self)@.pledges_balanced(),
            status_step_allowed(old(self)@.status, final(self)@.status),
    {
        if now > self.deadline {
            return Err(ContractError::CampaignEnded);
        }
        let previous = amount_in(&self.pledges, pledger);
        let new_amount = previous + amount;
        let new_total = self.total_pledged + amount;
        let position = position_of(&self.pledgers, pledger);
        let is_new = position.is_none();
        self.pledges.insert(pledger, new_amount);
        self.total_pledged = new_total;
        if is_new {
            self.pledgers.push(pledger);
        }
        proof {
            lemma_record_and_list(old(self)@.pledgers, old(self)@.pledges, pledger, new_amount, self@.pledgers);
            assert(self@ =~= old(self)@.after_pledge(pledger, amount));
        }
        Ok(())
    }

    /// Withdraws `amount` of `contributor`'s contribution at time `now`.
    ///
    /// Aborts unless the campaign is active, not paused and before its
    /// deadline, and the amount is at most the contribution. A contribution
    /// withdrawn in full leaves no record and drops the contributor from the
    /// contributor list.
    pub fn withdraw_contribution(&mut self, now: u64, contributor: Account, amount: i128)
        requires
            old(self).wf(),
            !old(self)@.withdraw_contribution_aborts(now, contributor, amount),
        ensures
            final(self).wf(),
            final(self)@ == old(self)@.after_withdraw_contribution(contributor, amount),
            old(self)@.contributions_accounted() ==> final(self)@.contributions_accounted(),
            old(self)@.contributions_accounted() ==> final(self)@.contributions_total()
                == old(self)@.contributions_total() - amount,
            old(self)@.contributions_accounted() && old(self)@.is_balanced() ==> final(self)@.is_balanced(),
            status_step_allowed(old(self)@.status, final(self)@.status),
    {
        let previous = amount_in(&self.contributions, contributor);
        let rest = previous - amount;
        let ghost s = old(self)@.contributors;
        let ghost m = old(self)@.contributions;
        if rest == 0 {
            self.contributions.remove(contributor);
            let position = position_of(&self.contributors, contributor);
            proof {
                s.index_of_first_ensures(contributor);
            }
            match position {
                Some(i) => {
                    proof {
                        assert(s.index_of_first(contributor) == Some(i as int)) by {
                            let k = s.index_of_first(contributor).unwrap();
                            assert(!(k < i));
                            assert(!(k > i));
                        }
                    }
                    self.contributors.remove(i);
                    proof {
                        lemma_remove_and_unlist(s, m, contributor, i as int, self@.contributors);
                    }
                },
                None => {
                    proof {
                        lemma_remove_and_unlist(s, m, contributor, -1, self@.contributors);
                    }
                },
            }
        } else {
            self.contributions.insert(contributor, rest);
            proof {
                if old(self)@.contributions_accounted() {
                    assert(amount_of(m, contributor) != 0);
                    lemma_record_and_list(s, m, contributor, rest, s);
                }
            }
        }
        self.total_raised = self.total_raised - amount;
        proof {
            assert(self@ =~= old(self)@.after_withdraw_contribution(contributor, amount));
            assert forall|b: Account| #[trigger] amount_of(self@.contributions, b) >= 0 by {
                assert(amount_of(old(self)@.contributions, b) >= 0);
            }
        }
    }

    /// Refunds `contributor` at time `now`, once the deadline has passed
    /// without the goal being met; returns the amount refunded (0 for an
    /// account with nothing to refund, which changes nothing).
    ///
    /// Fails, leaving every record as it was, with `ContractPaused` while
    /// paused, `CampaignStillActive` up to the deadline and `GoalReached` when
    /// the goal was met. Aborts when the campaign is not active. A refund
    /// leaves the campaign's status as it is.
    pub fn refund_single(&mut self, now: u64, contributor: Account) -> (r: Result<i128, ContractError>)
        requires
            old(self).wf(),
            !old(self)@.refund_aborts(now, contributor),
        ensures
            final(self).wf(),
            r == old(self)@.refund_result(now, contributor),
            r is Ok ==> final(self)@ == old(self)@.after_refund(contributor),
            r is Err ==> final(self)@ == old(self)@,
            final(self)@.status == old(self)@.status,
            old(self)@.contributions_accounted() ==> final(self)@.contributions_accounted(),
            old(self)@.contributions_accounted() && old(self)@.is_balanced() ==> final(self)@.is_balanced(),
    {
        if self.paused {
            return Err(ContractError::ContractPaused);
        }
        if now <= self.deadline {
            return Err(ContractError::CampaignStillActive);
        }
        if self.total_raised >= self.goal {
            return Err(ContractError::GoalReached);
        }
        let amount = amount_in(&self.contributions, contributor);
        if amount == 0 {
            return Ok(0);
        }
        let rest = self.total_raised - amount;
        self.contributions.insert(contributor, 0);
        self.total_raised = rest;
        proof {
            let s = old(self)@.contributors;
            let m = old(self)@.contributions;
            if old(self)@.contributions_accounted() {
                assert(amount_of(m, contributor) != 0);
                lemma_record_and_list(s, m, contributor, 0, s);
            }
            assert(self@ =~= old(self)@.after_refund(contributor));
            assert forall|b: Account| #[trigger] amount_of(self@.contributions, b) >= 0 by {
                assert(amount_of(m, b) >= 0);
            }
        }
        Ok(amount)
    }

    /// Pays out a successful campaign at time `now`: the platform's fee, if a
    /// platform is configured, and the rest to the creator; the campaign
    /// becomes `Successful` and its total raised zero. The plan also names
    /// the contributors with a positive contribution, who receive a
    /// commemorative token when a token contract is set.
    ///
    /// Fails, leaving every record as it was, with `ContractPaused` while
    /// paused, `CampaignStillActive` up to the deadline and `GoalNotReached`
    /// when the goal was not met. Aborts when the campaign is not active or the
    /// fee arithmetic overflows.
    pub fn withdraw(&mut self, now: u64) -> (r: Result<WithdrawPlan, ContractError>)
        requires
            old(self).wf(),
            !old(self)@.withdraw_aborts(now),
        ensures
            final(self).wf(),
            r is Ok <==> old(self)@.withdraw_check(now) is Ok,
            r matches Err(e) ==> old(self)@.withdraw_check(now) == Err::<(), ContractError>(e)
                && final(self)@ == old(self)@,
            r matches Ok(plan) ==> old(self)@.is_withdraw_plan(plan)
                && final(self)@ == old(self)@.after_withdraw(),
            status_step_allowed(old(self)@.status, final(self)@.status),
    {
        if self.paused {
            return Err(ContractError::ContractPaused);
        }
        if now <= self.deadline {
            return Err(ContractError::CampaignStillActive);
        }
        if self.total_raised < self.goal {
            return Err(ContractError::GoalNotReached);
        }
        let total = self.total_raised;
        let fee: Option<Transfer>;
        let creator_payout: i128;
        match self.platform_config {
            Some(config) => {
                let amount = fee_share(total, config.fee_bps);
                fee = Some(Transfer { account: config.address, amount });
                creator_payout = total - amount;
            },
            None => {
                fee = None;
                creator_payout = total;
            },
        }
        let nft_recipients = if self.nft_contract.is_some() {
            positive_accounts_in(&self.contributors, &self.contributions)
        } else {
            Vec::new()
        };
        self.total_raised = 0;
        self.status = Status::Successful;
        proof {
            assert(self@ =~= old(self)@.after_withdraw());
        }
        Ok(WithdrawPlan {
            creator: self.creator,
            total,
            fee,
            creator_payout,
            nft_contract: self.nft_contract,
            nft_recipients,
        })
    }

    /// Collects every positive pledge at time `now`, once the deadline has
    /// passed and contributions and pledges together meet the goal: the
    /// pledges are added to the total raised, each positive pledge is set to
    /// zero, and the total pledged becomes zero.
    ///
    /// Fails, leaving every record as it was, with `CampaignStillActive` up to
    /// the deadline and `GoalNotReached` when contributions and pledges fall
    /// short of the goal. Aborts when the campaign is not active.
    pub fn collect_pledges(&mut self, now: u64) -> (r: Result<PledgeCollection, ContractError>)
        requires
            old(self).wf(),
            !old(self)@.collect_pledges_aborts(now),
        ensures
            final(self).wf(),
            r is Ok <==> old(self)@.collect_pledges_result(now) is Ok,
            r matches Err(e) ==> old(self)@.collect_pledges_result(now) == Err::<(), ContractError>(e)
                && final(self)@ == old(self)@,
            r matches Ok(c) ==> c.transfers@ == positive_transfers(old(self)@.pledgers, old(self)@.pledges)
                && c.total_collected == old(self)@.total_pledged
                && final(self)@ == old(self)@.after_collect_pledges(),
            status_step_allowed(old(self)@.status, final(self)@.status),
    {
        if now <= self.deadline {
            return Err(ContractError::CampaignStillActive);
        }
        let combined = self.total_raised + self.total_pledged;
        if combined < self.goal {
            return Err(ContractError::GoalNotReached);
        }
        let ghost s = old(self)@.pledgers;
        let ghost m = old(self)@.pledges;
        let mut transfers: Vec<Transfer> = Vec::new();
        let mut i: usize = 0;
        while i < self.pledgers.len()
            invariant
                i <= self.pledgers.len(),
                self.pledgers@ == s,
                self@ == (CampaignState { pledges: self@.pledges, ..old(self)@ }),
                s.no_duplicates(),
                self.wf(),
                transfers@ == positive_transfers(s.take(i as int), m),
                forall|a: Account| #[trigger] self.pledges@.contains_key(a) <==> m.contains_key(a),
                forall|a: Account| #[trigger] self.pledges@.contains_key(a) ==> self.pledges@[a] == (
                    if s.take(i as int).contains(a) && m[a] > 0 { 0i128 } else { m[a] }),
            decreases self.pledgers.len() - i,
        {
            let pledger = self.pledgers[i];
            proof {
                assert(s.take(i + 1).drop_last() =~= s.take(i as int));
                assert(s.take(i + 1).last() == pledger);
                assert(!s.take(i as int).contains(pledger)) by {
                    let prev = s.take(i as int);
                    if prev.contains(pledger) {
                        let k = choose|k: int| 0 <= k < prev.len() && prev[k] == pledger;
                        assert(s[k] == s[i as int]);
                    }
                }
            }
            let amount = amount_in(&self.pledges, pledger);
            if amount > 0 {
                transfers.push(Transfer { account: pledger, amount });
                self.pledges.insert(pledger, 0);
            }
            proof {
                assert forall|a: Account| #[trigger] self.pledges@.contains_key(a) implies self.pledges@[a] == (
                    if s.take(i + 1).contains(a) && m[a] > 0 { 0i128 } else { m[a] }) by {
                    let next = s.take(i + 1);
                    let prev = s.take(i as int);
                    if a == pledger {
                        assert(next[i as int] == a);
                    } else {
                        if next.contains(a) {
                            let k = choose|k: int| 0 <= k < next.len() && next[k] == a;
                            assert(k != i);
                            assert(prev[k] == a);
                        }
                        if prev.contains(a) {
                            let k = choose|k: int| 0 <= k < prev.len() && prev[k] == a;
                            assert(next[k] == a);
                        }
                    }
                }
            }
            i = i + 1;
        }
        let collected = self.total_pledged;
        self.total_raised = combined;
        self.total_pledged = 0;
        proof {
            assert(s.take(s.len() as int) =~= s);
            assert(self@.pledges =~= old(self)@.collected_pledges());
            assert(self@ =~= old(self)@.after_collect_pledges());
        }
        Ok(PledgeCollection { transfers, total_collected: collected })
    }

    /// Sets the contract that mints commemorative tokens; `creator` must be the
    /// campaign's creator.
    pub fn set_nft_contract(&mut self, creator: Account, nft_contract: Account)
        requires
            old(self).wf(),
            old(self)@.set_nft_contract_abort(creator) is None,
        ensures
            final(self).wf(),
            final(self)@ == (CampaignState { nft_contract: Some(nft_contract), ..old(self)@ }),
    {
        self.nft_contract = Some(nft_contract);
    }

    /// Turns the whitelist on and adds `addresses` to it.
    pub fn add_to_whitelist(&mut self, addresses: &Vec<Account>)
        requires
            old(self).wf(),
            old(self)@.creator_action_abort() is None,
        ensures
            final(self).wf(),
            final(self)@ == (CampaignState {
                whitelist_enabled: true,
                whitelist: old(self)@.whitelist.union(addresses@.to_set()),
                ..old(self)@
            }),
    {
        self.whitelist_enabled = true;
        let mut i: usize = 0;
        while i < addresses.len()
            invariant
                i <= addresses.len(),
                self.wf(),
                self@ == (CampaignState {
                    whitelist_enabled: true,
                    whitelist: old(self)@.whitelist.union(addresses@.take(i as int).to_set()),
                    ..old(self)@
                }),
            decreases addresses.len() - i,
        {
            let a = addresses[i];
            let ghost before = self.whitelist@;
            if position_of(&self.whitelist, a).is_none() {
                self.whitelist.push(a);
                proof {
                    assert forall|x: Account| self.whitelist@.to_set().contains(x) <==> before.to_set().insert(a).contains(x) by {
                        if self.whitelist@.contains(x) && x != a {
                            let k = choose|k: int| 0 <= k < self.whitelist@.len() && self.whitelist@[k] == x;
                            assert(k < before.len());
                            assert(before[k] == x);
                        }
                        if before.contains(x) {
                            let k = choose|k: int| 0 <= k < before.len() && before[k] == x;
                            assert(self.whitelist@[k] == x);
                        }
                        if x == a {
                            assert(self.whitelist@[before.len() as int] == a);
                        }
                    }
                }
            }
            proof {
                assert(self.whitelist@.to_set() =~= before.to_set().insert(a));
                let next = addresses@.take(i + 1);
                let prev = addresses@.take(i as int);
                assert(next.to_set() =~= prev.to_set().insert(a)) by {
                    assert forall|x: Account| next.to_set().contains(x) implies prev.to_set().insert(a).contains(x) by {
                        let k = choose|k: int| 0 <= k < next.len() && next[k] == x;
                        if k < i {
                            assert(prev[k] == x);
                        }
                    }
                    assert forall|x: Account| prev.to_set().insert(a).contains(x) implies next.to_set().contains(x) by {
                        if x == a {
                            assert(next[i as int] == x);
                        } else {
                            let k = choose|k: int| 0 <= k < prev.len() && prev[k] == x;
                            assert(next[k] == x);
                        }
                    }
                }
                assert(self@.whitelist =~= old(self)@.whitelist.union(next.to_set()));
            }
            i = i + 1;
        }
        proof {
            assert(addresses@.take(addresses@.len() as int) =~= addresses@);
        }
    }

    /// Pauses or resumes the campaign.
    pub fn set_paused(&mut self, paused: bool)
        requires
            old(self).wf(),
            old(self)@.creator_action_abort() is None,
        ensures
            final(self).wf(),
            final(self)@ == (CampaignState { paused, ..old(self)@ }),
    {
        self.paused = paused;
    }

    /// Replaces whichever of title, description and social links are given;
    /// `creator` must be the campaign's creator and the campaign active.
    pub fn update_metadata(
        &mut self,
        creator: Account,
        title: Option<String>,
        description: Option<String>,
        socials: Option<String>,
    )
        requires
            old(self).wf(),
            old(self)@.update_metadata_abort(creator) is None,
        ensures
            final(self).wf(),
            final(self)@ == (CampaignState {
                title: match title { Some(t) => t@, None => old(self)@.title },
                description: match description { Some(d) => d@, None => old(self)@.description },
                socials: match socials { Some(s) => s@, None => old(self)@.socials },
                ..old(self)@
            }),
    {
        match title {
            Some(t) => {
                self.title = t;
            },
            None => {},
        }
        match description {
            Some(d) => {
                self.description = d;
            },
            None => {},
        }
        match socials {
            Some(s) => {
                self.socials = s;
            },
            None => {},
        }
    }

    /// Appends a roadmap milestone dated after `now`, with a non-empty description.
    pub fn add_roadmap_item(&mut self, now: u64, date: u64, description: String)
        requires
            old(self).wf(),
            old(self)@.add_roadmap_item_abort(now, date, description@) is None,
        ensures
            final(self).wf(),
            final(self)@ == (CampaignState {
                roadmap: old(self)@.roadmap.push((date, description@)),
                ..old(self)@
            }),
    {
        let ghost d = description@;
        self.roadmap.push(RoadmapItem { date, description });
        proof {
            assert(self@.roadmap =~= old(self)@.roadmap.push((date, d)));
        }
    }

    /// Appends an update with a non-empty text, stamped `now`.
    pub fn post_update(&mut self, now: u64, text: String)
        requires
            old(self).wf(),
            old(self)@.post_update_abort(text@) is None,
        ensures
            final(self).wf(),
            final(self)@ == (CampaignState {
                updates: old(self)@.updates.push((now, text@)),
                ..old(self)@
            }),
            chronological(old(self)@.updates) && stamped_by(old(self)@.updates, now)
                ==> chronological(final(self)@.updates) && stamped_by(final(self)@.updates, now),
    {
        let ghost d = text@;
        self.updates.push((now, text));
        proof {
            let u = old(self)@.updates.push((now, d));
            assert(self@.updates =~= u);
            if chronological(old(self)@.updates) && stamped_by(old(self)@.updates, now) {
                assert forall|i: int, j: int| 0 <= i < j < u.len() implies u[i].0 <= u[j].0 by {
                    assert(u[i] == old(self)@.updates[i]);
                    if j < old(self)@.updates.len() {
                        assert(u[j] == old(self)@.updates[j]);
                    }
                }
                assert forall|i: int| 0 <= i < u.len() implies #[trigger] u[i].0 <= now by {
                    if i < old(self)@.updates.len() {
                        assert(u[i] == old(self)@.updates[i]);
                    }
                }
            }
        }
    }

    /// Appends a stretch goal, which must exceed the goal.
    pub fn add_stretch_goal(&mut self, milestone: i128)
        requires
            old(self).wf(),
            old(self)@.add_stretch_goal_abort(milestone) is None,
        ensures
            final(self).wf(),
            final(self)@ == (CampaignState {
                stretch_goals: old(self)@.stretch_goals.push(milestone),
                ..old(self)@
            }),
    {
        self.stretch_goals.push(milestone);
    }

    /// Appends a reward tier with a positive minimum amount; `creator` must be
    /// the campaign's creator and the campaign active.
    pub fn add_reward_tier(&mut self, creator: Account, name: String, min_amount: i128)
        requires
            old(self).wf(),
            old(self)@.add_reward_tier_abort(creator, min_amount) is None,
        ensures
            final(self).wf(),
            final(self)@ == (CampaignState {
                reward_tiers: old(self)@.reward_tiers.push((name@, min_amount)),
                ..old(self)@
            }),
    {
        let ghost n = name@;
        self.reward_tiers.push(RewardTier { name, min_amount });
        proof {
            assert(self@.reward_tiers =~= old(self)@.reward_tiers.push((n, min_amount)));
        }
    }

    /// The roadmap, in the order the milestones were added.
    pub fn roadmap(&self) -> (r: Vec<RoadmapItem>)
        ensures
            r.deep_view() == self@.roadmap,
    {
        let mut r: Vec<RoadmapItem> = Vec::new();
        let mut i: usize = 0;
        while i < self.roadmap.len()
            invariant
                i <= self.roadmap.len(),
                r@.len() == i,
                r.deep_view() == self@.roadmap.take(i as int),
            decreases self.roadmap.len() - i,
        {
            let item = &self.roadmap[i];
            let ghost prev = r@;
            let ghost prev_deep = r.deep_view();
            let x = RoadmapItem { date: item.date, description: item.description.clone() };
            let ghost xd = x.deep_view();
            r.push(x);
            proof {
                assert(xd == self.roadmap@[i as int].deep_view());
                assert forall|k: int| 0 <= k < i + 1 implies r.deep_view()[k] == self@.roadmap.take(i + 1)[k] by {
                    if k < i {
                        assert(r@[k] == prev[k]);
                        assert(prev_deep[k] == prev[k].deep_view());
                    }
                }
                assert(r.deep_view() =~= self@.roadmap.take(i + 1));
            }
            i = i + 1;
        }
        proof {
            assert(self@.roadmap.take(self@.roadmap.len() as int) =~= self@.roadmap);
        }
        r
    }

    /// The updates, in the order they were posted: (time, text).
    pub fn get_updates(&self) -> (r: Vec<(u64, String)>)
        ensures
            r.deep_view() == self@.updates,
    {
        let mut r: Vec<(u64, String)> = Vec::new();
        let mut i: usize = 0;
        while i < self.updates.len()
            invariant
                i <= self.updates.len(),
                r@.len() == i,
                r.deep_view() == self@.updates.take(i as int),
            decreases self.updates.len() - i,
        {
            let entry = &self.updates[i];
            let ghost prev = r@;
            let ghost prev_deep = r.deep_view();
            let x = (entry.0, entry.1.clone());
            let ghost xd = x.deep_view();
            r.push(x);
            proof {
                assert(xd == self.updates@[i as int].deep_view());
                assert forall|k: int| 0 <= k < i + 1 implies r.deep_view()[k] == self@.updates.take(i + 1)[k] by {
                    if k < i {
                        assert(r@[k] == prev[k]);
                        assert(prev_deep[k] == prev[k].deep_view());
                    }
                }
                assert(r.deep_view() =~= self@.updates.take(i + 1));
            }
            i = i + 1;
        }
        proof {
            assert(self@.updates.take(self@.updates.len() as int) =~= self@.updates);
        }
        r
    }

    /// The reward tiers, in the order they were added.
    pub fn reward_tiers(&self) -> (r: Vec<RewardTier>)
        ensures
            r.deep_view() == self@.reward_tiers,
    {
        let mut r: Vec<RewardTier> = Vec::new();
        let mut i: usize = 0;
        while i < self.reward_tiers.len()
            invariant
                i <= self.reward_tiers.len(),
                r@.len() == i,
                r.deep_view() == self@.reward_tiers.take(i as int),
            decreases self.reward_tiers.len() - i,
        {
            let tier = &self.reward_tiers[i];
            let ghost prev = r@;
            let ghost prev_deep = r.deep_view();
            let x = RewardTier { name: tier.name.clone(), min_amount: tier.min_amount };
            let ghost xd = x.deep_view();
            r.push(x);
            proof {
                assert(xd == self.reward_tiers@[i as int].deep_view());
                assert forall|k: int| 0 <= k < i + 1 implies r.deep_view()[k] == self@.reward_tiers.take(i + 1)[k] by {
                    if k < i {
                        assert(r@[k] == prev[k]);
                        assert(prev_deep[k] == prev[k].deep_view());
                    }
                }
                assert(r.deep_view() =~= self@.reward_tiers.take(i + 1));
            }
            i = i + 1;
        }
        proof {
            assert(self@.reward_tiers.take(self@.reward_tiers.len() as int) =~= self@.reward_tiers);
        }
        r
    }

    /// The name of the best reward tier that `user`'s contribution reaches:
    /// of the tiers with the highest minimum amount not above the
    /// contribution, the first added. `None` for an account without a
    /// positive contribution, or when no tier is within reach.
    pub fn get_user_tier(&self, user: Account) -> (r: Option<String>)
        requires
            self.wf(),
        ensures
            self@.contribution_of(user) <= 0 ==> r is None,
            self@.contribution_of(user) > 0 ==> match best_tier(self@.reward_tiers, self@.contribution_of(user)) {
                Some(i) => r matches Some(name) && name@ == self@.reward_tiers[i].0,
                None => r is None,
            },
    {
        let contribution = amount_in(&self.contributions, user);
        if contribution <= 0 {
            return None;
        }
        if self.reward_tiers.len() == 0 {
            return None;
        }
        let ghost tiers = self@.reward_tiers;
        let mut best: Option<usize> = None;
        let mut i: usize = 0;
        while i < self.reward_tiers.len()
            invariant
                i <= self.reward_tiers.len(),
                tiers == self@.reward_tiers,
                contribution == self@.contribution_of(user),
                best_tier(tiers.take(i as int), contribution as int) == (match best {
                    Some(b) => Some(b as int),
                    None => None::<int>,
                }),
                best matches Some(b) ==> b < i,
            decreases self.reward_tiers.len() - i,
        {
            let min_amount = self.reward_tiers[i].min_amount;
            proof {
                assert(tiers.take(i + 1).drop_last() =~= tiers.take(i as int));
                assert(tiers.take(i + 1)[i as int] == tiers[i as int]);
                assert(tiers[i as int] == self.reward_tiers@[i as int].deep_view());
                match best {
                    Some(b) => {
                        assert(tiers.take(i + 1)[b as int] == tiers[b as int]);
                        assert(tiers[b as int] == self.reward_tiers@[b as int].deep_view());
                    },
                    None => {},
                }
            }
            if contribution >= min_amount {
                let better = match best {
                    None => true,
                    Some(b) => min_amount > self.reward_tiers[b].min_amount,
                };
                if better {
                    best = Some(i);
                }
            }
            i = i + 1;
        }
        proof {
            assert(tiers.take(tiers.len() as int) =~= tiers);
        }
        match best {
            Some(b) => {
                proof {
                    assert(tiers[b as int] == self.reward_tiers@[b as int].deep_view());
                }
                Some(self.reward_tiers[b].name.clone())
            },
            None => None,
        }
    }

    /// The next unmet stretch goal: the smallest one above the total raised,
    /// or 0 when there is none.
    pub fn current_milestone(&self) -> (r: i128)
        ensures
            r == self@.next_milestone(),
    {
        let ghost goals = self@.stretch_goals;
        let x = self.total_raised;
        let mut best: Option<i128> = None;
        let mut i: usize = 0;
        proof {
            assert(goals.take(0) =~= Seq::<i128>::empty());
        }
        while i < self.stretch_goals.len()
            invariant
                i <= self.stretch_goals.len(),
                goals == self@.stretch_goals,
                x == self@.total_raised,
                best == least_above(goals.take(i as int), x),
            decreases self.stretch_goals.len() - i,
        {
            let v = self.stretch_goals[i];
            proof {
                let t = goals.take(i + 1);
                assert(t.drop_last() =~= goals.take(i as int));
                assert(t.last() == v);
            }
            if x < v {
                match best {
                    Some(m) => {
                        if v < m {
                            best = Some(v);
                        }
                    },
                    None => {
                        best = Some(v);
                    },
                }
            }
            i = i + 1;
        }
        proof {
            assert(goals.take(i as int) =~= goals);
        }
        match best {
            Some(m) => m,
            None => 0,
        }
    }

    /// The amount raised so far (0 before the campaign starts).
    pub fn total_raised(&self) -> (r: i128)
        ensures
            r == self@.total_raised,
    {
        self.total_raised
    }

    /// The funding goal.
    pub fn goal(&self) -> (r: i128)
        requires
            self@.initialized,
        ensures
            r == self@.goal,
    {
        self.goal
    }

    /// The deadline.
    pub fn deadline(&self) -> (r: u64)
        requires
            self@.initialized,
        ensures
            r == self@.deadline,
    {
        self.deadline
    }

    /// What `contributor` has contributed (0 for an account with no record).
    pub fn contribution(&self, contributor: Account) -> (r: i128)
        requires
            self.wf(),
        ensures
            r == self@.contribution_of(contributor),
    {
        amount_in(&self.contributions, contributor)
    }

    /// What `account` has pledged and not yet paid.
    pub fn pledged(&self, account: Account) -> (r: i128)
        requires
            self.wf(),
        ensures
            r == self@.pledge_of(account),
    {
        amount_in(&self.pledges, account)
    }

    /// The total pledged and not yet collected.
    pub fn total_pledged(&self) -> (r: i128)
        ensures
            r == self@.total_pledged,
    {
        self.total_pledged
    }

    /// The contributions that `referrer` has referred.
    pub fn referral_tally(&self, referrer: Account) -> (r: i128)
        requires
            self.wf(),
        ensures
            r == self@.tally_of(referrer),
    {
        amount_in(&self.referral_tallies, referrer)
    }

    /// The smallest contribution or pledge accepted.
    pub fn min_contribution(&self) -> (r: i128)
        requires
            self@.initialized,
        ensures
            r == self@.min_contribution,
    {
        self.min_contribution
    }

    /// The campaign's creator.
    pub fn creator(&self) -> (r: Account)
        requires
            self@.initialized,
        ensures
            r == self@.creator,
    {
        self.creator
    }

    /// The administrator, who may replace the contract's code.
    pub fn admin(&self) -> (r: Account)
        requires
            self@.initialized,
        ensures
            r == self@.admin,
    {
        self.admin
    }

    /// The contract that mints commemorative tokens, if one is set.
    pub fn nft_contract(&self) -> (r: Option<Account>)
        ensures
            r == self@.nft_contract,
    {
        self.nft_contract
    }

    /// The campaign's main parameters and its current total.
    pub fn get_campaign_info(&self) -> (r: CampaignInfo)
        requires
            self@.initialized,
        ensures
            r == (CampaignInfo {
                creator: self@.creator,
                token: self@.token,
                goal: self@.goal,
                deadline: self@.deadline,
                total_raised: self@.total_raised,
            }),
    {
        CampaignInfo {
            creator: self.creator,
            token: self.token,
            goal: self.goal,
            deadline: self.deadline,
            total_raised: self.total_raised,
        }
    }

    /// Whether `address` is on the whitelist.
    pub fn is_whitelisted(&self, address: Account) -> (r: bool)
        ensures
            r == self@.whitelist.contains(address),
    {
        position_of(&self.whitelist, address).is_some()
    }

    /// Whether the campaign is paused.
    pub fn is_paused(&self) -> (r: bool)
        ensures
            r == self@.paused,
    {
        self.paused
    }

    /// The campaign's lifecycle status.
    pub fn status(&self) -> (r: Status)
        requires
            self@.initialized,
        ensures
            r == self@.status,
    {
        self.status
    }

    /// The statistics of the campaign: total, goal, progress in basis points
    /// (capped at 100%, 0 for a goal that is not positive), number of
    /// contributors, average contribution (total over contributors, rounded
    /// towards zero) and largest contribution.
    pub fn get_stats(&self) -> (r: CampaignStats)
        requires
            self.wf(),
            self@.stats_abort() is None,
        ensures
            r == self@.stats(),
    {
        let progress_bps: u32 = if self.goal > 0 {
            let product = self.total_raised * BPS_SCALE;
            let raw: i128 = match product.checked_div(self.goal) {
                Some(q) => q,
                None => {
                    proof {
                        assert(false);
                    }
                    0
                },
            };
            if raw > BPS_SCALE {
                FULL_PROGRESS_BPS
            } else {
                #[verifier::truncate]
                (raw as u32)
            }
        } else {
            0
        };
        let count: u32 = #[verifier::truncate] (self.contributors.len() as u32);
        let average: i128;
        let largest: i128;
        if count == 0 {
            average = 0;
            largest = 0;
        } else {
            let divisor: i128 = count as i128;
            average = match self.total_raised.checked_div(divisor) {
                Some(q) => q,
                None => {
                    proof {
                        assert(false);
                    }
                    0
                },
            };
            let mut best: i128 = 0;
            let mut i: usize = 0;
            while i < self.contributors.len()
                invariant
                    i <= self.contributors.len(),
                    self.wf(),
                    best == max_of(self@.contributors.take(i as int), self@.contributions),
                decreases self.contributors.len() - i,
            {
                let a = self.contributors[i];
                proof {
                    assert(self@.contributors.take(i + 1).drop_last() =~= self@.contributors.take(i as int));
                    assert(self@.contributors.take(i + 1).last() == a);
                }
                let amount = amount_in(&self.contributions, a);
                if amount > best {
                    best = amount;
                }
                i = i + 1;
            }
            proof {
                assert(self@.contributors.take(self@.contributors.len() as int) =~= self@.contributors);
            }
            largest = best;
        }
        CampaignStats {
            total_raised: self.total_raised,
            goal: self.goal,
            progress_bps,
            contributor_count: count,
            average_contribution: average,
            largest_contribution: largest,
        }
    }

    /// The title ("" until set).
    pub fn title(&self) -> (r: String)
        ensures
            r@ == self@.title,
    {
        self.title.clone()
    }

    /// The description ("" until set).
    pub fn description(&self) -> (r: String)
        ensures
            r@ == self@.description,
    {
        self.description.clone()
    }

    /// The social links ("" until set).
    pub fn socials(&self) -> (r: String)
        ensures
            r@ == self@.socials,
    {
        self.socials.clone()
    }

    /// The contract's version number.
    pub fn version(&self) -> (r: u32)
        ensures
            r == CONTRACT_VERSION,
    {
        CONTRACT_VERSION
    }

    /// The token in which contributions are made.
    pub fn token(&self) -> (r: Account)
        requires
            self@.initialized,
        ensures
            r == self@.token,
    {
        self.token
    }

    /// The number of contributors on the contributor list.
    pub fn contributor_count(&self) -> (r: u32)
        ensures
            r == self@.contributors.len() as u32,
    {
        self.contributors.len() as u32
    }

    // ── what would abort ───────────────────────────────────────────────────

    /// Whether the campaign has started.
    pub fn is_initialized(&self) -> (r: bool)
        ensures
            r == self@.initialized,
    {
        self.initialized
    }

    /// Why `initialize` with these arguments would abort, if it would.
    pub fn initialize_abort(
        &self,
        goal: i128,
        platform_config: Option<PlatformConfig>,
        bonus_goal: Option<i128>,
        hard_cap: Option<i128>,
    ) -> (r: Option<Abort>)
        ensures
            r == self@.initialize_abort(goal, platform_config, bonus_goal, hard_cap),
    {
        if self.initialized {
            return None;
        }
        match platform_config {
            Some(c) => {
                if c.fee_bps > MAX_FEE_BPS {
                    return Some(Abort::FeeTooHigh);
                }
            },
            None => {},
        }
        let hard_cap_value: i128 = match hard_cap {
            Some(h) => h,
            None => match goal.checked_mul(2) {
                Some(v) => v,
                None => {
                    return Some(Abort::ArithmeticOverflow);
                },
            },
        };
        if hard_cap_value < goal {
            return None;
        }
        match bonus_goal {
            Some(b) => {
                if b <= goal {
                    return Some(Abort::BonusGoalTooLow);
                }
            },
            None => {},
        }
        None
    }

    /// Why `contribute` with these arguments would abort, if it would.
    pub fn contribute_abort(&self, now: u64, contributor: Account, amount: i128) -> (r: Option<Abort>)
        requires
            self.wf(),
        ensures
            r == self@.contribute_abort(now, contributor, amount),
    {
        if !self.initialized {
            return Some(Abort::NotInitialized);
        }
        match self.last_contribution_time.get(contributor) {
            Some(last) => match last.checked_add(CONTRIBUTION_COOLDOWN) {
                Some(next) => {
                    if now < next {
                        return None;
                    }
                },
                None => {
                    return Some(Abort::ArithmeticOverflow);
                },
            },
            None => {},
        }
        if self.status != Status::Active {
            return Some(Abort::NotActive);
        }
        if self.paused {
            return None;
        }
        if self.whitelist_enabled && position_of(&self.whitelist, contributor).is_none() {
            return Some(Abort::NotWhitelisted);
        }
        if amount < self.min_contribution {
            return Some(Abort::BelowMinimum);
        }
        if amount <= 0 {
            return Some(Abort::NotPositive);
        }
        if now > self.deadline {
            return None;
        }
        match self.total_raised.checked_add(amount) {
            Some(sum) => {
                if sum > self.hard_cap {
                    return None;
                }
            },
            None => {
                return None;
            },
        }
        match amount_in(&self.contributions, contributor).checked_add(amount) {
            Some(_) => None,
            None => Some(Abort::ArithmeticOverflow),
        }
    }

    /// Why `pledge` with these arguments would abort, if it would.
    pub fn pledge_abort(&self, now: u64, pledger: Account, amount: i128) -> (r: Option<Abort>)
        requires
            self.wf(),
        ensures
            r == self@.pledge_abort(now, pledger, amount),
    {
        if !self.initialized {
            return Some(Abort::NotInitialized);
        }
        if amount < self.min_contribution {
            return Some(Abort::BelowMinimum);
        }
        if now > self.deadline {
            return None;
        }
        if amount_in(&self.pledges, pledger).checked_add(amount).is_none()
            || self.total_pledged.checked_add(amount).is_none() {
            return Some(Abort::ArithmeticOverflow);
        }
        None
    }

    /// Why `collect_pledges` at `now` would abort, if it would.
    pub fn collect_pledges_abort(&self, now: u64) -> (r: Option<Abort>)
        ensures
            r == self@.collect_pledges_abort(now),
    {
        if !self.initialized {
            return Some(Abort::NotInitialized);
        }
        if self.status != Status::Active {
            return Some(Abort::NotActive);
        }
        if now <= self.deadline {
            return None;
        }
        if self.total_raised.checked_add(self.total_pledged).is_none() {
            return Some(Abort::ArithmeticOverflow);
        }
        None
    }

    /// Why `withdraw_contribution` with these arguments would abort, if it would.
    pub fn withdraw_contribution_abort(&self, now: u64, contributor: Account, amount: i128) -> (r: Option<Abort>)
        requires
            self.wf(),
        ensures
            r == self@.withdraw_contribution_abort(now, contributor, amount),
    {
        if !self.initialized {
            return Some(Abort::NotInitialized);
        }
        if self.status != Status::Active {
            return Some(Abort::NotActive);
        }
        if self.paused {
            return Some(Abort::Paused);
        }
        if now > self.deadline {
            return Some(Abort::CampaignEnded);
        }
        let previous = amount_in(&self.contributions, contributor);
        if amount > previous {
            return Some(Abort::InsufficientBalance);
        }
        if amount < 0 {
            return Some(Abort::NegativeAmount);
        }
        if previous.checked_sub(amount).is_none() || self.total_raised.checked_sub(amount).is_none() {
            return Some(Abort::ArithmeticOverflow);
        }
        None
    }

    /// Why `withdraw` at `now` would abort, if it would.
    pub fn withdraw_abort(&self, now: u64) -> (r: Option<Abort>)
        ensures
            r == self@.withdraw_abort(now),
    {
        if !self.initialized {
            return Some(Abort::NotInitialized);
        }
        if self.status != Status::Active {
            return Some(Abort::NotActive);
        }
        if self.paused || now <= self.deadline || self.total_raised < self.goal {
            return None;
        }
        match self.platform_config {
            Some(c) => {
                let bps: i128 = c.fee_bps as i128;
                match self.total_raised.checked_mul(bps) {
                    Some(_) => {
                        let fee = fee_share(self.total_raised, c.fee_bps);
                        if self.total_raised.checked_sub(fee).is_none() {
                            Some(Abort::PayoutUnderflow)
                        } else {
                            None
                        }
                    },
                    None => Some(Abort::FeeOverflow),
                }
            },
            None => None,
        }
    }

    /// Why `refund_single` with these arguments would abort, if it would.
    pub fn refund_abort(&self, now: u64, contributor: Account) -> (r: Option<Abort>)
        requires
            self.wf(),
        ensures
            r == self@.refund_abort(now, contributor),
    {
        if !self.initialized {
            return Some(Abort::NotInitialized);
        }
        if self.status != Status::Active {
            return Some(Abort::NotActive);
        }
        if self.paused || now <= self.deadline || self.total_raised >= self.goal {
            return None;
        }
        if self.total_raised.checked_sub(amount_in(&self.contributions, contributor)).is_none() {
            return Some(Abort::ArithmeticOverflow);
        }
        None
    }

    /// Why `set_nft_contract` by `creator` would abort, if it would.
    pub fn set_nft_contract_abort(&self, creator: Account) -> (r: Option<Abort>)
        ensures
            r == self@.set_nft_contract_abort(creator),
    {
        if !self.initialized {
            Some(Abort::NotInitialized)
        } else if creator != self.creator {
            Some(Abort::NotAuthorized)
        } else {
            None
        }
    }

    /// Why `add_to_whitelist` or `set_paused` would abort, if it would.
    pub fn creator_action_abort(&self) -> (r: Option<Abort>)
        ensures
            r == self@.creator_action_abort(),
    {
        if !self.initialized { Some(Abort::NotInitialized) } else { None }
    }

    /// Why `update_metadata` by `creator` would abort, if it would.
    pub fn update_metadata_abort(&self, creator: Account) -> (r: Option<Abort>)
        ensures
            r == self@.update_metadata_abort(creator),
    {
        if !self.initialized {
            Some(Abort::NotInitialized)
        } else if self.status != Status::Active {
            Some(Abort::NotActive)
        } else if creator != self.creator {
            Some(Abort::NotAuthorized)
        } else {
            None
        }
    }

    /// Why `add_roadmap_item` with these arguments would abort, if it would.
    pub fn add_roadmap_item_abort(&self, now: u64, date: u64, description: &str) -> (r: Option<Abort>)
        ensures
            r == self@.add_roadmap_item_abort(now, date, description@),
    {
        if !self.initialized {
            Some(Abort::NotInitialized)
        } else if date <= now {
            Some(Abort::DateNotInFuture)
        } else if description.is_empty() {
            Some(Abort::EmptyDescription)
        } else {
            None
        }
    }

    /// Why `post_update` of `text` would abort, if it would.
    pub fn post_update_abort(&self, text: &str) -> (r: Option<Abort>)
        ensures
            r == self@.post_update_abort(text@),
    {
        if !self.initialized {
            Some(Abort::NotInitialized)
        } else if text.is_empty() {
            Some(Abort::EmptyUpdate)
        } else {
            None
        }
    }

    /// Why `add_stretch_goal` of `milestone` would abort, if it would.
    pub fn add_stretch_goal_abort(&self, milestone: i128) -> (r: Option<Abort>)
        ensures
            r == self@.add_stretch_goal_abort(milestone),
    {
        if !self.initialized {
            Some(Abort::NotInitialized)
        } else if milestone <= self.goal {
            Some(Abort::StretchGoalTooLow)
        } else {
            None
        }
    }

    /// Why `add_reward_tier` with these arguments would abort, if it would.
    pub fn add_reward_tier_abort(&self, creator: Account, min_amount: i128) -> (r: Option<Abort>)
        ensures
            r == self@.add_reward_tier_abort(creator, min_amount),
    {
        if !self.initialized {
            Some(Abort::NotInitialized)
        } else if self.status != Status::Active {
            Some(Abort::NotActive)
        } else if creator != self.creator {
            Some(Abort::NotAuthorized)
        } else if min_amount <= 0 {
            Some(Abort::TierAmountNotPositive)
        } else {
            None
        }
    }

    /// Why `get_stats` would abort, if it would.
    pub fn stats_abort(&self) -> (r: Option<Abort>)
        ensures
            r == self@.stats_abort(),
    {
        if !self.initialized {
            Some(Abort::NotInitialized)
        } else if self.goal > 0 && self.total_raised.checked_mul(BPS_SCALE).is_none() {
            Some(Abort::ArithmeticOverflow)
        } else {
            None
        }
    }

    // ── storing and restoring ──────────────────────────────────────────────

    /// Everything the campaign records, as plain values.
    pub fn to_record(&self) -> (r: CampaignRecord)
        requires
            self.wf(),
        ensures
            record_valid(r),
            record_state(r) == self@,
    {
        let bonus_goal_description = match &self.bonus_goal_description {
            Some(d) => Some(d.clone()),
            None => None,
        };
        let r = CampaignRecord {
            initialized: self.initialized,
            admin: self.admin,
            creator: self.creator,
            token: self.token,
            goal: self.goal,
            hard_cap: self.hard_cap,
            deadline: self.deadline,
            min_contribution: self.min_contribution,
            title: self.title.clone(),
            description: self.description.clone(),
            socials: self.socials.clone(),
            total_raised: self.total_raised,
            status: self.status,
            paused: self.paused,
            platform_config: self.platform_config,
            bonus_goal: self.bonus_goal,
            bonus_goal_description,
            bonus_goal_reached_emitted: self.bonus_goal_reached_emitted,
            nft_contract: self.nft_contract,
            contributors: copy_vec(&self.contributors),
            contributions: self.contributions.to_entries(),
            pledgers: copy_vec(&self.pledgers),
            pledges: self.pledges.to_entries(),
            total_pledged: self.total_pledged,
            referral_tallies: self.referral_tallies.to_entries(),
            last_contribution_time: self.last_contribution_time.to_entries(),
            roadmap: self.roadmap(),
            updates: self.get_updates(),
            stretch_goals: copy_vec(&self.stretch_goals),
            reward_tiers: self.reward_tiers(),
            whitelist_enabled: self.whitelist_enabled,
            whitelist: copy_vec(&self.whitelist),
        };
        proof {
            self.contributions.lemma_entries();
            self.pledges.lemma_entries();
            self.referral_tallies.lemma_entries();
            self.last_contribution_time.lemma_entries();
            assert(record_state(r) =~= self@);
        }
        r
    }

    /// The campaign that a record describes, unless the record is not valid.
    pub fn from_record(r: CampaignRecord) -> (c: Option<Self>)
        ensures
            c is Some <==> record_valid(r),
            c matches Some(c) ==> c.wf() && c@ == record_state(r),
    {
        let ghost rec = r;
        if !no_duplicates(&r.contributors) || !no_duplicates(&r.pledgers) {
            return None;
        }
        if !r.initialized && (r.contributors.len() != 0 || r.contributions.len() != 0) {
            proof {
                if r.contributions@.len() != 0 {
                    assert(entries_map(r.contributions@).contains_key(r.contributions@.last().0));
                }
            }
            return None;
        }
        if !amounts_non_negative(&r.contributions) {
            proof {
                if keys_unique(rec.contributions@) {
                    lemma_entries_map(rec.contributions@);
                    let i = choose|i: int| 0 <= i < rec.contributions@.len() && #[trigger] rec.contributions@[i].1 < 0;
                    let a = rec.contributions@[i].0;
                    assert(entries_map(rec.contributions@).contains_key(a));
                    assert(entries_map(rec.contributions@)[a] == rec.contributions@[i].1);
                    assert(amount_of(record_state(rec).contributions, a) < 0);
                    assert(!record_state(rec).records_consistent());
                }
            }
            return None;
        }
        let contributions = match Ledger::from_entries(r.contributions) {
            Some(l) => l,
            None => {
                return None;
            },
        };
        let pledges = match Ledger::from_entries(r.pledges) {
            Some(l) => l,
            None => {
                return None;
            },
        };
        let referral_tallies = match Ledger::from_entries(r.referral_tallies) {
            Some(l) => l,
            None => {
                return None;
            },
        };
        let last_contribution_time = match Ledger::from_entries(r.last_contribution_time) {
            Some(l) => l,
            None => {
                return None;
            },
        };
        let c = CrowdfundContract {
            initialized: r.initialized,
            admin: r.admin,
            creator: r.creator,
            token: r.token,
            goal: r.goal,
            hard_cap: r.hard_cap,
            deadline: r.deadline,
            min_contribution: r.min_contribution,
            title: r.title,
            description: r.description,
            socials: r.socials,
            total_raised: r.total_raised,
            status: r.status,
            paused: r.paused,
            platform_config: r.platform_config,
            bonus_goal: r.bonus_goal,
            bonus_goal_description: r.bonus_goal_description,
            bonus_goal_reached_emitted: r.bonus_goal_reached_emitted,
            nft_contract: r.nft_contract,
            contributors: r.contributors,
            contributions,
            pledgers: r.pledgers,
            pledges,
            total_pledged: r.total_pledged,
            referral_tallies,
            last_contribution_time,
            roadmap: r.roadmap,
            updates: r.updates,
            stretch_goals: r.stretch_goals,
            reward_tiers: r.reward_tiers,
            whitelist_enabled: r.whitelist_enabled,
            whitelist: r.whitelist,
        };
        proof {
            assert(c@ =~= record_state(rec));
            lemma_entries_map(rec.contributions@);
            assert forall|a: Account| #[trigger] amount_of(c@.contributions, a) >= 0 by {
                if c@.contributions.contains_key(a) {
                    let i = choose|i: int| 0 <= i < rec.contributions@.len() && #[trigger] rec.contributions@[i].0 == a;
                    assert(rec.contributions@[i].1 >= 0);
                }
            }
            if !rec.initialized {
                assert(rec.contributions@.len() == 0);
                assert(entries_map(rec.contributions@).dom() =~= Set::empty());
            }
        }
        Some(c)
    }
}

} // verus!
