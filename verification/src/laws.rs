//! Properties of the campaign's rules that hold for all inputs.
use vstd::prelude::*;
use crate::state::{CampaignState, chronological, stamped_by, fits_i128, positive_transfers, best_tier, least_above, tier_qualifies, fee_on, div_toward_zero};
use crate::sums::{amount_of, max_of, sum_of};
use crate::types::{Account, ContractError, Transfer, BPS_SCALE, FULL_PROGRESS_BPS, MAX_FEE_BPS};

verus! {

/// The tier that a contribution reaches is the highest one within its reach:
/// no tier within reach asks for more, and every earlier tier within reach
/// asks for less. There is such a tier exactly when some tier is within reach.
pub proof fn lemma_best_tier_is_highest(tiers: Seq<(Seq<char>, i128)>, c: int)
    ensures
        best_tier(tiers, c) is None <==> forall|j: int| 0 <= j < tiers.len() ==> !tier_qualifies(#[trigger] tiers[j], c),
        best_tier(tiers, c) matches Some(i) ==> {
            &&& 0 <= i < tiers.len()
            &&& tier_qualifies(tiers[i], c)
            &&& forall|j: int| 0 <= j < tiers.len() && tier_qualifies(#[trigger] tiers[j], c) ==> tiers[j].1 <= tiers[i].1
            &&& forall|j: int| 0 <= j < i && tier_qualifies(#[trigger] tiers[j], c) ==> tiers[j].1 < tiers[i].1
        },
    decreases tiers.len(),
{
    if tiers.len() > 0 {
        let rest = tiers.drop_last();
        lemma_best_tier_is_highest(rest, c);
        let last = tiers.len() - 1;
        assert forall|j: int| 0 <= j < rest.len() implies #[trigger] rest[j] == tiers[j] by {}
        if best_tier(tiers, c) is None {
            assert forall|j: int| 0 <= j < tiers.len() implies !tier_qualifies(#[trigger] tiers[j], c) by {
                if j < last {
                    assert(rest[j] == tiers[j]);
                }
            }
        }
        if best_tier(tiers, c) is Some {
            let i = best_tier(tiers, c)->0;
            assert forall|j: int| 0 <= j < tiers.len() && tier_qualifies(#[trigger] tiers[j], c) implies tiers[j].1 <= tiers[i].1 by {
                if j < last {
                    assert(rest[j] == tiers[j]);
                }
            }
            assert forall|j: int| 0 <= j < i && tier_qualifies(#[trigger] tiers[j], c) implies tiers[j].1 < tiers[i].1 by {
                assert(rest[j] == tiers[j]);
            }
            if i < last {
                assert(rest[i] == tiers[i]);
            }
        } else {
            assert(!tier_qualifies(tiers[last], c));
        }
    }
}

/// The next milestone is the smallest stretch goal above the total: there
/// is one exactly when some stretch goal is above the total, it is one of
/// them, and no stretch goal above the total is smaller.
pub proof fn lemma_least_above_is_next_unmet(s: Seq<i128>, x: i128)
    ensures
        least_above(s, x) is None <==> forall|j: int| 0 <= j < s.len() ==> #[trigger] s[j] <= x,
        least_above(s, x) matches Some(m) ==> {
            &&& x < m
            &&& exists|k: int| 0 <= k < s.len() && #[trigger] s[k] == m
            &&& forall|j: int| 0 <= j < s.len() && x < #[trigger] s[j] ==> m <= s[j]
        },
    decreases s.len(),
{
    if s.len() > 0 {
        let rest = s.drop_last();
        lemma_least_above_is_next_unmet(rest, x);
        let last = s.len() - 1;
        assert forall|j: int| 0 <= j < rest.len() implies #[trigger] rest[j] == s[j] by {}
        if least_above(s, x) is None {
            assert forall|j: int| 0 <= j < s.len() implies #[trigger] s[j] <= x by {
                if j < last {
                    assert(rest[j] == s[j]);
                }
            }
        } else {
            let m = least_above(s, x)->0;
            if m == s.last() {
                assert(s[last] == m);
            } else {
                let k = choose|k: int| 0 <= k < rest.len() && #[trigger] rest[k] == m;
                assert(s[k] == m);
            }
            assert forall|j: int| 0 <= j < s.len() && x < #[trigger] s[j] implies m <= s[j] by {
                if j < last {
                    assert(rest[j] == s[j]);
                }
            }
        }
        if forall|j: int| 0 <= j < s.len() ==> #[trigger] s[j] <= x {
            assert(s[last] <= x);
            assert forall|j: int| 0 <= j < rest.len() implies #[trigger] rest[j] <= x by {
                assert(s[j] <= x);
            }
        }
    }
}

/// The platform's fee on a non-negative total never exceeds the total, and
/// the fee and the creator's payout add up to the total.
pub proof fn lemma_fee_within_total(total: int, fee_bps: u32)
    requires
        total >= 0,
        fee_bps <= MAX_FEE_BPS,
    ensures
        0 <= fee_on(total, fee_bps) <= total,
        fee_on(total, fee_bps) + (total - fee_on(total, fee_bps)) == total,
{
    let p = total * fee_bps;
    assert(0 <= p <= total * 10000) by (nonlinear_arith)
        requires
            total >= 0,
            0 <= fee_bps <= 10000,
            p == total * fee_bps;
    assert(p / 10000 <= total) by (nonlinear_arith)
        requires
            0 <= p <= total * 10000;
    assert(fee_on(total, fee_bps) == p / 10000);
}

/// Progress never exceeds 100% while the total is not negative, and is 100%
/// once a positive goal is met.
pub proof fn lemma_progress_capped(s: CampaignState)
    requires
        s.total_raised >= 0,
    ensures
        s.progress_bps() <= FULL_PROGRESS_BPS,
        s.goal > 0 && s.total_raised >= s.goal ==> s.progress_bps() == FULL_PROGRESS_BPS,
{
    if s.goal > 0 {
        let p = s.total_raised * BPS_SCALE;
        let g = s.goal as int;
        assert(p >= 0);
        assert(div_toward_zero(p, g) == p / g);
        assert(p / g >= 0) by (nonlinear_arith)
            requires
                p >= 0,
                g > 0;
        if s.total_raised >= s.goal {
            assert(p / g >= 10000) by (nonlinear_arith)
                requires
                    p == s.total_raised * 10000,
                    s.total_raised >= g,
                    g > 0;
        }
    }
}

/// The largest contribution is at least every contribution of a listed
/// contributor, is not negative, and is either 0 or one of them.
pub proof fn lemma_largest_contribution(s: Seq<Account>, m: Map<Account, i128>)
    ensures
        max_of(s, m) >= 0,
        forall|i: int| 0 <= i < s.len() ==> amount_of(m, #[trigger] s[i]) <= max_of(s, m),
        max_of(s, m) == 0 || exists|i: int| 0 <= i < s.len() && amount_of(m, #[trigger] s[i]) == max_of(s, m),
    decreases s.len(),
{
    if s.len() > 0 {
        let rest = s.drop_last();
        lemma_largest_contribution(rest, m);
        assert forall|i: int| 0 <= i < s.len() implies amount_of(m, #[trigger] s[i]) <= max_of(s, m) by {
            if i < s.len() - 1 {
                assert(rest[i] == s[i]);
            }
        }
        if max_of(s, m) != 0 {
            if max_of(s, m) == amount_of(m, s.last()) {
                assert(amount_of(m, s[s.len() - 1]) == max_of(s, m));
            } else {
                let i = choose|i: int| 0 <= i < rest.len() && amount_of(m, #[trigger] rest[i]) == max_of(rest, m);
                assert(s[i] == rest[i]);
            }
        }
    }
}

/// Withdrawing a contribution right after making it undoes it: the
/// contributions, the contributor list and the total raised are as before
/// (only the time of the last contribution remains). This holds unless the
/// contributor has a recorded contribution of zero or is listed with none
/// (as after a refund), in which case withdrawing drops the record and the
/// listing.
pub proof fn lemma_withdraw_undoes_contribute(s: CampaignState, now: u64, a: Account, amount: i128)
    requires
        s.records_consistent(),
        s.contributions_accounted(),
        s.contribution_of(a) != 0 || (!s.contributions.contains_key(a) && !s.contributors.contains(a)),
        fits_i128(s.contribution_of(a) + amount),
        fits_i128(s.total_raised + amount),
    ensures
        s.after_contribute(now, a, amount, None).after_withdraw_contribution(a, amount)
            == (CampaignState { last_contribution_time: s.last_contribution_time.insert(a, now), ..s }),
{
    let t = s.after_contribute(now, a, amount, None);
    let u = t.after_withdraw_contribution(a, amount);
    assert(t.contribution_of(a) == s.contribution_of(a) + amount);
    if s.contributors.contains(a) {
        assert(s.contributions.contains_key(a));
        assert(u.contributions =~= s.contributions);
        assert(u.contributors =~= s.contributors);
    } else {
        assert(!s.contributions.contains_key(a));
        assert(u.contributions =~= s.contributions);
        let p = s.contributors.push(a);
        p.index_of_first_ensures(a);
        let k = p.index_of_first(a)->0;
        assert(p[s.contributors.len() as int] == a);
        if k < s.contributors.len() {
            assert(s.contributors[k] == a);
        }
        assert(k == s.contributors.len());
        assert(p.remove(k) =~= s.contributors);
        assert(u.contributors =~= s.contributors);
    }
    assert(u =~= (CampaignState { last_contribution_time: s.last_contribution_time.insert(a, now), ..s }));
}

/// Updates posted at times that never go back stay in chronological order:
/// an update stamped `now` on a chronological list whose updates are all
/// stamped by `now` keeps the list chronological, and every update on it is
/// stamped by any later time.
pub proof fn lemma_updates_stay_chronological(updates: Seq<(u64, Seq<char>)>, now: u64, later: u64, text: Seq<char>)
    requires
        chronological(updates),
        stamped_by(updates, now),
        now <= later,
    ensures
        chronological(updates.push((now, text))),
        stamped_by(updates.push((now, text)), later),
{
    let u = updates.push((now, text));
    assert forall|i: int, j: int| 0 <= i < j < u.len() implies u[i].0 <= u[j].0 by {
        assert(u[i] == updates[i]);
        if j < updates.len() {
            assert(u[j] == updates[j]);
        }
    }
    assert forall|i: int| 0 <= i < u.len() implies #[trigger] u[i].0 <= later by {
        if i < updates.len() {
            assert(u[i] == updates[i]);
        }
    }
}

/// A refund is never paid twice: right after a refund, refunding the same
/// account again succeeds, pays 0 and changes nothing.
pub proof fn lemma_refund_pays_once(s: CampaignState, now: u64, a: Account)
    requires
        s.records_consistent(),
        !s.refund_aborts(now, a),
        s.refund_result(now, a) is Ok,
    ensures
        !s.after_refund(a).refund_aborts(now, a),
        s.after_refund(a).refund_result(now, a) == Ok::<i128, ContractError>(0),
        s.after_refund(a).after_refund(a) == s.after_refund(a),
{
    let t = s.after_refund(a);
    assert(amount_of(s.contributions, a) >= 0);
    assert(t.contribution_of(a) == 0);
}

/// Accounts none of which has a positive amount get no transfer.
proof fn lemma_no_positive_transfers(s: Seq<Account>, m: Map<Account, i128>)
    requires
        forall|i: int| 0 <= i < s.len() ==> amount_of(m, #[trigger] s[i]) <= 0,
    ensures
        positive_transfers(s, m) == Seq::<Transfer>::empty(),
    decreases s.len(),
{
    if s.len() > 0 {
        let rest = s.drop_last();
        assert forall|i: int| 0 <= i < rest.len() implies amount_of(m, #[trigger] rest[i]) <= 0 by {
            assert(rest[i] == s[i]);
        }
        lemma_no_positive_transfers(rest, m);
        assert(amount_of(m, s[s.len() - 1]) <= 0);
    }
}

/// Collecting pledges twice collects once: after a successful collection, a
/// second one at the same time or later succeeds, transfers nothing and
/// changes nothing.
pub proof fn lemma_collect_pledges_once(s: CampaignState, now: u64, later: u64)
    requires
        !s.collect_pledges_aborts(now),
        s.collect_pledges_result(now) is Ok,
        now <= later,
    ensures
        !s.after_collect_pledges().collect_pledges_aborts(later),
        s.after_collect_pledges().collect_pledges_result(later) is Ok,
        positive_transfers(s.after_collect_pledges().pledgers, s.after_collect_pledges().pledges)
            == Seq::<Transfer>::empty(),
        s.after_collect_pledges().after_collect_pledges() == s.after_collect_pledges(),
{
    let t = s.after_collect_pledges();
    assert forall|i: int| 0 <= i < t.pledgers.len() implies amount_of(t.pledges, #[trigger] t.pledgers[i]) <= 0 by {
        let x = t.pledgers[i];
        assert(s.pledgers.contains(x));
    }
    lemma_no_positive_transfers(t.pledgers, t.pledges);
    let u = t.after_collect_pledges();
    assert forall|x: Account| #[trigger] u.pledges.contains_key(x) implies u.pledges[x] == t.pledges[x] by {
        if t.pledgers.contains(x) {
            let i = choose|i: int| 0 <= i < t.pledgers.len() && t.pledgers[i] == x;
            assert(amount_of(t.pledges, t.pledgers[i]) <= 0);
        }
    }
    assert(u.pledges =~= t.pledges);
    assert(u =~= t);
}

/// The best tier does not depend on the order in which tiers were added,
/// as long as no two tiers ask for the same minimum: two lists of the same
/// tiers give the same best tier, or none both.
pub proof fn lemma_best_tier_ignores_order(t1: Seq<(Seq<char>, i128)>, t2: Seq<(Seq<char>, i128)>, c: int)
    requires
        forall|x: (Seq<char>, i128)| t1.contains(x) <==> t2.contains(x),
        forall|i: int, j: int| 0 <= i < j < t1.len() ==> t1[i].1 != t1[j].1,
        forall|i: int, j: int| 0 <= i < j < t2.len() ==> t2[i].1 != t2[j].1,
    ensures
        best_tier(t1, c) is None <==> best_tier(t2, c) is None,
        best_tier(t1, c) matches Some(i) ==> best_tier(t2, c) matches Some(j) && t1[i] == t2[j],
{
    lemma_best_tier_is_highest(t1, c);
    lemma_best_tier_is_highest(t2, c);
    if best_tier(t1, c) is Some {
        let i = best_tier(t1, c)->0;
        assert(t1.contains(t1[i]));
        let k = choose|k: int| 0 <= k < t2.len() && t2[k] == t1[i];
        assert(tier_qualifies(t2[k], c));
        let j = best_tier(t2, c)->0;
        assert(t2.contains(t2[j]));
        let p = choose|p: int| 0 <= p < t1.len() && t1[p] == t2[j];
        assert(tier_qualifies(t1[p], c));
        assert(t2[j].1 >= t2[k].1);
        assert(t1[i].1 >= t1[p].1);
        assert(t1[p].1 == t1[i].1);
        if p < i {
            assert(t1[p].1 != t1[i].1);
        } else if i < p {
            assert(t1[i].1 != t1[p].1);
        }
    } else if best_tier(t2, c) is Some {
        let j = best_tier(t2, c)->0;
        assert(t2.contains(t2[j]));
        let p = choose|p: int| 0 <= p < t1.len() && t1[p] == t2[j];
        assert(tier_qualifies(t1[p], c));
    }
}

/// The sum of the amounts of a list of transfers.
pub open spec fn transfers_total(t: Seq<Transfer>) -> int
    decreases t.len(),
{
    if t.len() == 0 { 0 } else { transfers_total(t.drop_last()) + t.last().amount }
}

/// With no negative amounts, the positive amounts that are transferred add up
/// to the sum of all amounts.
pub proof fn lemma_positive_transfers_total(s: Seq<Account>, m: Map<Account, i128>)
    requires
        forall|i: int| 0 <= i < s.len() ==> amount_of(m, #[trigger] s[i]) >= 0,
    ensures
        transfers_total(positive_transfers(s, m)) == sum_of(s, m),
    decreases s.len(),
{
    if s.len() > 0 {
        let rest = s.drop_last();
        assert forall|i: int| 0 <= i < rest.len() implies amount_of(m, #[trigger] rest[i]) >= 0 by {
            assert(rest[i] == s[i]);
        }
        lemma_positive_transfers_total(rest, m);
        assert(amount_of(m, s[s.len() - 1]) >= 0);
        if amount_of(m, s.last()) > 0 {
            let t = positive_transfers(s, m);
            assert(t.drop_last() =~= positive_transfers(rest, m));
        }
    }
}

/// Sums of zero amounts are zero.
proof fn lemma_sum_of_zeros(s: Seq<Account>, m: Map<Account, i128>)
    requires
        forall|i: int| 0 <= i < s.len() ==> amount_of(m, #[trigger] s[i]) == 0,
    ensures
        sum_of(s, m) == 0,
    decreases s.len(),
{
    if s.len() > 0 {
        let rest = s.drop_last();
        assert forall|i: int| 0 <= i < rest.len() implies amount_of(m, #[trigger] rest[i]) == 0 by {
            assert(rest[i] == s[i]);
        }
        lemma_sum_of_zeros(rest, m);
        assert(amount_of(m, s[s.len() - 1]) == 0);
    }
}

/// Collecting the pledges of a campaign whose total pledged is the sum of
/// its pledges, none negative, transfers exactly the total pledged and
/// settles every pledge: afterwards no pledge is outstanding and the total
/// pledged is again the sum of the pledges, zero.
pub proof fn lemma_collection_settles_pledges(s: CampaignState)
    requires
        s.pledges_accounted(),
        s.pledges_balanced(),
        forall|a: Account| #[trigger] s.pledges.contains_key(a) ==> s.pledges[a] >= 0,
        fits_i128(s.total_raised + s.total_pledged),
    ensures
        transfers_total(positive_transfers(s.pledgers, s.pledges)) == s.total_pledged,
        forall|a: Account| #[trigger] s.after_collect_pledges().pledge_of(a) == 0,
        s.after_collect_pledges().pledges_balanced(),
        s.after_collect_pledges().total_raised == s.total_raised + s.total_pledged,
{
    assert forall|i: int| 0 <= i < s.pledgers.len() implies amount_of(s.pledges, #[trigger] s.pledgers[i]) >= 0 by {
        let a = s.pledgers[i];
        if s.pledges.contains_key(a) {
            assert(s.pledges[a] >= 0);
        }
    }
    lemma_positive_transfers_total(s.pledgers, s.pledges);
    let after = s.after_collect_pledges();
    assert forall|a: Account| #[trigger] after.pledge_of(a) == 0 by {
        if s.pledges.contains_key(a) && s.pledges[a] > 0 {
            assert(amount_of(s.pledges, a) != 0);
        }
    }
    assert forall|i: int| 0 <= i < after.pledgers.len() implies amount_of(after.pledges, #[trigger] after.pledgers[i]) == 0 by {
        assert(after.pledge_of(after.pledgers[i]) == 0);
    }
    lemma_sum_of_zeros(after.pledgers, after.pledges);
}

/// Every referred contribution counts towards its referrer: a contribution
/// that succeeds with a referrer other than the contributor raises that
/// referrer's tally by exactly its amount, whatever the contributor has done
/// before, and leaves every other tally as it was.
pub proof fn lemma_referral_tally_grows_by_amount(s: CampaignState, now: u64, a: Account, amount: i128, r: Account)
    requires
        r != a,
        s.contribute_result(now, a, amount, Some(r)) is Ok,
    ensures
        s.after_contribute(now, a, amount, Some(r)).tally_of(r) == s.tally_of(r) + amount,
        forall|x: Account| x != r ==> #[trigger] s.after_contribute(now, a, amount, Some(r)).tally_of(x) == s.tally_of(x),
{
}

/// Only a referrer other than the contributor is credited: a contribution
/// without a referrer, or naming the contributor as its own referrer, leaves
/// every tally as it was.
pub proof fn lemma_no_tally_without_other_referrer(s: CampaignState, now: u64, a: Account, amount: i128)
    ensures
        forall|x: Account| #[trigger] s.after_contribute(now, a, amount, None).tally_of(x) == s.tally_of(x),
        forall|x: Account| #[trigger] s.after_contribute(now, a, amount, Some(a)).tally_of(x) == s.tally_of(x),
{
}

/// A referrer changes the outcome of a contribution only when its tally
/// would overflow: otherwise the contribution succeeds or fails exactly as it
/// would without a referrer, and the contributions, contributors and total
/// raised end up the same.
pub proof fn lemma_referral_does_not_change_outcome(s: CampaignState, now: u64, a: Account, amount: i128, r: Account)
    requires
        fits_i128(s.tally_of(r) + amount),
    ensures
        s.contribute_result(now, a, amount, Some(r)) == s.contribute_result(now, a, amount, None),
        s.after_contribute(now, a, amount, Some(r)).contributions == s.after_contribute(now, a, amount, None).contributions,
        s.after_contribute(now, a, amount, Some(r)).contributors == s.after_contribute(now, a, amount, None).contributors,
        s.after_contribute(now, a, amount, Some(r)).total_raised == s.after_contribute(now, a, amount, None).total_raised,
{
}

/// The current milestone is the next stretch goal that the amount raised
/// has not reached: when every stretch goal is at most the total raised it
/// is 0; otherwise it is a stretch goal above the total raised, and no
/// stretch goal above the total raised is smaller.
pub proof fn lemma_milestone_is_least_goal_above_raised(s: CampaignState)
    ensures
        (forall|j: int| 0 <= j < s.stretch_goals.len() ==> #[trigger] s.stretch_goals[j] <= s.total_raised)
            ==> s.next_milestone() == 0,
        (exists|j: int| 0 <= j < s.stretch_goals.len() && s.total_raised < #[trigger] s.stretch_goals[j]) ==> {
            &&& s.total_raised < s.next_milestone()
            &&& s.stretch_goals.contains(s.next_milestone())
            &&& forall|j: int| 0 <= j < s.stretch_goals.len() && s.total_raised < #[trigger] s.stretch_goals[j]
                ==> s.next_milestone() <= s.stretch_goals[j]
        },
{
    lemma_least_above_is_next_unmet(s.stretch_goals, s.total_raised);
    if exists|j: int| 0 <= j < s.stretch_goals.len() && s.total_raised < #[trigger] s.stretch_goals[j] {
        let j = choose|j: int| 0 <= j < s.stretch_goals.len() && s.total_raised < #[trigger] s.stretch_goals[j];
        assert(!(s.stretch_goals[j] <= s.total_raised));
        let m = least_above(s.stretch_goals, s.total_raised)->0;
        let k = choose|k: int| 0 <= k < s.stretch_goals.len() && #[trigger] s.stretch_goals[k] == m;
        assert(s.stretch_goals[k] == m);
    }
}

/// A refund after the deadline of a campaign that is not paused and whose
/// total raised is below the goal pays the account its whole contribution,
/// whatever is pledged; `GoalReached` comes only when the total raised is at
/// least the goal. A refund lowers the total raised by the amount paid and
/// sets the account's contribution to zero, leaving every other
/// contribution as it was.
pub proof fn lemma_refund_pays_contribution(s: CampaignState, now: u64, a: Account)
    requires
        !s.refund_aborts(now, a),
    ensures
        !s.paused && now > s.deadline && s.total_raised < s.goal
            ==> s.refund_result(now, a) == Ok::<i128, ContractError>(s.contribution_of(a) as i128),
        s.refund_result(now, a) == Err::<i128, ContractError>(ContractError::GoalReached)
            ==> !s.paused && now > s.deadline && s.total_raised >= s.goal,
        s.refund_result(now, a) is Ok ==> {
            &&& s.after_refund(a).total_raised == s.total_raised - s.contribution_of(a)
            &&& s.after_refund(a).contribution_of(a) == 0
            &&& forall|x: Account| x != a ==> #[trigger] s.after_refund(a).contribution_of(x) == s.contribution_of(x)
        },
{
}

/// Pledges are not money raised: changing the pledges, the pledger list and
/// the total pledged changes neither the current milestone, nor whether and
/// how a refund goes, nor the statistics.
pub proof fn lemma_pledges_not_counted_as_raised(
    s: CampaignState,
    now: u64,
    a: Account,
    pledgers: Seq<Account>,
    pledges: Map<Account, i128>,
    total_pledged: i128,
)
    ensures
        (CampaignState { pledgers, pledges, total_pledged, ..s }).next_milestone() == s.next_milestone(),
        (CampaignState { pledgers, pledges, total_pledged, ..s }).refund_abort(now, a) == s.refund_abort(now, a),
        (CampaignState { pledgers, pledges, total_pledged, ..s }).refund_result(now, a) == s.refund_result(now, a),
        (CampaignState { pledgers, pledges, total_pledged, ..s }).after_refund(a)
            == (CampaignState { pledgers, pledges, total_pledged, ..s.after_refund(a) }),
        (CampaignState { pledgers, pledges, total_pledged, ..s }).stats() == s.stats(),
{
    let u = CampaignState { pledgers, pledges, total_pledged, ..s };
    assert(u.after_refund(a) =~= (CampaignState { pledgers, pledges, total_pledged, ..s.after_refund(a) }));
}

/// The statistics count the accounts on the contributor list: the
/// contributor count is the length of that list, the average is the total
/// raised over that count rounded towards zero (0 with no contributors), and
/// the largest contribution is the largest amount of a listed contributor
/// (0 with none).
pub proof fn lemma_stats_count_contributors(s: CampaignState)
    requires
        s.contributors.len() <= u32::MAX,
    ensures
        s.stats().contributor_count == s.contributors.len(),
        s.stats().total_raised == s.total_raised,
        s.stats().goal == s.goal,
        s.contributors.len() == 0 ==> s.stats().average_contribution == 0 && s.stats().largest_contribution == 0,
        s.contributors.len() > 0 ==> s.stats().average_contribution
            == div_toward_zero(s.total_raised as int, s.contributors.len() as int),
        s.contributors.len() > 0 && s.total_raised >= 0 ==> {
            &&& s.stats().average_contribution * s.contributors.len() <= s.total_raised
            &&& s.total_raised < (s.stats().average_contribution + 1) * s.contributors.len()
        },
        forall|i: int| 0 <= i < s.contributors.len()
            ==> amount_of(s.contributions, #[trigger] s.contributors[i]) <= s.stats().largest_contribution,
{
    let n = s.contributors.len() as int;
    lemma_largest_contribution(s.contributors, s.contributions);
    if n > 0 {
        let t = s.total_raised as int;
        let q = t / n;
        if t >= 0 {
            assert(div_toward_zero(t, n) == q);
            assert(q * n <= t && t < (q + 1) * n) by (nonlinear_arith)
                requires
                    n > 0,
                    t >= 0,
                    q == t / n;
            assert(0 <= q <= t) by (nonlinear_arith)
                requires
                    n > 0,
                    t >= 0,
                    q == t / n;
        } else {
            let q2 = (-t) / n;
            assert(0 <= q2 <= -t) by (nonlinear_arith)
                requires
                    n > 0,
                    -t > 0,
                    q2 == (-t) / n;
        }
        if s.contributors.len() > 0 {
            let mx = max_of(s.contributors, s.contributions);
            if mx != 0 {
                let i = choose|i: int| 0 <= i < s.contributors.len() && amount_of(s.contributions, #[trigger] s.contributors[i]) == mx;
                assert(fits_i128(amount_of(s.contributions, s.contributors[i])));
            }
        }
    }
}

} // verus!
