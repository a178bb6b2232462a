//! Sums and maxima of per-account amounts, with the lemmas that relate them
//! to the updates the campaign makes.
use vstd::prelude::*;
use crate::types::Account;

verus! {

/// The amount recorded for `a` in `m`; an account without a record has 0.
pub open spec fn amount_of(m: Map<Account, i128>, a: Account) -> int {
    if m.contains_key(a) { m[a] as int } else { 0 }
}

/// The sum of the amounts recorded for the accounts of `s`, in `m`.
pub open spec fn sum_of(s: Seq<Account>, m: Map<Account, i128>) -> int
    decreases s.len(),
{
    if s.len() == 0 {
        0
    } else {
        sum_of(s.drop_last(), m) + amount_of(m, s.last())
    }
}

/// The largest amount recorded for the accounts of `s`, or 0 when none is positive.
pub open spec fn max_of(s: Seq<Account>, m: Map<Account, i128>) -> int
    decreases s.len(),
{
    if s.len() == 0 {
        0
    } else {
        let rest = max_of(s.drop_last(), m);
        let last = amount_of(m, s.last());
        if last > rest { last } else { rest }
    }
}

/// Amounts of accounts outside `s` do not count towards its sum.
pub proof fn lemma_sum_frame(s: Seq<Account>, m1: Map<Account, i128>, m2: Map<Account, i128>)
    requires
        forall|i: int| 0 <= i < s.len() ==> amount_of(m1, #[trigger] s[i]) == amount_of(m2, s[i]),
    ensures
        sum_of(s, m1) == sum_of(s, m2),
    decreases s.len(),
{
    if s.len() > 0 {
        let t = s.drop_last();
        assert forall|i: int| 0 <= i < t.len() implies amount_of(m1, #[trigger] t[i]) == amount_of(m2, t[i]) by {
            assert(t[i] == s[i]);
        }
        lemma_sum_frame(t, m1, m2);
        assert(s.last() == s[s.len() - 1]);
    }
}

/// The sum over a concatenation is the sum of the sums.
pub proof fn lemma_sum_concat(s1: Seq<Account>, s2: Seq<Account>, m: Map<Account, i128>)
    ensures
        sum_of(s1 + s2, m) == sum_of(s1, m) + sum_of(s2, m),
    decreases s2.len(),
{
    if s2.len() == 0 {
        assert(s1 + s2 =~= s1);
    } else {
        lemma_sum_concat(s1, s2.drop_last(), m);
        assert((s1 + s2).drop_last() =~= s1 + s2.drop_last());
        assert((s1 + s2).last() == s2.last());
    }
}

/// Changing the amount of one account that occurs once in `s` changes the sum by the difference.
pub proof fn lemma_sum_update(s: Seq<Account>, m: Map<Account, i128>, a: Account, v: i128, i: int)
    requires
        0 <= i < s.len(),
        s[i] == a,
        s.no_duplicates(),
    ensures
        sum_of(s, m.insert(a, v)) == sum_of(s, m) - amount_of(m, a) + v,
{
    let s1 = s.subrange(0, i);
    let s2 = s.subrange(i + 1, s.len() as int);
    let mid = seq![a];
    assert(s =~= s1 + mid + s2);
    let m2 = m.insert(a, v);
    assert forall|j: int| 0 <= j < s1.len() implies amount_of(m, #[trigger] s1[j]) == amount_of(m2, s1[j]) by {
        assert(s1[j] == s[j]);
        assert(s[j] != s[i]);
    }
    assert forall|j: int| 0 <= j < s2.len() implies amount_of(m, #[trigger] s2[j]) == amount_of(m2, s2[j]) by {
        assert(s2[j] == s[i + 1 + j]);
        assert(s[i + 1 + j] != s[i]);
    }
    lemma_sum_frame(s1, m, m2);
    lemma_sum_frame(s2, m, m2);
    lemma_sum_concat(s1 + mid, s2, m);
    lemma_sum_concat(s1, mid, m);
    lemma_sum_concat(s1 + mid, s2, m2);
    lemma_sum_concat(s1, mid, m2);
    assert(mid.drop_last() =~= Seq::<Account>::empty());
    assert(sum_of(Seq::<Account>::empty(), m) == 0);
    assert(sum_of(Seq::<Account>::empty(), m2) == 0);
    assert(mid.last() == a);
    assert(sum_of(mid, m) == amount_of(m, a));
    assert(sum_of(mid, m2) == amount_of(m2, a));
}

/// Appending a new account with amount `v` adds `v` to the sum.
pub proof fn lemma_sum_push(s: Seq<Account>, m: Map<Account, i128>, a: Account, v: i128)
    requires
        !s.contains(a),
    ensures
        sum_of(s.push(a), m.insert(a, v)) == sum_of(s, m) + v,
{
    let m2 = m.insert(a, v);
    assert forall|j: int| 0 <= j < s.len() implies amount_of(m, #[trigger] s[j]) == amount_of(m2, s[j]) by {
        assert(s[j] != a);
    }
    lemma_sum_frame(s, m, m2);
    assert(s.push(a).drop_last() =~= s);
}

/// Removing an account that occurs once, together with its amount, subtracts its amount.
pub proof fn lemma_sum_remove(s: Seq<Account>, m: Map<Account, i128>, i: int)
    requires
        0 <= i < s.len(),
        s.no_duplicates(),
    ensures
        sum_of(s.remove(i), m.remove(s[i])) == sum_of(s, m) - amount_of(m, s[i]),
{
    let a = s[i];
    let s1 = s.subrange(0, i);
    let s2 = s.subrange(i + 1, s.len() as int);
    let mid = seq![a];
    assert(s =~= s1 + mid + s2);
    assert(s.remove(i) =~= s1 + s2);
    let m2 = m.remove(a);
    assert forall|j: int| 0 <= j < s1.len() implies amount_of(m, #[trigger] s1[j]) == amount_of(m2, s1[j]) by {
        assert(s1[j] == s[j]);
        assert(s[j] != s[i]);
    }
    assert forall|j: int| 0 <= j < s2.len() implies amount_of(m, #[trigger] s2[j]) == amount_of(m2, s2[j]) by {
        assert(s2[j] == s[i + 1 + j]);
        assert(s[i + 1 + j] != s[i]);
    }
    lemma_sum_frame(s1, m, m2);
    lemma_sum_frame(s2, m, m2);
    lemma_sum_concat(s1 + mid, s2, m);
    lemma_sum_concat(s1, mid, m);
    lemma_sum_concat(s1, s2, m2);
    assert(mid.drop_last() =~= Seq::<Account>::empty());
    assert(sum_of(Seq::<Account>::empty(), m) == 0);
    assert(sum_of(Seq::<Account>::empty(), m2) == 0);
    assert(mid.last() == a);
    assert(sum_of(mid, m) == amount_of(m, a));
    assert(sum_of(mid, m2) == amount_of(m2, a));
}

} // verus!

verus! {

/// Every account of `m` with a non-zero amount is on the list `s`.
pub open spec fn accounted(s: Seq<Account>, m: Map<Account, i128>) -> bool {
    forall|b: Account| #[trigger] amount_of(m, b) != 0 ==> s.contains(b)
}

/// Recording `v` for `a`, and adding `a` to the list when it is not on it:
/// the list keeps no duplicates, names `a` and every account it named, an
/// accounted map stays accounted, and the sum changes by the new amount less
/// the old one.
pub proof fn lemma_record_and_list(s: Seq<Account>, m: Map<Account, i128>, a: Account, v: i128, s2: Seq<Account>)
    requires
        s.no_duplicates(),
        s2 == (if s.contains(a) { s } else { s.push(a) }),
    ensures
        s2.no_duplicates(),
        s2.contains(a),
        forall|b: Account| s.contains(b) ==> s2.contains(b),
        accounted(s, m) ==> accounted(s2, m.insert(a, v)),
        accounted(s, m) ==> sum_of(s2, m.insert(a, v)) == sum_of(s, m) + v - amount_of(m, a),
{
    if s.contains(a) {
        let i = choose|i: int| 0 <= i < s.len() && s[i] == a;
        lemma_sum_update(s, m, a, v, i);
    } else {
        assert forall|i: int, j: int| 0 <= i < s2.len() && 0 <= j < s2.len() && i != j implies s2[i] != s2[j] by {
            if i == s.len() as int {
                assert(s2[j] == s[j]);
            } else if j == s.len() as int {
                assert(s2[i] == s[i]);
            }
        }
        assert(s2[s.len() as int] == a);
        assert forall|b: Account| s.contains(b) implies s2.contains(b) by {
            let k = choose|k: int| 0 <= k < s.len() && s[k] == b;
            assert(s2[k] == b);
        }
        if accounted(s, m) {
            assert(amount_of(m, a) == 0);
        }
        lemma_sum_push(s, m, a, v);
    }
    if accounted(s, m) {
        assert forall|b: Account| #[trigger] amount_of(m.insert(a, v), b) != 0 implies s2.contains(b) by {
            if b != a {
                assert(amount_of(m, b) != 0);
            }
        }
    }
}

/// Removing `a` from the list at position `i` (or leaving a list without `a`
/// as it is), together with its amount: the list keeps no duplicates and
/// every other account it named, an accounted map stays accounted, and the
/// sum loses `a`'s amount.
pub proof fn lemma_remove_and_unlist(s: Seq<Account>, m: Map<Account, i128>, a: Account, i: int, s2: Seq<Account>)
    requires
        s.no_duplicates(),
        0 <= i < s.len() ==> s[i] == a && s2 == s.remove(i),
        !(0 <= i < s.len()) ==> !s.contains(a) && s2 == s,
    ensures
        s2.no_duplicates(),
        forall|b: Account| b != a && s.contains(b) ==> s2.contains(b),
        accounted(s, m) ==> accounted(s2, m.remove(a)),
        accounted(s, m) ==> sum_of(s2, m.remove(a)) == sum_of(s, m) - amount_of(m, a),
{
    if 0 <= i < s.len() {
        lemma_sum_remove(s, m, i);
        assert forall|x: int, y: int| 0 <= x < s2.len() && 0 <= y < s2.len() && x != y implies s2[x] != s2[y] by {
            let sx = if x < i { x } else { x + 1 };
            let sy = if y < i { y } else { y + 1 };
            assert(s2[x] == s[sx] && s2[y] == s[sy]);
        }
        assert forall|b: Account| b != a && s.contains(b) implies s2.contains(b) by {
            let k = choose|k: int| 0 <= k < s.len() && s[k] == b;
            if k < i {
                assert(s2[k] == b);
            } else {
                assert(k != i);
                assert(s2[k - 1] == b);
            }
        }
    } else {
        let m2 = m.remove(a);
        assert forall|j: int| 0 <= j < s.len() implies amount_of(m, #[trigger] s[j]) == amount_of(m2, s[j]) by {
            assert(s[j] != a);
        }
        lemma_sum_frame(s, m, m2);
    }
    if accounted(s, m) {
        assert forall|b: Account| #[trigger] amount_of(m.remove(a), b) != 0 implies s2.contains(b) by {
            assert(amount_of(m, b) != 0);
        }
    }
}

} // verus!
