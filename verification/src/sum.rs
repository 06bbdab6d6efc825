//! The sum of the amounts held in a finite map, and the facts about it that
//! the ledger's supply invariant rests on.

use vstd::prelude::*;

verus! {

/// The amount that `m` holds for `k`: the stored value, or zero where `m` has
/// no entry for `k`.
pub open spec fn amount_of<K>(m: Map<K, nat>, k: K) -> nat {
    if m.dom().contains(k) {
        m[k]
    } else {
        0
    }
}

/// The sum of all amounts held in the finite map `m`.
pub open spec fn sum_of<K>(m: Map<K, nat>) -> nat
    decreases m.dom().len(),
    when m.dom().finite()
    via sum_of_decreases::<K>
{
    if m.dom().len() == 0 {
        0
    } else {
        let k = m.dom().choose();
        m[k] + sum_of(m.remove(k))
    }
}

#[via_fn]
proof fn sum_of_decreases<K>(m: Map<K, nat>) {
    if m.dom().len() != 0 {
        let k = m.dom().choose();
        assert(m.dom().contains(k)) by {
            if m.dom() =~= Set::empty() {
                assert(m.dom().len() == 0);
            }
        }
        assert(m.remove(k).dom() =~= m.dom().remove(k));
    }
}

/// The empty map sums to zero.
pub proof fn lemma_sum_of_empty<K>()
    ensures
        sum_of(Map::<K, nat>::empty()) == 0,
{
    assert(Map::<K, nat>::empty().dom() =~= Set::empty());
}

/// Any one entry can be split off the sum.
pub proof fn lemma_sum_of_remove<K>(m: Map<K, nat>, k: K)
    requires
        m.dom().finite(),
        m.dom().contains(k),
    ensures
        sum_of(m) == m[k] + sum_of(m.remove(k)),
    decreases m.dom().len(),
{
    assert(m.dom().len() != 0) by {
        if m.dom().len() == 0 {
            assert(m.dom() =~= Set::empty());
        }
    }
    let c = m.dom().choose();
    assert(m.dom().contains(c));
    if c != k {
        let rest = m.remove(c);
        assert(rest.dom() =~= m.dom().remove(c));
        lemma_sum_of_remove(rest, k);
        let other = m.remove(k);
        assert(other.dom() =~= m.dom().remove(k));
        lemma_sum_of_remove(other, c);
        assert(rest.remove(k) =~= other.remove(c));
    }
}

/// Writing `v` at `k` replaces whatever `k` held before in the sum.
pub proof fn lemma_sum_of_insert<K>(m: Map<K, nat>, k: K, v: nat)
    requires
        m.dom().finite(),
    ensures
        m.insert(k, v).dom().finite(),
        sum_of(m.insert(k, v)) + amount_of(m, k) == sum_of(m) + v,
{
    let after = m.insert(k, v);
    assert(after.dom() =~= m.dom().insert(k));
    lemma_sum_of_remove(after, k);
    if m.dom().contains(k) {
        lemma_sum_of_remove(m, k);
        assert(after.remove(k) =~= m.remove(k));
    } else {
        assert(after.remove(k) =~= m);
    }
}

/// No single amount exceeds the sum.
pub proof fn lemma_sum_of_bounds_one<K>(m: Map<K, nat>, k: K)
    requires
        m.dom().finite(),
    ensures
        amount_of(m, k) <= sum_of(m),
{
    if m.dom().contains(k) {
        lemma_sum_of_remove(m, k);
    }
}

/// The sum, over the keys listed in `keys`, of the amounts that `m` holds
/// for them.
pub open spec fn sum_over<K>(keys: Seq<K>, m: Map<K, nat>) -> nat
    decreases keys.len(),
{
    if keys.len() == 0 {
        0
    } else {
        sum_over(keys.drop_last(), m) + amount_of(m, keys.last())
    }
}

/// A map in which every amount is zero sums to zero.
proof fn lemma_sum_of_zeros<K>(m: Map<K, nat>)
    requires
        m.dom().finite(),
        forall|k: K| m.dom().contains(k) ==> m[k] == 0,
    ensures
        sum_of(m) == 0,
    decreases m.dom().len(),
{
    if m.dom().len() != 0 {
        let k = m.dom().choose();
        assert(m.dom().contains(k)) by {
            if m.dom() =~= Set::empty() {
                assert(m.dom().len() == 0);
            }
        }
        assert(m.remove(k).dom() =~= m.dom().remove(k));
        lemma_sum_of_zeros(m.remove(k));
    }
}

/// Two maps that hold the same amount for every listed key give the same
/// sum over the list.
proof fn lemma_sum_over_agrees<K>(keys: Seq<K>, m1: Map<K, nat>, m2: Map<K, nat>)
    requires
        forall|i: int| 0 <= i < keys.len() ==> amount_of(m1, keys[i]) == amount_of(m2, keys[i]),
    ensures
        sum_over(keys, m1) == sum_over(keys, m2),
    decreases keys.len(),
{
    if keys.len() != 0 {
        let front = keys.drop_last();
        assert forall|i: int| 0 <= i < front.len() implies amount_of(m1, front[i]) == amount_of(
            m2,
            front[i],
        ) by {
            assert(front[i] == keys[i]);
        }
        lemma_sum_over_agrees(front, m1, m2);
    }
}

/// The sum of a finite map is the sum over any list of keys that names no
/// key twice and names every key that holds more than zero.
pub proof fn lemma_sum_of_is_sum_over<K>(m: Map<K, nat>, keys: Seq<K>)
    requires
        m.dom().finite(),
        keys.no_duplicates(),
        forall|k: K| amount_of(m, k) > 0 ==> keys.contains(k),
    ensures
        sum_of(m) == sum_over(keys, m),
    decreases keys.len(),
{
    if keys.len() == 0 {
        assert forall|k: K| m.dom().contains(k) implies m[k] == 0 by {
            if m[k] > 0 {
                assert(amount_of(m, k) > 0);
                assert(keys.contains(k));
            }
        }
        lemma_sum_of_zeros(m);
    } else {
        let front = keys.drop_last();
        let last = keys.last();
        let rest = m.remove(last);
        assert(rest.dom() =~= m.dom().remove(last));
        assert forall|i: int| 0 <= i < front.len() implies front[i] != last && front[i]
            == keys[i] by {
            assert(keys[i] != keys[keys.len() - 1]);
        }
        assert(front.no_duplicates()) by {
            assert forall|i: int, j: int| 0 <= i < front.len() && 0 <= j < front.len() && i
                != j implies front[i] != front[j] by {
                assert(keys[i] != keys[j]);
            }
        }
        assert forall|k: K| amount_of(rest, k) > 0 implies front.contains(k) by {
            assert(amount_of(m, k) > 0);
            assert(keys.contains(k));
            let i = choose|i: int| 0 <= i < keys.len() && keys[i] == k;
            assert(k != last);
            assert(front[i] == k);
        }
        lemma_sum_of_is_sum_over(rest, front);
        assert forall|i: int| 0 <= i < front.len() implies amount_of(rest, front[i])
            == amount_of(m, front[i]) by {}
        lemma_sum_over_agrees(front, rest, m);
        if m.dom().contains(last) {
            lemma_sum_of_remove(m, last);
        } else {
            assert(rest =~= m);
        }
    }
}

} // verus!
