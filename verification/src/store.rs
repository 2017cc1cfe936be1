//! Sparse key-value stores for the ledger's two mappings.
//!
//! Each mapping is a vector of `(key, value)` entries with pairwise-distinct
//! keys; a key that is absent reads as zero. Two flavors are spelled out: one
//! keyed by a single account (balances) and one keyed by an `(owner, spender)`
//! pair (allowances).

use crate::account::AccountId;
use crate::account::Balance;
use vstd::pervasive::VecAdditionalExecFns;
use vstd::prelude::*;

verus! {

// ------------------------------------------------------------------
// Balances: entries keyed by one account.
// ------------------------------------------------------------------

/// No two entries share a key.
pub open spec fn balance_keys_distinct(s: Seq<(AccountId, Balance)>) -> bool {
    forall|i: int, j: int| 0 <= i < j < s.len() ==> s[i].0 != s[j].0
}

/// The value stored under `key`, or zero when `key` is absent.
pub open spec fn balance_lookup(s: Seq<(AccountId, Balance)>, key: AccountId) -> Balance
    decreases s.len(),
{
    if s.len() == 0 {
        0
    } else if s.last().0 == key {
        s.last().1
    } else {
        balance_lookup(s.drop_last(), key)
    }
}

/// The sum of all stored values.
pub open spec fn sum_balances(s: Seq<(AccountId, Balance)>) -> int
    decreases s.len(),
{
    if s.len() == 0 {
        0
    } else {
        sum_balances(s.drop_last()) + s.last().1
    }
}

pub(crate) proof fn lemma_sum_balances_nonneg(s: Seq<(AccountId, Balance)>)
    ensures
        sum_balances(s) >= 0,
    decreases s.len(),
{
    if s.len() > 0 {
        lemma_sum_balances_nonneg(s.drop_last());
    }
}

/// A single stored value never exceeds the sum of all of them.
pub(crate) proof fn lemma_balance_lookup_le_sum(s: Seq<(AccountId, Balance)>, key: AccountId)
    ensures
        balance_lookup(s, key) <= sum_balances(s),
    decreases s.len(),
{
    if s.len() > 0 {
        lemma_sum_balances_nonneg(s.drop_last());
        lemma_balance_lookup_le_sum(s.drop_last(), key);
    }
}

pub(crate) proof fn lemma_balance_keys_distinct_drop_last(s: Seq<(AccountId, Balance)>)
    requires
        balance_keys_distinct(s),
        s.len() > 0,
    ensures
        balance_keys_distinct(s.drop_last()),
{
    assert forall|i: int, j: int|
        0 <= i < j < s.drop_last().len() implies s.drop_last()[i].0 != s.drop_last()[j].0 by {
        assert(s.drop_last()[i] == s[i] && s.drop_last()[j] == s[j]);
    }
}

/// With distinct keys, the lookup of an entry's key returns that entry's value.
pub(crate) proof fn lemma_balance_lookup_at(s: Seq<(AccountId, Balance)>, i: int)
    requires
        balance_keys_distinct(s),
        0 <= i < s.len(),
    ensures
        balance_lookup(s, s[i].0) == s[i].1,
    decreases s.len(),
{
    if i < s.len() - 1 {
        assert(s.last().0 != s[i].0);
        lemma_balance_keys_distinct_drop_last(s);
        assert(s.drop_last()[i] == s[i]);
        lemma_balance_lookup_at(s.drop_last(), i);
    }
}

/// A key held by no entry looks up to zero.
pub(crate) proof fn lemma_balance_lookup_absent(s: Seq<(AccountId, Balance)>, key: AccountId)
    requires
        forall|j: int| 0 <= j < s.len() ==> s[j].0 != key,
    ensures
        balance_lookup(s, key) == 0,
    decreases s.len(),
{
    if s.len() > 0 {
        assert forall|j: int|
            0 <= j < s.drop_last().len() implies s.drop_last()[j].0 != key by {
            assert(s.drop_last()[j] == s[j]);
        }
        lemma_balance_lookup_absent(s.drop_last(), key);
    }
}

/// Overwriting the entry at `i` changes exactly that key's lookup, and shifts
/// the sum by the difference.
pub(crate) proof fn lemma_balance_update(
    s: Seq<(AccountId, Balance)>,
    i: int,
    key: AccountId,
    value: Balance,
)
    requires
        balance_keys_distinct(s),
        0 <= i < s.len(),
        s[i].0 == key,
    ensures
        balance_keys_distinct(s.update(i, (key, value))),
        balance_lookup(s.update(i, (key, value)), key) == value,
        forall|a: AccountId|
            a != key ==> balance_lookup(s.update(i, (key, value)), a) == balance_lookup(s, a),
        sum_balances(s.update(i, (key, value))) == sum_balances(s) - s[i].1 + value,
    decreases s.len(),
{
    let t = s.update(i, (key, value));
    assert forall|x: int, y: int| 0 <= x < y < t.len() implies t[x].0 != t[y].0 by {
        assert(t[x].0 == s[x].0 && t[y].0 == s[y].0);
    }
    if i == s.len() - 1 {
        assert(t.drop_last() =~= s.drop_last());
        assert(t.last() == (key, value));
        assert forall|a: AccountId|
            a != key implies balance_lookup(t, a) == balance_lookup(s, a) by {
            assert(balance_lookup(t, a) == balance_lookup(t.drop_last(), a));
            assert(balance_lookup(s, a) == balance_lookup(s.drop_last(), a));
        }
        assert(sum_balances(t) == sum_balances(t.drop_last()) + value);
        assert(sum_balances(s) == sum_balances(s.drop_last()) + s[i].1);
    } else {
        assert(t.last() == s.last());
        assert(t.drop_last() =~= s.drop_last().update(i, (key, value)));
        lemma_balance_keys_distinct_drop_last(s);
        assert(s.drop_last()[i] == s[i]);
        lemma_balance_update(s.drop_last(), i, key, value);
        assert(s.last().0 != key);
        assert(balance_lookup(t, key) == balance_lookup(t.drop_last(), key));
        assert forall|a: AccountId|
            a != key implies balance_lookup(t, a) == balance_lookup(s, a) by {
            if s.last().0 != a {
                assert(balance_lookup(t, a) == balance_lookup(t.drop_last(), a));
                assert(balance_lookup(s, a) == balance_lookup(s.drop_last(), a));
            }
        }
        assert(sum_balances(t) == sum_balances(t.drop_last()) + t.last().1);
        assert(sum_balances(s) == sum_balances(s.drop_last()) + s.last().1);
    }
}

/// Appending a fresh key leaves every other lookup alone and adds its value
/// to the sum.
pub(crate) proof fn lemma_balance_push(s: Seq<(AccountId, Balance)>, key: AccountId, value: Balance)
    requires
        balance_keys_distinct(s),
        forall|j: int| 0 <= j < s.len() ==> s[j].0 != key,
    ensures
        balance_keys_distinct(s.push((key, value))),
        balance_lookup(s.push((key, value)), key) == value,
        forall|a: AccountId|
            a != key ==> balance_lookup(s.push((key, value)), a) == balance_lookup(s, a),
        sum_balances(s.push((key, value))) == sum_balances(s) + value,
        balance_lookup(s, key) == 0,
{
    let t = s.push((key, value));
    assert(t.drop_last() =~= s);
    lemma_balance_lookup_absent(s, key);
    assert forall|x: int, y: int| 0 <= x < y < t.len() implies t[x].0 != t[y].0 by {
        assert(t[x] == s[x]);
        if y < s.len() {
            assert(t[y] == s[y]);
        }
    }
    assert forall|a: AccountId|
        a != key implies balance_lookup(t, a) == balance_lookup(s, a) by {
        assert(balance_lookup(t, a) == balance_lookup(t.drop_last(), a));
    }
    assert(sum_balances(t) == sum_balances(t.drop_last()) + value);
}

/// Reads the value stored under `key`, or zero when `key` is absent.
pub fn balance_get(entries: &Vec<(AccountId, Balance)>, key: AccountId) -> (r: Balance)
    requires
        balance_keys_distinct(entries@),
    ensures
        r == balance_lookup(entries@, key),
{
    let n: usize = entries.len();
    let mut i: usize = 0;
    while i < n
        invariant
            n == entries@.len(),
            i <= n,
            balance_keys_distinct(entries@),
            forall|j: int| 0 <= j < i ==> entries@[j].0 != key,
        decreases n - i,
    {
        if entries[i].0 == key {
            proof {
                lemma_balance_lookup_at(entries@, i as int);
            }
            return entries[i].1;
        }
        i = i + 1;
    }
    proof {
        lemma_balance_lookup_absent(entries@, key);
    }
    0
}

/// Stores `value` under `key`, overwriting the entry that holds `key` or
/// appending a fresh one.
pub fn balance_set(entries: &mut Vec<(AccountId, Balance)>, key: AccountId, value: Balance)
    requires
        balance_keys_distinct(old(entries)@),
    ensures
        balance_keys_distinct(final(entries)@),
        balance_lookup(final(entries)@, key) == value,
        forall|a: AccountId|
            a != key ==> balance_lookup(final(entries)@, a) == balance_lookup(old(entries)@, a),
        sum_balances(final(entries)@)
            == sum_balances(old(entries)@) - balance_lookup(old(entries)@, key) + value,
{
    let n: usize = entries.len();
    let mut i: usize = 0;
    while i < n
        invariant
            entries@ == old(entries)@,
            n == entries@.len(),
            i <= n,
            balance_keys_distinct(entries@),
            forall|j: int| 0 <= j < i ==> entries@[j].0 != key,
        decreases n - i,
    {
        if entries[i].0 == key {
            proof {
                lemma_balance_lookup_at(entries@, i as int);
                lemma_balance_update(entries@, i as int, key, value);
            }
            entries.set(i, (key, value));
            return;
        }
        i = i + 1;
    }
    proof {
        lemma_balance_push(entries@, key, value);
    }
    entries.push((key, value));
}

// ------------------------------------------------------------------
// Allowances: entries keyed by an (owner, spender) pair.
// ------------------------------------------------------------------

/// No two entries share a key pair.
pub open spec fn allowance_keys_distinct(s: Seq<((AccountId, AccountId), Balance)>) -> bool {
    forall|i: int, j: int| 0 <= i < j < s.len() ==> s[i].0 != s[j].0
}

/// The value stored under `key`, or zero when `key` is absent.
pub open spec fn allowance_lookup(
    s: Seq<((AccountId, AccountId), Balance)>,
    key: (AccountId, AccountId),
) -> Balance
    decreases s.len(),
{
    if s.len() == 0 {
        0
    } else if s.last().0 == key {
        s.last().1
    } else {
        allowance_lookup(s.drop_last(), key)
    }
}

/// The sum of all stored values.
pub open spec fn sum_allowances(s: Seq<((AccountId, AccountId), Balance)>) -> int
    decreases s.len(),
{
    if s.len() == 0 {
        0
    } else {
        sum_allowances(s.drop_last()) + s.last().1
    }
}

pub(crate) proof fn lemma_sum_allowances_nonneg(s: Seq<((AccountId, AccountId), Balance)>)
    ensures
        sum_allowances(s) >= 0,
    decreases s.len(),
{
    if s.len() > 0 {
        lemma_sum_allowances_nonneg(s.drop_last());
    }
}

/// A single stored value never exceeds the sum of all of them.
pub(crate) proof fn lemma_allowance_lookup_le_sum(
    s: Seq<((AccountId, AccountId), Balance)>,
    key: (AccountId, AccountId),
)
    ensures
        allowance_lookup(s, key) <= sum_allowances(s),
    decreases s.len(),
{
    if s.len() > 0 {
        lemma_sum_allowances_nonneg(s.drop_last());
        lemma_allowance_lookup_le_sum(s.drop_last(), key);
    }
}

pub(crate) proof fn lemma_allowance_keys_distinct_drop_last(
    s: Seq<((AccountId, AccountId), Balance)>,
)
    requires
        allowance_keys_distinct(s),
        s.len() > 0,
    ensures
        allowance_keys_distinct(s.drop_last()),
{
    assert forall|i: int, j: int|
        0 <= i < j < s.drop_last().len() implies s.drop_last()[i].0 != s.drop_last()[j].0 by {
        assert(s.drop_last()[i] == s[i] && s.drop_last()[j] == s[j]);
    }
}

/// With distinct keys, the lookup of an entry's key returns that entry's value.
pub(crate) proof fn lemma_allowance_lookup_at(s: Seq<((AccountId, AccountId), Balance)>, i: int)
    requires
        allowance_keys_distinct(s),
        0 <= i < s.len(),
    ensures
        allowance_lookup(s, s[i].0) == s[i].1,
    decreases s.len(),
{
    if i < s.len() - 1 {
        assert(s.last().0 != s[i].0);
        lemma_allowance_keys_distinct_drop_last(s);
        assert(s.drop_last()[i] == s[i]);
        lemma_allowance_lookup_at(s.drop_last(), i);
    }
}

/// A key held by no entry looks up to zero.
pub(crate) proof fn lemma_allowance_lookup_absent(
    s: Seq<((AccountId, AccountId), Balance)>,
    key: (AccountId, AccountId),
)
    requires
        forall|j: int| 0 <= j < s.len() ==> s[j].0 != key,
    ensures
        allowance_lookup(s, key) == 0,
    decreases s.len(),
{
    if s.len() > 0 {
        assert forall|j: int|
            0 <= j < s.drop_last().len() implies s.drop_last()[j].0 != key by {
            assert(s.drop_last()[j] == s[j]);
        }
        lemma_allowance_lookup_absent(s.drop_last(), key);
    }
}

/// Overwriting the entry at `i` changes exactly that key's lookup, and shifts
/// the sum by the difference.
pub(crate) proof fn lemma_allowance_update(
    s: Seq<((AccountId, AccountId), Balance)>,
    i: int,
    key: (AccountId, AccountId),
    value: Balance,
)
    requires
        allowance_keys_distinct(s),
        0 <= i < s.len(),
        s[i].0 == key,
    ensures
        allowance_keys_distinct(s.update(i, (key, value))),
        allowance_lookup(s.update(i, (key, value)), key) == value,
        forall|a: (AccountId, AccountId)|
            a != key ==> allowance_lookup(s.update(i, (key, value)), a) == allowance_lookup(s, a),
        sum_allowances(s.update(i, (key, value))) == sum_allowances(s) - s[i].1 + value,
    decreases s.len(),
{
    let t = s.update(i, (key, value));
    assert forall|x: int, y: int| 0 <= x < y < t.len() implies t[x].0 != t[y].0 by {
        assert(t[x].0 == s[x].0 && t[y].0 == s[y].0);
    }
    if i == s.len() - 1 {
        assert(t.drop_last() =~= s.drop_last());
        assert(t.last() == (key, value));
        assert forall|a: (AccountId, AccountId)|
            a != key implies allowance_lookup(t, a) == allowance_lookup(s, a) by {
            assert(allowance_lookup(t, a) == allowance_lookup(t.drop_last(), a));
            assert(allowance_lookup(s, a) == allowance_lookup(s.drop_last(), a));
        }
        assert(sum_allowances(t) == sum_allowances(t.drop_last()) + value);
        assert(sum_allowances(s) == sum_allowances(s.drop_last()) + s[i].1);
    } else {
        assert(t.last() == s.last());
        assert(t.drop_last() =~= s.drop_last().update(i, (key, value)));
        lemma_allowance_keys_distinct_drop_last(s);
        assert(s.drop_last()[i] == s[i]);
        lemma_allowance_update(s.drop_last(), i, key, value);
        assert(s.last().0 != key);
        assert(allowance_lookup(t, key) == allowance_lookup(t.drop_last(), key));
        assert forall|a: (AccountId, AccountId)|
            a != key implies allowance_lookup(t, a) == allowance_lookup(s, a) by {
            if s.last().0 != a {
                assert(allowance_lookup(t, a) == allowance_lookup(t.drop_last(), a));
                assert(allowance_lookup(s, a) == allowance_lookup(s.drop_last(), a));
            }
        }
        assert(sum_allowances(t) == sum_allowances(t.drop_last()) + t.last().1);
        assert(sum_allowances(s) == sum_allowances(s.drop_last()) + s.last().1);
    }
}

/// Appending a fresh key leaves every other lookup alone and adds its value
/// to the sum.
pub(crate) proof fn lemma_allowance_push(
    s: Seq<((AccountId, AccountId), Balance)>,
    key: (AccountId, AccountId),
    value: Balance,
)
    requires
        allowance_keys_distinct(s),
        forall|j: int| 0 <= j < s.len() ==> s[j].0 != key,
    ensures
        allowance_keys_distinct(s.push((key, value))),
        allowance_lookup(s.push((key, value)), key) == value,
        forall|a: (AccountId, AccountId)|
            a != key ==> allowance_lookup(s.push((key, value)), a) == allowance_lookup(s, a),
        sum_allowances(s.push((key, value))) == sum_allowances(s) + value,
        allowance_lookup(s, key) == 0,
{
    let t = s.push((key, value));
    assert(t.drop_last() =~= s);
    lemma_allowance_lookup_absent(s, key);
    assert forall|x: int, y: int| 0 <= x < y < t.len() implies t[x].0 != t[y].0 by {
        assert(t[x] == s[x]);
        if y < s.len() {
            assert(t[y] == s[y]);
        }
    }
    assert forall|a: (AccountId, AccountId)|
        a != key implies allowance_lookup(t, a) == allowance_lookup(s, a) by {
        assert(allowance_lookup(t, a) == allowance_lookup(t.drop_last(), a));
    }
    assert(sum_allowances(t) == sum_allowances(t.drop_last()) + value);
}

/// Reads the value stored under `key`, or zero when `key` is absent.
pub fn allowance_get(
    entries: &Vec<((AccountId, AccountId), Balance)>,
    key: (AccountId, AccountId),
) -> (r: Balance)
    requires
        allowance_keys_distinct(entries@),
    ensures
        r == allowance_lookup(entries@, key),
{
    let n: usize = entries.len();
    let mut i: usize = 0;
    while i < n
        invariant
            n == entries@.len(),
            i <= n,
            allowance_keys_distinct(entries@),
            forall|j: int| 0 <= j < i ==> entries@[j].0 != key,
        decreases n - i,
    {
        if entries[i].0.0 == key.0 && entries[i].0.1 == key.1 {
            proof {
                lemma_allowance_lookup_at(entries@, i as int);
            }
            return entries[i].1;
        }
        i = i + 1;
    }
    proof {
        lemma_allowance_lookup_absent(entries@, key);
    }
    0
}

/// Stores `value` under `key`, overwriting the entry that holds `key` or
/// appending a fresh one.
pub fn allowance_set(
    entries: &mut Vec<((AccountId, AccountId), Balance)>,
    key: (AccountId, AccountId),
    value: Balance,
)
    requires
        allowance_keys_distinct(old(entries)@),
    ensures
        allowance_keys_distinct(final(entries)@),
        allowance_lookup(final(entries)@, key) == value,
        forall|a: (AccountId, AccountId)|
            a != key ==> allowance_lookup(final(entries)@, a) == allowance_lookup(old(entries)@, a),
        sum_allowances(final(entries)@)
            == sum_allowances(old(entries)@) - allowance_lookup(old(entries)@, key) + value,
{
    let n: usize = entries.len();
    let mut i: usize = 0;
    while i < n
        invariant
            entries@ == old(entries)@,
            n == entries@.len(),
            i <= n,
            allowance_keys_distinct(entries@),
            forall|j: int| 0 <= j < i ==> entries@[j].0 != key,
        decreases n - i,
    {
        if entries[i].0.0 == key.0 && entries[i].0.1 == key.1 {
            proof {
                lemma_allowance_lookup_at(entries@, i as int);
                lemma_allowance_update(entries@, i as int, key, value);
            }
            entries.set(i, (key, value));
            return;
        }
        i = i + 1;
    }
    proof {
        lemma_allowance_push(entries@, key, value);
    }
    entries.push((key, value));
}

} // verus!
