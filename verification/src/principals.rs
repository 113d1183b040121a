//! A confidant's list of principals: searches, counts and sums.

use vstd::prelude::*;
use crate::state::{distinct_principals, EntrustInfo, Identity};

verus! {

/// Index of the first entry at or after `from` that names `who`; the length
/// of the list if there is none.
pub open spec fn slot_from(s: Seq<EntrustInfo>, who: Identity, from: int) -> int
    decreases s.len() - from,
{
    if from < 0 || from >= s.len() {
        s.len() as int
    } else if s[from].principal == who {
        from
    } else {
        slot_from(s, who, from + 1)
    }
}

/// Index of the first entry that names `who`; the length of the list if no
/// entry does.
pub open spec fn slot_of(s: Seq<EntrustInfo>, who: Identity) -> int {
    slot_from(s, who, 0)
}

/// Index of the first reclaimed entry at or after `from`; the length of the
/// list if there is none.
pub open spec fn vacant_from(s: Seq<EntrustInfo>, from: int) -> int
    decreases s.len() - from,
{
    if from < 0 || from >= s.len() {
        s.len() as int
    } else if s[from].amount == 0 {
        from
    } else {
        vacant_from(s, from + 1)
    }
}

/// Index of the first reclaimed entry; the length of the list if every entry
/// is active.
pub open spec fn vacant_slot(s: Seq<EntrustInfo>) -> int {
    vacant_from(s, 0)
}

/// Number of entries with an amount above zero.
pub open spec fn active_count(s: Seq<EntrustInfo>) -> nat
    decreases s.len(),
{
    if s.len() == 0 {
        0
    } else {
        active_count(s.drop_last()) + if s.last().amount > 0 {
            1nat
        } else {
            0nat
        }
    }
}

/// Sum of the amounts of all entries.
pub open spec fn entrusted_total(s: Seq<EntrustInfo>) -> nat
    decreases s.len(),
{
    if s.len() == 0 {
        0
    } else {
        entrusted_total(s.drop_last()) + s.last().amount as nat
    }
}

/// The list with every entry reclaimed.
pub open spec fn reclaimed(s: Seq<EntrustInfo>) -> Seq<EntrustInfo> {
    Seq::new(s.len(), |i: int| EntrustInfo { principal: s[i].principal, amount: 0 })
}

/// What `slot_from` finds: the first match from `from` on.
pub proof fn lemma_slot_from(s: Seq<EntrustInfo>, who: Identity, from: int)
    requires
        0 <= from <= s.len(),
    ensures
        from <= slot_from(s, who, from) <= s.len(),
        slot_from(s, who, from) < s.len() ==> s[slot_from(s, who, from)].principal == who,
        forall|j: int| from <= j < slot_from(s, who, from) ==> (#[trigger] s[j]).principal != who,
    decreases s.len() - from,
{
    if from < s.len() && s[from].principal != who {
        lemma_slot_from(s, who, from + 1);
    }
}

/// What `vacant_from` finds: the first reclaimed entry from `from` on.
pub proof fn lemma_vacant_from(s: Seq<EntrustInfo>, from: int)
    requires
        0 <= from <= s.len(),
    ensures
        from <= vacant_from(s, from) <= s.len(),
        vacant_from(s, from) < s.len() ==> s[vacant_from(s, from)].amount == 0,
        forall|j: int| from <= j < vacant_from(s, from) ==> (#[trigger] s[j]).amount > 0,
    decreases s.len() - from,
{
    if from < s.len() && s[from].amount != 0 {
        lemma_vacant_from(s, from + 1);
    }
}

/// No list has more active entries than entries; one whose entries are all
/// active has as many.
pub proof fn lemma_active_count(s: Seq<EntrustInfo>)
    ensures
        active_count(s) <= s.len(),
        (forall|j: int| 0 <= j < s.len() ==> (#[trigger] s[j]).amount > 0) ==> active_count(s)
            == s.len(),
    decreases s.len(),
{
    if s.len() > 0 {
        lemma_active_count(s.drop_last());
        assert forall|j: int| 0 <= j < s.drop_last().len() implies #[trigger] s.drop_last()[j]
            == s[j] by {}
    }
}

/// A list with fewer active entries than entries has a reclaimed entry.
pub proof fn lemma_vacant_exists(s: Seq<EntrustInfo>)
    requires
        active_count(s) < s.len(),
    ensures
        0 <= vacant_slot(s) < s.len(),
        s[vacant_slot(s)].amount == 0,
{
    lemma_vacant_from(s, 0);
    lemma_active_count(s);
}

/// The total is at least every single amount.
pub proof fn lemma_entrusted_total_bounds(s: Seq<EntrustInfo>, k: int)
    requires
        0 <= k < s.len(),
    ensures
        s[k].amount <= entrusted_total(s),
    decreases s.len(),
{
    if k < s.len() - 1 {
        lemma_entrusted_total_bounds(s.drop_last(), k);
    }
}

/// Replacing an entry changes the total by the difference of the amounts.
pub proof fn lemma_entrusted_total_update(s: Seq<EntrustInfo>, k: int, entry: EntrustInfo)
    requires
        0 <= k < s.len(),
    ensures
        entrusted_total(s.update(k, entry)) == entrusted_total(s) - s[k].amount + entry.amount,
    decreases s.len(),
{
    if k == s.len() - 1 {
        assert(s.update(k, entry).drop_last() =~= s.drop_last());
    } else {
        lemma_entrusted_total_update(s.drop_last(), k, entry);
        assert(s.update(k, entry).drop_last() =~= s.drop_last().update(k, entry));
    }
}

/// Appending an entry adds its amount to the total.
pub proof fn lemma_entrusted_total_push(s: Seq<EntrustInfo>, entry: EntrustInfo)
    ensures
        entrusted_total(s.push(entry)) == entrusted_total(s) + entry.amount,
{
    assert(s.push(entry).drop_last() =~= s);
}

/// A reclaimed list has no active entry, a total of zero, and names the
/// principals it named before.
pub proof fn lemma_reclaimed(s: Seq<EntrustInfo>)
    ensures
        reclaimed(s).len() == s.len(),
        active_count(reclaimed(s)) == 0,
        entrusted_total(reclaimed(s)) == 0,
        distinct_principals(s) ==> distinct_principals(reclaimed(s)),
    decreases s.len(),
{
    if s.len() > 0 {
        lemma_reclaimed(s.drop_last());
        assert(reclaimed(s).drop_last() =~= reclaimed(s.drop_last()));
    }
}

/// Index of the first entry that names `who`, if any.
pub fn find_principal(principals: &Vec<EntrustInfo>, who: Identity) -> (r: Option<usize>)
    ensures
        match r {
            Some(i) => i < principals.len() && i == slot_of(principals@, who),
            None => slot_of(principals@, who) == principals.len(),
        },
{
    let mut i: usize = 0;
    while i < principals.len()
        invariant
            0 <= i <= principals.len(),
            slot_of(principals@, who) == slot_from(principals@, who, i as int),
        decreases principals.len() - i,
    {
        if principals[i].principal == who {
            return Some(i);
        }
        i = i + 1;
    }
    None
}

/// Index of the first reclaimed entry, if any.
pub fn find_vacant(principals: &Vec<EntrustInfo>) -> (r: Option<usize>)
    ensures
        match r {
            Some(i) => i < principals.len() && i == vacant_slot(principals@),
            None => vacant_slot(principals@) == principals.len(),
        },
{
    let mut i: usize = 0;
    while i < principals.len()
        invariant
            0 <= i <= principals.len(),
            vacant_slot(principals@) == vacant_from(principals@, i as int),
        decreases principals.len() - i,
    {
        if principals[i].amount == 0 {
            return Some(i);
        }
        i = i + 1;
    }
    None
}

/// Number of active entries.
pub fn count_active(principals: &Vec<EntrustInfo>) -> (n: usize)
    ensures
        n == active_count(principals@),
{
    let mut n: usize = 0;
    let mut i: usize = 0;
    while i < principals.len()
        invariant
            0 <= i <= principals.len(),
            n <= i,
            n == active_count(principals@.take(i as int)),
        decreases principals.len() - i,
    {
        assert(principals@.take(i + 1).drop_last() =~= principals@.take(i as int));
        if principals[i].amount > 0 {
            n = n + 1;
        }
        i = i + 1;
    }
    assert(principals@.take(i as int) =~= principals@);
    n
}

/// Sum of the amounts of all entries.
pub fn total_entrusted(principals: &Vec<EntrustInfo>) -> (total: u128)
    ensures
        total == entrusted_total(principals@),
{
    let mut total: u128 = 0;
    let mut i: usize = 0;
    while i < principals.len()
        invariant
            0 <= i <= principals.len(),
            total <= i * 0xFFFF_FFFF_FFFF_FFFF,
            total == entrusted_total(principals@.take(i as int)),
        decreases principals.len() - i,
    {
        assert(principals@.take(i + 1).drop_last() =~= principals@.take(i as int));
        total = total + principals[i].amount as u128;
        i = i + 1;
    }
    assert(principals@.take(i as int) =~= principals@);
    total
}

} // verus!
