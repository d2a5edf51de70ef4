//! Taking what was dealt with out of a list that others may have added to meanwhile.
use vstd::prelude::*;

verus! {

/// How often `key` stands among the keys.
pub open spec fn occurrences(keys: Seq<u64>, key: u64) -> nat
    decreases keys.len(),
{
    if keys.len() == 0 {
        0
    } else {
        occurrences(keys.drop_last(), key) + if keys.last() == key {
            1nat
        } else {
            0nat
        }
    }
}

/// How many of the attempts on `key` succeeded: those of which nothing remains.
pub open spec fn successes(attempted: Seq<u64>, remaining: Seq<u64>, key: u64) -> nat {
    if occurrences(attempted, key) > occurrences(remaining, key) {
        (occurrences(attempted, key) - occurrences(remaining, key)) as nat
    } else {
        0
    }
}

/// The items of which the keys are, without the first of each key that succeeded.
pub open spec fn retained<T>(
    items: Seq<T>,
    keys: Seq<u64>,
    attempted: Seq<u64>,
    remaining: Seq<u64>,
) -> Seq<T>
    decreases keys.len(),
{
    if keys.len() == 0 {
        seq![]
    } else {
        let before = retained(items, keys.drop_last(), attempted, remaining);
        if occurrences(keys.drop_last(), keys.last()) < successes(
            attempted,
            remaining,
            keys.last(),
        ) {
            before
        } else {
            before.push(items[keys.len() - 1])
        }
    }
}

fn count(keys: &Vec<u64>, upto: usize, key: u64) -> (r: usize)
    requires
        upto <= keys@.len(),
    ensures
        r == occurrences(keys@.take(upto as int), key),
        r <= upto,
{
    let mut r: usize = 0;
    let mut i: usize = 0;
    while i < upto
        invariant
            0 <= i <= upto <= keys@.len(),
            r == occurrences(keys@.take(i as int), key),
            r <= i,
        decreases upto - i,
    {
        assert(keys@.take(i + 1).drop_last() =~= keys@.take(i as int));
        if keys[i] == key {
            r = r + 1;
        }
        i = i + 1;
    }
    r
}

/// Takes out of `current`, whose keys are `keys`, the first items of each key that succeeded: as
/// many as were attempted and do not remain. Whatever else stands there stays, in its order.
pub fn reconcile_snapshot_occurrences<T>(
    current: &mut Vec<T>,
    keys: &Vec<u64>,
    attempted: &Vec<u64>,
    remaining: &Vec<u64>,
)
    requires
        keys@.len() == old(current)@.len(),
    ensures
        final(current)@ == retained(old(current)@, keys@, attempted@, remaining@),
{
    let ghost all = current@;
    let mut rest: Vec<T> = Vec::new();
    let mut kept: Vec<T> = Vec::new();
    std::mem::swap(&mut rest, current);
    let mut i: usize = 0;
    while i < keys.len()
        invariant
            0 <= i <= keys@.len(),
            keys@.len() == all.len(),
            rest@ == all.skip(i as int),
            kept@ == retained(all, keys@.take(i as int), attempted@, remaining@),
        decreases keys@.len() - i,
    {
        let item = rest.remove(0);
        let key: u64 = keys[i];
        proof {
            assert(item == all[i as int]);
            assert(rest@ =~= all.skip(i + 1));
            assert(keys@.take(i + 1).drop_last() =~= keys@.take(i as int));
            assert(attempted@.take(attempted@.len() as int) =~= attempted@);
            assert(remaining@.take(remaining@.len() as int) =~= remaining@);
        }
        let tried: usize = count(attempted, attempted.len(), key);
        let left: usize = count(remaining, remaining.len(), key);
        let seen: usize = count(keys, i, key);
        let success: usize = if tried > left {
            tried - left
        } else {
            0
        };
        if seen >= success {
            kept.push(item);
        }
        i = i + 1;
    }
    assert(keys@.take(i as int) =~= keys@);
    *current = kept;
}

proof fn lemma_retained_prefix<T>(
    a: Seq<T>,
    b: Seq<T>,
    keys: Seq<u64>,
    attempted: Seq<u64>,
    remaining: Seq<u64>,
)
    requires
        keys.len() <= a.len(),
        keys.len() <= b.len(),
        forall|i: int| 0 <= i < keys.len() ==> a[i] == b[i],
    ensures
        retained(a, keys, attempted, remaining) == retained(b, keys, attempted, remaining),
    decreases keys.len(),
{
    if keys.len() > 0 {
        lemma_retained_prefix(a, b, keys.drop_last(), attempted, remaining);
    }
}

proof fn lemma_count_push(keys: Seq<u64>, last: u64, key: u64)
    ensures
        occurrences(keys.push(last), key) == occurrences(keys, key) + if last == key {
            1nat
        } else {
            0nat
        },
{
    assert(keys.push(last).drop_last() =~= keys);
}

/// Of each key exactly as many items go as succeeded, as far as there are any: an item that was
/// added while the attempts were going on, and one whose attempt failed, stays.
pub proof fn law_reconcile_counts(
    keys: Seq<u64>,
    attempted: Seq<u64>,
    remaining: Seq<u64>,
    key: u64,
)
    ensures
        ({
            let before = occurrences(keys, key);
            let done = successes(attempted, remaining, key);
            occurrences(retained(keys, keys, attempted, remaining), key) == if before > done {
                (before - done) as nat
            } else {
                0
            }
        }),
    decreases keys.len(),
{
    if keys.len() > 0 {
        let front = keys.drop_last();
        law_reconcile_counts(front, attempted, remaining, key);
        lemma_retained_prefix(keys, front, front, attempted, remaining);
        lemma_count_push(
            retained(keys, front, attempted, remaining),
            keys.last(),
            key,
        );
    }
}

/// Where nothing was attempted, nothing goes.
pub proof fn law_nothing_attempted_keeps_all<T>(items: Seq<T>, keys: Seq<u64>, remaining: Seq<u64>)
    requires
        items.len() == keys.len(),
    ensures
        retained(items, keys, seq![], remaining) == items,
    decreases keys.len(),
{
    if keys.len() > 0 {
        law_nothing_attempted_keeps_all(items.drop_last(), keys.drop_last(), remaining);
        lemma_retained_prefix(
            items,
            items.drop_last(),
            keys.drop_last(),
            seq![],
            remaining,
        );
        assert(items =~= items.drop_last().push(items.last()));
    } else {
        assert(items =~= seq![]);
    }
}

} // verus!
