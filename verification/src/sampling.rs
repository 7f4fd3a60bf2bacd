//! The steps of sampling that involve no chance: looking for a class in the
//! buffer, and cutting the buffer back to its length.

use vstd::prelude::*;

verus! {

/// Every byte of `inner` occurs in `outer`.
pub open spec fn within(inner: Seq<u8>, outer: Seq<u8>) -> bool {
    forall|k: int| 0 <= k < inner.len() ==> outer.contains(#[trigger] inner[k])
}

/// Some byte of `set` occurs in `buffer`.
pub open spec fn meets(buffer: Seq<u8>, set: Seq<u8>) -> bool {
    exists|k: int| 0 <= k < set.len() && buffer.contains(#[trigger] set[k])
}

/// The buffer after the sets were gone through in order: a set that the
/// buffer so far does not meet adds its pick to the end. `picks` holds one
/// byte for each set, the byte to add if that set needs one.
pub open spec fn topped_up(buffer: Seq<u8>, sets: Seq<Seq<u8>>, picks: Seq<u8>) -> Seq<u8>
    decreases sets.len(),
{
    if sets.len() == 0 {
        buffer
    } else {
        let before = topped_up(buffer, sets.drop_last(), picks.drop_last());
        if meets(before, sets.last()) {
            before
        } else {
            before.push(picks.last())
        }
    }
}

/// The last `n` elements of `buffer`, or all of it where it has fewer.
pub open spec fn last_n(buffer: Seq<u8>, n: nat) -> Seq<u8> {
    if buffer.len() > n {
        buffer.skip(buffer.len() - n)
    } else {
        buffer
    }
}

/// Tells whether some byte of `set` occurs in `buffer`.
pub fn meets_any(buffer: &Vec<u8>, set: &Vec<u8>) -> (found: bool)
    ensures
        found == meets(buffer@, set@),
{
    let mut k: usize = 0;
    while k < set.len()
        invariant
            k <= set@.len(),
            forall|m: int| 0 <= m < k ==> !buffer@.contains(#[trigger] set@[m]),
        decreases set@.len() - k,
    {
        let wanted = set[k];
        let mut i: usize = 0;
        while i < buffer.len()
            invariant
                i <= buffer@.len(),
                k < set@.len(),
                wanted == set@[k as int],
                forall|n: int| 0 <= n < i ==> buffer@[n] != wanted,
            decreases buffer@.len() - i,
        {
            if buffer[i] == wanted {
                assert(buffer@[i as int] == set@[k as int]);
                return true;
            }
            i = i + 1;
        }
        k = k + 1;
    }
    false
}

/// Keeps the last `n` bytes of `buffer`, or all of it where it has fewer.
pub fn keep_last(buffer: Vec<u8>, n: usize) -> (kept: Vec<u8>)
    ensures
        kept@ == last_n(buffer@, n as nat),
{
    let mut front = buffer;
    if front.len() > n {
        let ghost whole = front@;
        let cut = front.len() - n;
        let kept = front.split_off(cut);
        assert(kept@ =~= last_n(whole, n as nat));
        kept
    } else {
        front
    }
}

/// A buffer that meets a set still meets it when it grows at its end.
pub proof fn lemma_meets_after_push(buffer: Seq<u8>, byte: u8, set: Seq<u8>)
    requires
        meets(buffer, set),
    ensures
        meets(buffer.push(byte), set),
{
    let k = choose|k: int| 0 <= k < set.len() && buffer.contains(#[trigger] set[k]);
    let i = choose|i: int| 0 <= i < buffer.len() && buffer[i] == set[k];
    assert(buffer.push(byte)[i] == set[k]);
}

/// What topping up does to a buffer. It starts with the buffer as it was and
/// adds at most one byte for each set, each of them a pick. Where every pick
/// is a byte of its set, the result meets every set.
pub proof fn lemma_topped_up(buffer: Seq<u8>, sets: Seq<Seq<u8>>, picks: Seq<u8>)
    requires
        picks.len() == sets.len(),
    ensures
        buffer.len() <= topped_up(buffer, sets, picks).len() <= buffer.len() + sets.len(),
        forall|i: int| 0 <= i < buffer.len() ==> topped_up(buffer, sets, picks)[i] == buffer[i],
        forall|i: int|
            buffer.len() <= i < topped_up(buffer, sets, picks).len() ==> picks.contains(
                #[trigger] topped_up(buffer, sets, picks)[i],
            ),
        (forall|j: int| 0 <= j < sets.len() ==> (#[trigger] sets[j]).contains(picks[j]))
            ==> forall|j: int|
            0 <= j < sets.len() ==> meets(topped_up(buffer, sets, picks), #[trigger] sets[j]),
    decreases sets.len(),
{
    if sets.len() > 0 {
        let before = topped_up(buffer, sets.drop_last(), picks.drop_last());
        let after = topped_up(buffer, sets, picks);
        lemma_topped_up(buffer, sets.drop_last(), picks.drop_last());
        assert forall|i: int| buffer.len() <= i < after.len() implies picks.contains(
            #[trigger] after[i],
        ) by {
            if i < before.len() {
                assert(picks.drop_last().contains(before[i]));
                let m = choose|m: int|
                    0 <= m < picks.drop_last().len() && picks.drop_last()[m] == before[i];
                assert(picks[m] == after[i]);
            } else {
                assert(picks[picks.len() - 1] == after[i]);
            }
        }
        if forall|j: int| 0 <= j < sets.len() ==> (#[trigger] sets[j]).contains(picks[j]) {
            assert forall|j: int| 0 <= j < sets.drop_last().len() implies (
            #[trigger] sets.drop_last()[j]).contains(picks.drop_last()[j]) by {
                assert(sets[j].contains(picks[j]));
            }
            assert forall|j: int| 0 <= j < sets.len() implies meets(after, #[trigger] sets[j]) by {
                if j < sets.len() - 1 {
                    assert(meets(before, sets.drop_last()[j]));
                    if !meets(before, sets.last()) {
                        lemma_meets_after_push(before, picks.last(), sets[j]);
                    }
                } else if !meets(before, sets.last()) {
                    assert(sets[j].contains(picks[j]));
                    let k = choose|k: int| 0 <= k < sets[j].len() && sets[j][k] == picks[j];
                    assert(after[after.len() - 1] == sets[j][k]);
                }
            }
        }
    }
}

/// Where topping up made a buffer longer, the first byte added is the pick
/// of a set that the buffer as it was did not meet.
pub proof fn lemma_first_added(buffer: Seq<u8>, sets: Seq<Seq<u8>>, picks: Seq<u8>)
    requires
        picks.len() == sets.len(),
        topped_up(buffer, sets, picks).len() > buffer.len(),
    ensures
        exists|t: int|
            0 <= t < sets.len() && !meets(buffer, #[trigger] sets[t]) && topped_up(
                buffer,
                sets,
                picks,
            )[buffer.len() as int] == picks[t],
    decreases sets.len(),
{
    let before = topped_up(buffer, sets.drop_last(), picks.drop_last());
    let after = topped_up(buffer, sets, picks);
    let last = sets.len() - 1;
    lemma_topped_up(buffer, sets.drop_last(), picks.drop_last());
    if before.len() > buffer.len() {
        lemma_first_added(buffer, sets.drop_last(), picks.drop_last());
        let t = choose|t: int|
            0 <= t < sets.drop_last().len() && !meets(buffer, #[trigger] sets.drop_last()[t])
                && before[buffer.len() as int] == picks.drop_last()[t];
        assert(!meets(buffer, sets[t]) && after[buffer.len() as int] == picks[t]);
    } else {
        assert(before =~= buffer);
        assert(!meets(buffer, sets[last]) && after[buffer.len() as int] == picks[last]);
    }
}

/// Two sequences with the same elements, each as often in the one as in the
/// other, have the same length and the same members.
pub proof fn lemma_reordered(before: Seq<u8>, after: Seq<u8>)
    requires
        after.to_multiset() == before.to_multiset(),
    ensures
        after.len() == before.len(),
        forall|x: u8|
            #![trigger after.contains(x)]
            #![trigger before.contains(x)]
            after.contains(x) <==> before.contains(x),
{
    vstd::seq_lib::to_multiset_len(before);
    vstd::seq_lib::to_multiset_len(after);
    assert forall|x: u8|
        #![trigger after.contains(x)]
        #![trigger before.contains(x)]
        after.contains(x) <==> before.contains(x) by {
        vstd::seq_lib::to_multiset_contains(before, x);
        vstd::seq_lib::to_multiset_contains(after, x);
    }
}

} // verus!
