//! Byte sequences in ascending order without repeats.

use vstd::prelude::*;

verus! {

/// The bytes 0, 1, .. `n - 1`.
pub open spec fn bytes_below(n: int) -> Seq<u8> {
    Seq::new(n as nat, |i: int| i as u8)
}

/// The bytes below `n` that `keep` accepts, in ascending order.
pub open spec fn ascending_where(n: int, keep: spec_fn(u8) -> bool) -> Seq<u8> {
    bytes_below(n).filter(keep)
}

/// Every element is smaller than the one after it.
pub open spec fn strictly_ascending(s: Seq<u8>) -> bool {
    forall|i: int, j: int| 0 <= i < j < s.len() ==> s[i] < s[j]
}

/// The distinct bytes of `pool` in ascending order: what sorting `pool` and
/// dropping the repeats gives.
pub open spec fn distinct_sorted(pool: Seq<u8>) -> Seq<u8> {
    ascending_where(256, |b: u8| pool.contains(b))
}

/// `ascending_where(n, keep)` grows by at most the byte `n` when `n` does.
pub proof fn lemma_ascending_where_step(n: int, keep: spec_fn(u8) -> bool)
    requires
        0 <= n < 256,
    ensures
        ascending_where(n + 1, keep) == if keep(n as u8) {
            ascending_where(n, keep).push(n as u8)
        } else {
            ascending_where(n, keep)
        },
{
    assert(bytes_below(n + 1) =~= bytes_below(n).push(n as u8));
    bytes_below(n).lemma_filter_push(n as u8, keep);
}

/// `ascending_where(n, keep)` is strictly ascending and holds exactly the
/// bytes below `n` that `keep` accepts.
pub proof fn lemma_ascending_where(n: int, keep: spec_fn(u8) -> bool)
    requires
        0 <= n <= 256,
    ensures
        strictly_ascending(ascending_where(n, keep)),
        ascending_where(n, keep).len() <= n,
        forall|b: u8| #[trigger] ascending_where(n, keep).contains(b) <==> (b < n && keep(b)),
    decreases n,
{
    let found = ascending_where(n, keep);
    if n == 0 {
        assert(bytes_below(0) =~= Seq::<u8>::empty());
        reveal(Seq::filter);
        assert(found =~= Seq::<u8>::empty());
    } else {
        let before = ascending_where(n - 1, keep);
        let top = (n - 1) as u8;
        lemma_ascending_where(n - 1, keep);
        lemma_ascending_where_step(n - 1, keep);
        assert forall|i: int| 0 <= i < before.len() implies before[i] < n - 1 by {
            assert(before.contains(before[i]));
        }
        assert forall|b: u8| #[trigger] found.contains(b) <==> (b < n && keep(b)) by {
            if keep(top) {
                if found.contains(b) {
                    let i = choose|i: int| 0 <= i < found.len() && found[i] == b;
                    if i < before.len() {
                        assert(before.contains(before[i]));
                    }
                }
                if b < n && keep(b) {
                    if b == top {
                        assert(found[found.len() - 1] == b);
                    } else {
                        assert(before.contains(b));
                        let i = choose|i: int| 0 <= i < before.len() && before[i] == b;
                        assert(found[i] == b);
                    }
                }
            }
        }
    }
}

/// What `distinct_sorted` promises: ascending order, no repeats, and the same
/// bytes as the pool.
pub proof fn lemma_distinct_sorted(pool: Seq<u8>)
    ensures
        strictly_ascending(distinct_sorted(pool)),
        distinct_sorted(pool).len() <= 256,
        forall|b: u8| #[trigger] distinct_sorted(pool).contains(b) <==> pool.contains(b),
        pool.len() > 0 ==> distinct_sorted(pool).len() > 0,
{
    lemma_ascending_where(256, |b: u8| pool.contains(b));
    if pool.len() > 0 {
        assert(pool.contains(pool[0]));
        assert(distinct_sorted(pool).contains(pool[0]));
    }
}

/// The strictly ascending sequence with the bytes of `pool` is
/// `distinct_sorted(pool)` and no other.
pub proof fn lemma_distinct_sorted_unique(pool: Seq<u8>, other: Seq<u8>)
    requires
        strictly_ascending(other),
        forall|b: u8|
            #![trigger other.contains(b)]
            #![trigger pool.contains(b)]
            other.contains(b) <==> pool.contains(b),
    ensures
        other == distinct_sorted(pool),
{
    lemma_distinct_sorted(pool);
    lemma_same_members_same_sequence(other, distinct_sorted(pool));
}

/// Two strictly ascending sequences with the same members are equal.
pub proof fn lemma_same_members_same_sequence(a: Seq<u8>, b: Seq<u8>)
    requires
        strictly_ascending(a),
        strictly_ascending(b),
        forall|x: u8|
            #![trigger a.contains(x)]
            #![trigger b.contains(x)]
            a.contains(x) <==> b.contains(x),
    ensures
        a == b,
    decreases a.len(),
{
    if a.len() == 0 {
        if b.len() > 0 {
            assert(b.contains(b[0]));
        }
        assert(a =~= b);
    } else {
        assert(a.contains(a.last()));
        assert(b.len() > 0);
        assert(b.contains(b.last()));
        // The largest members agree.
        let i = choose|i: int| 0 <= i < b.len() && b[i] == a.last();
        let j = choose|j: int| 0 <= j < a.len() && a[j] == b.last();
        assert(a.last() == b.last());
        let a_rest = a.drop_last();
        let b_rest = b.drop_last();
        assert forall|x: u8|
            #![trigger a_rest.contains(x)]
            #![trigger b_rest.contains(x)]
            a_rest.contains(x) <==> b_rest.contains(x) by {
            if a_rest.contains(x) {
                let k = choose|k: int| 0 <= k < a_rest.len() && a_rest[k] == x;
                assert(a[k] == x);
                assert(a.contains(x));
                let m = choose|m: int| 0 <= m < b.len() && b[m] == x;
                assert(m < b.len() - 1);
                assert(b_rest[m] == x);
            }
            if b_rest.contains(x) {
                let k = choose|k: int| 0 <= k < b_rest.len() && b_rest[k] == x;
                assert(b[k] == x);
                assert(b.contains(x));
                let m = choose|m: int| 0 <= m < a.len() && a[m] == x;
                assert(m < a.len() - 1);
                assert(a_rest[m] == x);
            }
        }
        lemma_same_members_same_sequence(a_rest, b_rest);
        assert(a =~= a_rest.push(a.last()));
        assert(b =~= b_rest.push(b.last()));
    }
}

/// Sorts the bytes of `pool` and drops the repeats.
pub fn sort_dedup(pool: &Vec<u8>) -> (alphabet: Vec<u8>)
    ensures
        alphabet@ == distinct_sorted(pool@),
{
    let mut seen: Vec<bool> = Vec::new();
    let mut n: usize = 0;
    while n < 256
        invariant
            n <= 256,
            seen@.len() == n,
            forall|b: int| 0 <= b < n ==> !seen@[b],
        decreases 256 - n,
    {
        seen.push(false);
        n = n + 1;
    }
    let mut i: usize = 0;
    while i < pool.len()
        invariant
            i <= pool@.len(),
            seen@.len() == 256,
            forall|b: u8| #[trigger] seen@[b as int] <==> pool@.take(i as int).contains(b),
        decreases pool@.len() - i,
    {
        let byte = pool[i];
        seen.set(byte as usize, true);
        proof {
            assert(pool@.take(i + 1) =~= pool@.take(i as int).push(byte));
            assert forall|b: u8| #[trigger]
                seen@[b as int] <==> pool@.take(i + 1).contains(b) by {
                let shorter = pool@.take(i as int);
                let longer = pool@.take(i + 1);
                if b == byte {
                    assert(longer[i as int] == b);
                } else {
                    if shorter.contains(b) {
                        let k = choose|k: int| 0 <= k < shorter.len() && shorter[k] == b;
                        assert(longer[k] == b);
                    }
                    if longer.contains(b) {
                        let k = choose|k: int| 0 <= k < longer.len() && longer[k] == b;
                        assert(shorter[k] == b);
                    }
                }
            }
        }
        i = i + 1;
    }
    proof {
        assert(pool@.take(pool@.len() as int) =~= pool@);
    }
    let ghost keep = |b: u8| pool@.contains(b);
    let mut alphabet: Vec<u8> = Vec::new();
    let mut b: usize = 0;
    proof {
        assert(bytes_below(0) =~= Seq::<u8>::empty());
        reveal(Seq::filter);
    }
    while b < 256
        invariant
            b <= 256,
            seen@.len() == 256,
            forall|x: u8| #[trigger] seen@[x as int] <==> pool@.contains(x),
            keep == (|x: u8| pool@.contains(x)),
            alphabet@ == ascending_where(b as int, keep),
        decreases 256 - b,
    {
        proof {
            lemma_ascending_where_step(b as int, keep);
            assert(seen@[(b as u8) as int] <==> pool@.contains(b as u8));
        }
        if seen[b] {
            alphabet.push(b as u8);
        }
        b = b + 1;
    }
    alphabet
}

} // verus!
