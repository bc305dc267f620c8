//! Rankings: positions of a list, largest key first, equal keys in their order.
use vstd::prelude::*;

verus! {

/// Where a key goes into a ranking: before the first position with a smaller key.
pub open spec fn spot(ranking: Seq<int>, keys: Seq<int>, key: int) -> int
    decreases ranking.len(),
{
    if ranking.len() == 0 || keys[ranking[0]] < key {
        0
    } else {
        1 + spot(ranking.skip(1), keys, key)
    }
}

/// The positions of `keys`, largest key first; positions with equal keys keep their
/// order.
pub open spec fn ranking(keys: Seq<int>) -> Seq<int>
    decreases keys.len(),
{
    if keys.len() == 0 {
        Seq::empty()
    } else {
        let before = ranking(keys.drop_last());
        before.insert(spot(before, keys, keys.last()), keys.len() - 1)
    }
}

/// A spot lies in the ranking; the keys before it are no smaller, the one at it is.
proof fn lemma_spot(r: Seq<int>, keys: Seq<int>, key: int)
    ensures
        0 <= spot(r, keys, key) <= r.len(),
        forall|i: int| 0 <= i < spot(r, keys, key) ==> keys[#[trigger] r[i]] >= key,
        spot(r, keys, key) < r.len() ==> keys[r[spot(r, keys, key)]] < key,
    decreases r.len(),
{
    if r.len() > 0 && keys[r[0]] >= key {
        let rest = r.skip(1);
        lemma_spot(rest, keys, key);
        assert forall|i: int| 0 <= i < spot(r, keys, key) implies keys[#[trigger] r[i]] >= key by {
            if i > 0 {
                assert(rest[i - 1] == r[i]);
            }
        }
        if spot(r, keys, key) < r.len() {
            assert(rest[spot(rest, keys, key)] == r[spot(r, keys, key)]);
        }
    }
}

/// A ranking names every position once, in descending order of keys, and equal keys
/// in ascending order of positions.
pub proof fn lemma_ranking(keys: Seq<int>)
    ensures
        ranking(keys).len() == keys.len(),
        forall|i: int| 0 <= i < keys.len() ==> 0 <= #[trigger] ranking(keys)[i] < keys.len(),
        forall|i: int, j: int|
            0 <= i < j < keys.len() ==> #[trigger] ranking(keys)[i] != #[trigger] ranking(keys)[j],
        forall|i: int, j: int|
            0 <= i < j < keys.len() ==> keys[#[trigger] ranking(keys)[i]] > keys[#[trigger] ranking(
                keys,
            )[j]] || (keys[ranking(keys)[i]] == keys[ranking(keys)[j]] && ranking(keys)[i] < ranking(
                keys,
            )[j]),
    decreases keys.len(),
{
    if keys.len() > 0 {
        let shorter = keys.drop_last();
        let before = ranking(shorter);
        lemma_ranking(shorter);
        let n = keys.len() - 1;
        let p = spot(before, keys, keys.last());
        lemma_spot(before, keys, keys.last());
        let r = ranking(keys);
        assert(r == before.insert(p, n));
        assert forall|i: int| 0 <= i < n implies shorter[#[trigger] before[i]] == keys[before[i]] by {}
        assert forall|i: int, j: int| 0 <= i < j < keys.len() implies keys[#[trigger] r[i]]
            > keys[#[trigger] r[j]] || (keys[r[i]] == keys[r[j]] && r[i] < r[j]) by {
            if j < p {
                assert(r[i] == before[i] && r[j] == before[j]);
            } else if j == p {
                assert(r[i] == before[i] && r[j] == n);
                assert(keys[before[i]] >= keys[n]);
            } else if i < p {
                assert(r[i] == before[i] && r[j] == before[j - 1]);
            } else if i == p {
                assert(r[i] == n && r[j] == before[j - 1]);
                assert(keys[before[p]] < keys[n]);
                if p < j - 1 {
                    assert(keys[before[p]] >= keys[before[j - 1]]);
                }
            } else {
                assert(r[i] == before[i - 1] && r[j] == before[j - 1]);
            }
        }
        assert forall|i: int| 0 <= i < keys.len() implies 0 <= #[trigger] r[i] < keys.len() by {
            if i < p {
                assert(r[i] == before[i]);
            } else if i > p {
                assert(r[i] == before[i - 1]);
            }
        }
        assert forall|i: int, j: int| 0 <= i < j < keys.len() implies #[trigger] r[i]
            != #[trigger] r[j] by {
            let a = if i < p {
                before[i]
            } else {
                before[i - 1]
            };
            if j < p {
                assert(r[i] == before[i] && r[j] == before[j]);
            } else if j == p {
                assert(r[i] == before[i]);
            } else if i < p {
                assert(r[i] == before[i] && r[j] == before[j - 1]);
            } else if i == p {
                assert(r[j] == before[j - 1]);
            } else {
                assert(r[i] == before[i - 1] && r[j] == before[j - 1]);
            }
        }
    }
}

/// A ranking leaves no position out.
pub proof fn lemma_ranked(keys: Seq<int>, k: int)
    requires
        0 <= k < keys.len(),
    ensures
        ranking(keys).contains(k),
    decreases keys.len(),
{
    let before = ranking(keys.drop_last());
    let p = spot(before, keys, keys.last());
    let n = keys.len() - 1;
    lemma_spot(before, keys, keys.last());
    let r = before.insert(p, n);
    if k == n {
        assert(r[p] == n);
    } else {
        lemma_ranked(keys.drop_last(), k);
        let i = choose|i: int| 0 <= i < before.len() && before[i] == k;
        if i < p {
            assert(r[i] == k);
        } else {
            assert(r[i + 1] == k);
        }
    }
}

/// A list of machine integers as mathematical ones.
pub open spec fn as_ints(keys: Seq<i128>) -> Seq<int> {
    Seq::new(keys.len(), |i: int| keys[i] as int)
}

/// A list of positions as mathematical integers.
pub open spec fn as_positions(r: Seq<usize>) -> Seq<int> {
    Seq::new(r.len(), |i: int| r[i] as int)
}

/// See [`ranking`].
pub fn rank(keys: &Vec<i128>) -> (r: Vec<usize>)
    ensures
        as_positions(r@) == ranking(as_ints(keys@)),
        r@.len() == keys@.len(),
        forall|i: int| 0 <= i < r@.len() ==> (#[trigger] r@[i]) < keys@.len(),
{
    let mut r: Vec<usize> = Vec::new();
    let mut n: usize = 0;
    let ghost all = as_ints(keys@);
    assert(all.take(0) =~= Seq::<int>::empty());
    assert(as_positions(r@) =~= Seq::<int>::empty());
    while n < keys.len()
        invariant
            n <= keys@.len(),
            all == as_ints(keys@),
            as_positions(r@) == ranking(all.take(n as int)),
            r@.len() == n,
            forall|i: int| 0 <= i < r@.len() ==> (#[trigger] r@[i]) < n,
        decreases keys@.len() - n,
    {
        let ghost now = all.take(n + 1);
        let ghost before = as_positions(r@);
        let mut p: usize = 0;
        assert(before.skip(0) =~= before);
        while p < r.len() && keys[r[p]] >= keys[n]
            invariant
                n < keys@.len(),
                p <= r@.len(),
                r@.len() == n,
                all == as_ints(keys@),
                now == all.take(n + 1),
                before == as_positions(r@),
                forall|i: int| 0 <= i < r@.len() ==> (#[trigger] r@[i]) < n,
                p + spot(before.skip(p as int), now, now[n as int]) == spot(before, now, now[n as int]),
            decreases r@.len() - p,
        {
            assert(before.skip(p as int)[0] == r@[p as int]);
            assert(before.skip(p as int).skip(1) =~= before.skip(p + 1));
            p = p + 1;
        }
        proof {
            if p < r@.len() {
                assert(before.skip(p as int)[0] == r@[p as int]);
                assert(now[r@[p as int] as int] == keys@[r@[p as int] as int]);
            }
            assert(now.drop_last() =~= all.take(n as int));
            assert(now.last() == now[n as int]);
        }
        let ghost old_r = r@;
        r.insert(p, n);
        proof {
            assert(as_positions(r@) =~= before.insert(p as int, n as int));
            assert forall|i: int| 0 <= i < r@.len() implies (#[trigger] r@[i]) < n + 1 by {
                if i < p {
                    assert(r@[i] == old_r[i]);
                } else if i > p {
                    assert(r@[i] == old_r[i - 1]);
                }
            }
        }
        n = n + 1;
    }
    assert(all.take(n as int) =~= all);
    r
}

} // verus!
