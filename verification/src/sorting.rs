//! Stable sorting by time: the order in which a beatmap keeps its timing
//! points and hit objects.

use vstd::prelude::*;

verus! {

/// Where insertion sort puts a key `k` into the sorted keys `ks`: after the
/// last key that is not greater than `k`.
pub open spec fn insert_pos(ks: Seq<i32>, k: i32) -> int
    decreases ks.len(),
{
    if ks.len() == 0 {
        0
    } else if ks.last() <= k {
        ks.len() as int
    } else {
        insert_pos(ks.drop_last(), k)
    }
}

/// The keys of the items at the positions `o`.
pub open spec fn keys_at(keys: Seq<i32>, o: Seq<int>) -> Seq<i32> {
    o.map_values(|j: int| keys[j])
}

/// The order in which a stable sort puts the first `n` items with keys
/// `keys`: the position of each item in the input, inserted one after the
/// other behind the last item whose key is not greater.
pub open spec fn stable_order(keys: Seq<i32>, n: nat) -> Seq<int>
    decreases n,
{
    if n == 0 {
        Seq::empty()
    } else {
        let o = stable_order(keys, (n - 1) as nat);
        o.insert(insert_pos(keys_at(keys, o), keys[n - 1]), n - 1)
    }
}

/// Whether `ks` is in non-decreasing order.
pub open spec fn is_sorted(ks: Seq<i32>) -> bool {
    forall|a: int, b: int| 0 <= a < b < ks.len() ==> ks[a] <= ks[b]
}

proof fn lemma_insert_pos(ks: Seq<i32>, k: i32)
    requires
        is_sorted(ks),
    ensures
        0 <= insert_pos(ks, k) <= ks.len(),
        forall|j: int| 0 <= j < insert_pos(ks, k) ==> ks[j] <= k,
        forall|j: int| insert_pos(ks, k) <= j < ks.len() ==> ks[j] > k,
    decreases ks.len(),
{
    if ks.len() > 0 {
        let n = ks.len() as int;
        if ks.last() <= k {
            assert forall|j: int| 0 <= j < insert_pos(ks, k) implies ks[j] <= k by {
                if j < n - 1 {
                    assert(ks[j] <= ks[n - 1]);
                }
            }
        } else {
            let d = ks.drop_last();
            assert(is_sorted(d));
            lemma_insert_pos(d, k);
            assert forall|j: int| 0 <= j < insert_pos(ks, k) implies ks[j] <= k by {
                assert(d[j] == ks[j]);
            }
            assert forall|j: int| insert_pos(ks, k) <= j < ks.len() implies ks[j] > k by {
                if j < n - 1 {
                    assert(d[j] == ks[j]);
                }
            }
        }
    }
}

/// The order of a stable sort of `n` items lists each position below `n`
/// once, puts the keys in non-decreasing order, and keeps items with equal
/// keys in their input order.
pub proof fn stable_order_properties(keys: Seq<i32>, n: nat)
    requires
        n <= keys.len(),
    ensures
        stable_order(keys, n).len() == n,
        forall|a: int| 0 <= a < n ==> 0 <= #[trigger] stable_order(keys, n)[a] < n,
        forall|a: int, b: int|
            0 <= a < b < n ==> stable_order(keys, n)[a] != stable_order(keys, n)[b],
        is_sorted(keys_at(keys, stable_order(keys, n))),
        forall|a: int, b: int|
            0 <= a < b < n && keys[stable_order(keys, n)[a]] == keys[stable_order(keys, n)[b]]
                ==> stable_order(keys, n)[a] < stable_order(keys, n)[b],
    decreases n,
{
    if n > 0 {
        let m = (n - 1) as nat;
        stable_order_properties(keys, m);
        let o = stable_order(keys, m);
        let ks = keys_at(keys, o);
        let k = keys[m as int];
        lemma_insert_pos(ks, k);
        let p = insert_pos(ks, k);
        let o2 = o.insert(p, m as int);
        assert(stable_order(keys, n) == o2);
        assert forall|a: int| 0 <= a < n implies 0 <= #[trigger] o2[a] < n by {
            if a < p {
                assert(o2[a] == o[a]);
            } else if a > p {
                assert(o2[a] == o[a - 1]);
            }
        }
        assert forall|a: int, b: int| 0 <= a < b < n implies o2[a] != o2[b] by {
            if a < p && b < p {
                assert(o2[a] == o[a] && o2[b] == o[b]);
            } else if a < p && b > p {
                assert(o2[a] == o[a] && o2[b] == o[b - 1]);
            } else if a > p && b > p {
                assert(o2[a] == o[a - 1] && o2[b] == o[b - 1]);
            } else if a == p {
                assert(o2[b] == o[b - 1]);
            } else {
                assert(o2[a] == o[a]);
            }
        }
        let ks2 = keys_at(keys, o2);
        assert forall|a: int, b: int| 0 <= a < b < ks2.len() implies ks2[a] <= ks2[b] by {
            if a < p && b < p {
                assert(ks2[a] == ks[a] && ks2[b] == ks[b]);
            } else if a < p && b > p {
                assert(ks2[a] == ks[a] && ks2[b] == ks[b - 1]);
            } else if a > p && b > p {
                assert(ks2[a] == ks[a - 1] && ks2[b] == ks[b - 1]);
            } else if a == p {
                assert(ks2[b] == ks[b - 1]);
            } else {
                assert(ks2[a] == ks[a]);
            }
        }
        assert forall|a: int, b: int|
            0 <= a < b < n && keys[o2[a]] == keys[o2[b]] implies o2[a] < o2[b] by {
            if a < p && b < p {
                assert(o2[a] == o[a] && o2[b] == o[b]);
                assert(ks[a] == keys[o[a]] && ks[b] == keys[o[b]]);
            } else if a < p && b > p {
                assert(o2[a] == o[a] && o2[b] == o[b - 1]);
                assert(ks[a] == keys[o[a]] && ks[b - 1] == keys[o[b - 1]]);
            } else if a > p && b > p {
                assert(o2[a] == o[a - 1] && o2[b] == o[b - 1]);
                assert(ks[a - 1] == keys[o[a - 1]] && ks[b - 1] == keys[o[b - 1]]);
            } else if a == p {
                assert(o2[b] == o[b - 1]);
                assert(ks[b - 1] == keys[o[b - 1]]);
            } else {
                assert(o2[a] == o[a]);
            }
        }
    }
}

/// Sorts `items` by `keys` (the key of each item), stably: the result lists
/// the items in the order [`stable_order`] gives.
pub fn sort_by_keys<T>(items: Vec<T>, keys: &Vec<i32>) -> (r: Vec<T>)
    requires
        items@.len() == keys@.len(),
    ensures
        r@.len() == items@.len(),
        forall|j: int|
            0 <= j < r@.len() ==> #[trigger] r@[j] == items@[stable_order(keys@, keys@.len())[j]],
{
    let ghost items0 = items@;
    let ghost n0 = keys@.len();
    let mut rest = items;
    let mut out: Vec<T> = Vec::new();
    let mut out_keys: Vec<i32> = Vec::new();
    let mut i: usize = 0;
    while i < keys.len()
        invariant
            i <= keys@.len() == n0 == items0.len(),
            rest@ == items0.skip(i as int),
            out@.len() == i,
            stable_order(keys@, i as nat).len() == i,
            out_keys@ == keys_at(keys@, stable_order(keys@, i as nat)),
            forall|j: int| 0 <= j < i ==> 0 <= #[trigger] stable_order(keys@, i as nat)[j] < i,
            forall|j: int| 0 <= j < i ==> #[trigger] out@[j] == items0[stable_order(keys@, i as nat)[j]],
        decreases keys@.len() - i,
    {
        proof {
            stable_order_properties(keys@, (i + 1) as nat);
        }
        let ghost o = stable_order(keys@, i as nat);
        assert(rest@.len() > 0);
        let x = rest.remove(0);
        assert(x == items0[i as int]);
        assert(rest@ =~= items0.skip(i + 1));
        let k = keys[i];
        let mut pos = out_keys.len();
        assert(out_keys@.take(pos as int) =~= out_keys@);
        while pos > 0 && out_keys[pos - 1] > k
            invariant
                pos <= out_keys@.len(),
                insert_pos(out_keys@, k) == insert_pos(out_keys@.take(pos as int), k),
            decreases pos,
        {
            let ghost t = out_keys@.take(pos as int);
            assert(t.drop_last() =~= out_keys@.take(pos - 1));
            pos = pos - 1;
        }
        proof {
            if pos > 0 {
                assert(out_keys@.take(pos as int).last() == out_keys@[pos - 1]);
            }
            assert(out_keys@.take(pos as int).len() == pos);
        }
        let ghost before = out@;
        out.insert(pos, x);
        out_keys.insert(pos, k);
        proof {
            let o2 = o.insert(pos as int, i as int);
            assert(stable_order(keys@, (i + 1) as nat) == o2);
            assert(out_keys@ =~= keys_at(keys@, o2));
            assert forall|j: int| 0 <= j < i + 1 implies #[trigger] out@[j] == items0[o2[j]] by {
                if j < pos {
                    assert(out@[j] == before[j] && o2[j] == o[j]);
                } else if j > pos {
                    assert(out@[j] == before[j - 1] && o2[j] == o[j - 1]);
                }
            }
        }
        i = i + 1;
    }
    assert(items0.len() == n0);
    out
}

/// Items already in order keep their order.
pub proof fn stable_order_of_sorted(keys: Seq<i32>, n: nat)
    requires
        n <= keys.len(),
        forall|a: int, b: int| 0 <= a < b < n ==> keys[a] <= keys[b],
    ensures
        stable_order(keys, n) == Seq::new(n, |i: int| i),
    decreases n,
{
    if n > 0 {
        let m = (n - 1) as nat;
        stable_order_of_sorted(keys, m);
        let o = stable_order(keys, m);
        let ks = keys_at(keys, o);
        assert(ks =~= keys.take(m as int));
        if m > 0 {
            assert(ks.last() == keys[m - 1]);
            assert(keys[m - 1] <= keys[m as int]);
        }
        assert(insert_pos(ks, keys[m as int]) == m);
        assert(o.insert(m as int, m as int) =~= Seq::new(n, |i: int| i));
    }
}

} // verus!
