//! Ordering things by a key, keeping the order of equals.

use vstd::prelude::*;

verus! {

/// A key: the first number decides, then the second.
pub type Key = (i64, i64);

/// One key comes before another or equals it.
pub open spec fn key_le(a: Key, b: Key) -> bool {
    a.0 < b.0 || (a.0 == b.0 && a.1 <= b.1)
}

/// `order` with the index `i` put behind every index whose key is not greater.
pub open spec fn placed(order: Seq<usize>, keys: Seq<Key>, i: usize) -> Seq<usize>
    decreases order.len(),
{
    if order.len() == 0 {
        seq![i]
    } else if key_le(keys[order.last() as int], keys[i as int]) {
        order.push(i)
    } else {
        placed(order.drop_last(), keys, i).push(order.last())
    }
}

/// The first `n` indices in the order of their keys.
pub open spec fn ordered(keys: Seq<Key>, n: int) -> Seq<usize>
    decreases n,
{
    if n <= 0 {
        Seq::empty()
    } else {
        placed(ordered(keys, n - 1), keys, (n - 1) as usize)
    }
}

/// The indices of `keys` in the order of the keys.
pub open spec fn order_of(keys: Seq<Key>) -> Seq<usize> {
    ordered(keys, keys.len() as int)
}

fn not_after(a: Key, b: Key) -> (r: bool)
    ensures
        r == key_le(a, b),
{
    a.0 < b.0 || (a.0 == b.0 && a.1 <= b.1)
}

/// The place of index `i` in `order`, counted from the front.
pub open spec fn place_of(order: Seq<usize>, keys: Seq<Key>, i: usize) -> int
    decreases order.len(),
{
    if order.len() == 0 || key_le(keys[order.last() as int], keys[i as int]) {
        order.len() as int
    } else {
        place_of(order.drop_last(), keys, i)
    }
}

proof fn placed_inserts(order: Seq<usize>, keys: Seq<Key>, i: usize)
    ensures
        0 <= place_of(order, keys, i) <= order.len(),
        placed(order, keys, i) == order.insert(place_of(order, keys, i), i),
    decreases order.len(),
{
    if order.len() > 0 && !key_le(keys[order.last() as int], keys[i as int]) {
        placed_inserts(order.drop_last(), keys, i);
        let p = place_of(order, keys, i);
        assert(order.drop_last().insert(p, i).push(order.last()) =~= order.insert(p, i));
    } else {
        assert(placed(order, keys, i) =~= order.insert(order.len() as int, i));
    }
}

/// A key that puts smaller numbers first.
pub open spec fn rising_key(n: u64) -> Key {
    ((n / 0x1_0000_0000) as i64, (n % 0x1_0000_0000) as i64)
}

/// The key that puts smaller numbers first.
pub fn rising(n: u64) -> (k: Key)
    ensures
        k == rising_key(n),
{
    ((n / 0x1_0000_0000) as i64, (n % 0x1_0000_0000) as i64)
}

/// A key that puts greater numbers first.
pub open spec fn falling_key(n: u64) -> Key {
    (-((n / 0x1_0000_0000) as int) as i64, -((n % 0x1_0000_0000) as int) as i64)
}

/// The key that puts greater numbers first.
pub fn descending(n: u64) -> (k: Key)
    ensures
        k == falling_key(n),
{
    (-((n / 0x1_0000_0000) as i64), -((n % 0x1_0000_0000) as i64))
}

/// Falling keys stand in the opposite order of their numbers.
pub proof fn falling_keys_turn_round(a: u64, b: u64)
    ensures
        key_le(falling_key(a), falling_key(b)) <==> a >= b,
{
}

/// The indices of a list of keys, ordered by key; equal keys keep their order.
pub fn order_by_keys(keys: &Vec<Key>) -> (order: Vec<usize>)
    ensures
        order@ == order_of(keys@),
{
    let mut order: Vec<usize> = Vec::new();
    let mut i: usize = 0;
    while i < keys.len()
        invariant
            i <= keys.len(),
            order@ == ordered(keys@, i as int),
            order@.len() == i,
            forall|k: int| 0 <= k < order@.len() ==> (#[trigger] order@[k]) < keys@.len(),
        decreases keys.len() - i,
    {
        let ghost before = order@;
        let mut p: usize = order.len();
        proof {
            assert(before.take(before.len() as int) =~= before);
        }
        while p > 0 && !not_after(keys[order[p - 1]], keys[i])
            invariant
                p <= order@.len(),
                i < keys.len(),
                order@ == before,
                forall|k: int| 0 <= k < before.len() ==> (#[trigger] before[k]) < keys@.len(),
                place_of(before.take(p as int), keys@, i) == place_of(before, keys@, i),
            decreases p,
        {
            proof {
                let t = before.take(p as int);
                assert(t.last() == before[p - 1]);
                assert(t.drop_last() =~= before.take(p - 1));
            }
            p -= 1;
        }
        proof {
            let t = before.take(p as int);
            if p > 0 {
                assert(t.last() == before[p - 1]);
            }
            assert(place_of(t, keys@, i) == p);
            placed_inserts(before, keys@, i);
        }
        order.insert(p, i);
        i += 1;
    }
    order
}

/// Ordering by key loses nothing and repeats nothing, never puts a greater key first, and keeps
/// equal keys in their order.
pub proof fn ordering_is_stable(keys: Seq<Key>)
    requires
        keys.len() <= usize::MAX,
    ensures
        order_of(keys).len() == keys.len(),
        order_of(keys).no_duplicates(),
        forall|k: int|
            0 <= k < order_of(keys).len() ==> (#[trigger] order_of(keys)[k]) < keys.len(),
        forall|a: int, b: int|
            0 <= a < b < order_of(keys).len() ==> follows(
                keys,
                #[trigger] order_of(keys)[a],
                #[trigger] order_of(keys)[b],
            ),
{
    ordered_is_stable(keys, keys.len() as int);
}

/// Index `b` may stand behind index `a`.
pub open spec fn follows(keys: Seq<Key>, a: usize, b: usize) -> bool {
    &&& key_le(keys[a as int], keys[b as int])
    &&& keys[a as int] == keys[b as int] ==> a < b
}

proof fn ordered_is_stable(keys: Seq<Key>, n: int)
    requires
        0 <= n <= keys.len(),
        keys.len() <= usize::MAX,
    ensures
        ordered(keys, n).len() == n,
        ordered(keys, n).no_duplicates(),
        forall|k: int| 0 <= k < n ==> (#[trigger] ordered(keys, n)[k]) < n,
        forall|a: int, b: int|
            0 <= a < b < n ==> follows(
                keys,
                #[trigger] ordered(keys, n)[a],
                #[trigger] ordered(keys, n)[b],
            ),
    decreases n,
{
    if n > 0 {
        ordered_is_stable(keys, n - 1);
        let before = ordered(keys, n - 1);
        let i = (n - 1) as usize;
        let p = place_of(before, keys, i);
        placed_inserts(before, keys, i);
        place_separates(before, keys, i);
        let after = ordered(keys, n);
        assert(after =~= before.insert(p, i));
        assert forall|k: int| 0 <= k < n implies (#[trigger] after[k]) < n by {
            if k < p {
                assert(after[k] == before[k]);
            } else if k > p {
                assert(after[k] == before[k - 1]);
            }
        }
        assert forall|a: int, b: int| 0 <= a < b < n implies follows(
            keys,
            #[trigger] after[a],
            #[trigger] after[b],
        ) && after[a] != after[b] by {
            let x = if a < p {
                a
            } else {
                a - 1
            };
            let y = if b < p {
                b
            } else {
                b - 1
            };
            if a == p {
                assert(after[b] == before[y]);
                assert(!key_le(keys[before[y] as int], keys[i as int]));
            } else if b == p {
                assert(after[a] == before[x]);
                assert(key_le(keys[before[x] as int], keys[i as int]));
            } else {
                assert(after[a] == before[x] && after[b] == before[y]);
                assert(follows(keys, before[x], before[y]));
            }
        }
    }
}

proof fn place_separates(order: Seq<usize>, keys: Seq<Key>, i: usize)
    requires
        forall|a: int, b: int|
            0 <= a < b < order.len() ==> follows(keys, #[trigger] order[a], #[trigger] order[b]),
    ensures
        forall|k: int|
            0 <= k < place_of(order, keys, i) ==> key_le(
                keys[#[trigger] order[k] as int],
                keys[i as int],
            ),
        forall|k: int|
            place_of(order, keys, i) <= k < order.len() ==> !key_le(
                keys[#[trigger] order[k] as int],
                keys[i as int],
            ),
    decreases order.len(),
{
    if order.len() > 0 {
        let last = order.len() - 1;
        if key_le(keys[order.last() as int], keys[i as int]) {
            assert forall|k: int| 0 <= k < order.len() implies key_le(
                keys[#[trigger] order[k] as int],
                keys[i as int],
            ) by {
                if k < last {
                    assert(follows(keys, order[k], order[last]));
                }
            }
        } else {
            let rest = order.drop_last();
            assert forall|a: int, b: int| 0 <= a < b < rest.len() implies follows(
                keys,
                #[trigger] rest[a],
                #[trigger] rest[b],
            ) by {
                assert(follows(keys, order[a], order[b]));
            }
            place_separates(rest, keys, i);
            placed_inserts(rest, keys, i);
            assert forall|k: int| place_of(order, keys, i) <= k < order.len() implies !key_le(
                keys[#[trigger] order[k] as int],
                keys[i as int],
            ) by {
                if k < last {
                    assert(rest[k] == order[k]);
                }
            }
            assert forall|k: int| 0 <= k < place_of(order, keys, i) implies key_le(
                keys[#[trigger] order[k] as int],
                keys[i as int],
            ) by {
                assert(rest[k] == order[k]);
            }
        }
    }
}

/// Where the order of all indices below `n` puts one of them.
pub proof fn every_place_is_taken(order: Seq<usize>, n: int, j: int) -> (k: int)
    requires
        order.len() == n,
        n <= usize::MAX,
        order.no_duplicates(),
        forall|k: int| 0 <= k < n ==> (#[trigger] order[k]) < n,
        0 <= j < n,
    ensures
        0 <= k < n,
        order[k] == j,
{
    if !order.contains(j as usize) {
        let s = order.push(j as usize);
        assert(s.no_duplicates());
        crowded(s, n);
    }
    choose|k: int| 0 <= k < n && order[k] == j as usize
}

proof fn crowded(s: Seq<usize>, n: int)
    requires
        s.no_duplicates(),
        forall|k: int| 0 <= k < s.len() ==> (#[trigger] s[k]) < n,
    ensures
        s.len() <= if n < 0 {
            0
        } else {
            n
        },
    decreases n,
{
    if n <= 0 {
        if s.len() > 0 {
            assert(s[0] < n);
        }
    } else if s.contains((n - 1) as usize) {
        let i = choose|i: int| 0 <= i < s.len() && s[i] == (n - 1) as usize;
        let t = s.remove(i);
        assert forall|k: int| 0 <= k < t.len() implies (#[trigger] t[k]) < n - 1 by {
            if k < i {
                assert(t[k] == s[k]);
            } else {
                assert(t[k] == s[k + 1]);
            }
        }
        assert(t.no_duplicates());
        crowded(t, n - 1);
    } else {
        assert forall|k: int| 0 <= k < s.len() implies (#[trigger] s[k]) < n - 1 by {
            assert(s.contains(s[k]));
        }
        crowded(s, n - 1);
    }
}

} // verus!
