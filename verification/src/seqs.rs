//! Searching, counting and collecting over sequences, as mathematics.

use vstd::prelude::*;

verus! {

/// `i` is the index of the first element that satisfies `p`.
pub open spec fn first_where<A>(s: Seq<A>, p: spec_fn(A) -> bool, i: int) -> bool {
    &&& 0 <= i < s.len()
    &&& p(s[i])
    &&& forall|j: int| 0 <= j < i ==> !p(#[trigger] s[j])
}

/// The first element that satisfies `p`.
pub open spec fn find<A>(s: Seq<A>, p: spec_fn(A) -> bool) -> Option<A> {
    if exists|i: int| first_where(s, p, i) {
        Some(s[choose|i: int| first_where(s, p, i)])
    } else {
        None
    }
}

/// The element at the first matching index is what the search finds.
pub proof fn find_is_first<A>(s: Seq<A>, p: spec_fn(A) -> bool, i: int)
    requires
        first_where(s, p, i),
    ensures
        find(s, p) == Some(s[i]),
{
    let k = choose|k: int| first_where(s, p, k);
    if k < i {
        assert(!p(s[k]));
    } else if i < k {
        assert(!p(s[i]));
    }
}

/// The search finds nothing exactly when no element matches.
pub proof fn find_is_none<A>(s: Seq<A>, p: spec_fn(A) -> bool)
    ensures
        find(s, p) is None <==> forall|i: int| 0 <= i < s.len() ==> !p(#[trigger] s[i]),
        find(s, p) matches Some(a) ==> p(a) && s.contains(a),
{
    if exists|i: int| 0 <= i < s.len() && p(#[trigger] s[i]) {
        let i = choose|i: int| 0 <= i < s.len() && p(#[trigger] s[i]);
        first_exists(s, p, i);
    }
}

proof fn first_exists<A>(s: Seq<A>, p: spec_fn(A) -> bool, i: int)
    requires
        0 <= i < s.len(),
        p(s[i]),
    ensures
        exists|k: int| first_where(s, p, k),
    decreases i,
{
    if forall|j: int| 0 <= j < i ==> !p(#[trigger] s[j]) {
        assert(first_where(s, p, i));
    } else {
        let j = choose|j: int| 0 <= j < i && p(#[trigger] s[j]);
        first_exists(s, p, j);
    }
}

/// The values `mk(i)` of the indices `0 <= i < n` that satisfy `p`, in order.
pub open spec fn collect<B>(n: int, p: spec_fn(int) -> bool, mk: spec_fn(int) -> B) -> Seq<B>
    decreases n,
{
    if n <= 0 {
        Seq::empty()
    } else if p(n - 1) {
        collect(n - 1, p, mk).push(mk(n - 1))
    } else {
        collect(n - 1, p, mk)
    }
}

/// How many indices `0 <= i < n` satisfy `p`.
pub open spec fn count(n: int, p: spec_fn(int) -> bool) -> nat
    decreases n,
{
    if n <= 0 {
        0
    } else {
        count(n - 1, p) + (if p(n - 1) {
            1nat
        } else {
            0nat
        })
    }
}

/// The sum of `f(i)` over the indices `0 <= i < n`.
pub open spec fn sum(n: int, f: spec_fn(int) -> int) -> int
    decreases n,
{
    if n <= 0 {
        0
    } else {
        sum(n - 1, f) + f(n - 1)
    }
}

/// `f(0) + f(1) + ... + f(n - 1)`, cut off at `cap` after every addition.
pub open spec fn capped_sum(n: int, f: spec_fn(int) -> int, cap: int) -> int {
    if sum(n, f) > cap {
        cap
    } else {
        sum(n, f)
    }
}

/// No index matches exactly when the count is zero, and the count never passes `n`.
pub proof fn count_bounds(n: int, p: spec_fn(int) -> bool)
    requires
        n >= 0,
    ensures
        count(n, p) <= n,
        count(n, p) == 0 <==> forall|i: int| 0 <= i < n ==> !(#[trigger] p(i)),
    decreases n,
{
    if n > 0 {
        count_bounds(n - 1, p);
        assert(p(n - 1) || !p(n - 1));
    }
}

/// Collecting the matches gives one value per match.
pub proof fn collect_len<B>(n: int, p: spec_fn(int) -> bool, mk: spec_fn(int) -> B)
    ensures
        collect(n, p, mk).len() == count(n, p),
    decreases n,
{
    if n > 0 {
        collect_len(n - 1, p, mk);
    }
}

/// Exactly the matching indices contribute to a collection.
pub proof fn collect_contains<B>(n: int, p: spec_fn(int) -> bool, mk: spec_fn(int) -> B, b: B)
    ensures
        collect(n, p, mk).contains(b) <==> exists|i: int|
            0 <= i < n && p(i) && #[trigger] mk(i) == b,
    decreases n,
{
    if n > 0 {
        collect_contains(n - 1, p, mk, b);
        let rest = collect(n - 1, p, mk);
        if p(n - 1) {
            let all = rest.push(mk(n - 1));
            assert(all[rest.len() as int] == mk(n - 1));
            if rest.contains(b) {
                let k = choose|k: int| 0 <= k < rest.len() && rest[k] == b;
                assert(all[k] == b);
            }
            if all.contains(b) && mk(n - 1) != b {
                let k = choose|k: int| 0 <= k < all.len() && all[k] == b;
                assert(rest[k] == b);
            }
        }
    }
}

/// A sum of terms that are not negative is not negative and grows with `n`.
pub proof fn sum_grows(m: int, n: int, f: spec_fn(int) -> int)
    requires
        0 <= m <= n,
        forall|i: int| 0 <= i < n ==> #[trigger] f(i) >= 0,
    ensures
        0 <= sum(m, f) <= sum(n, f),
    decreases n,
{
    if n > m {
        sum_grows(m, n - 1, f);
        assert(f(n - 1) >= 0);
    } else if n > 0 {
        sum_grows(m - 1, n - 1, f);
        assert(f(n - 1) >= 0);
    }
}

/// A sum of at most `n` terms that each stay within `0..=cap` stays within `n * cap`.
pub proof fn sum_bound(n: int, f: spec_fn(int) -> int, cap: int)
    requires
        n >= 0,
        forall|i: int| 0 <= i < n ==> 0 <= #[trigger] f(i) <= cap,
    ensures
        0 <= sum(n, f) <= n * cap,
    decreases n,
{
    if n > 0 {
        sum_bound(n - 1, f, cap);
        assert(f(n - 1) <= cap);
        assert((n - 1) * cap + cap == n * cap) by (nonlinear_arith);
    } else {
        assert(n * cap == 0) by (nonlinear_arith)
            requires
                n == 0,
        ;
    }
}

/// Two summands that agree below `n` have the same sum.
pub proof fn sum_agrees(n: int, f: spec_fn(int) -> int, g: spec_fn(int) -> int)
    requires
        forall|i: int| 0 <= i < n ==> #[trigger] f(i) == g(i),
    ensures
        sum(n, f) == sum(n, g),
    decreases n,
{
    if n > 0 {
        sum_agrees(n - 1, f, g);
        assert(f(n - 1) == g(n - 1));
    }
}

/// Summands that are nowhere greater have no greater sum.
pub proof fn sum_at_most(n: int, f: spec_fn(int) -> int, g: spec_fn(int) -> int)
    requires
        forall|i: int| 0 <= i < n ==> #[trigger] f(i) <= g(i),
    ensures
        sum(n, f) <= sum(n, g),
    decreases n,
{
    if n > 0 {
        sum_at_most(n - 1, f, g);
        assert(f(n - 1) <= g(n - 1));
    }
}

/// The elements of `s` without repetition, each where it first occurs.
pub open spec fn distinct<A>(s: Seq<A>) -> Seq<A>
    decreases s.len(),
{
    if s.len() == 0 {
        Seq::empty()
    } else if distinct(s.drop_last()).contains(s.last()) {
        distinct(s.drop_last())
    } else {
        distinct(s.drop_last()).push(s.last())
    }
}

/// Dropping repetitions keeps exactly the elements, and leaves no two equal.
pub proof fn distinct_keeps_elements<A>(s: Seq<A>)
    ensures
        distinct(s).no_duplicates(),
        distinct(s).len() <= s.len(),
        forall|a: A| distinct(s).contains(a) <==> #[trigger] s.contains(a),
    decreases s.len(),
{
    if s.len() > 0 {
        let d = distinct(s.drop_last());
        distinct_keeps_elements(s.drop_last());
        assert forall|a: A| distinct(s).contains(a) <==> #[trigger] s.contains(a) by {
            if s.contains(a) {
                let i = choose|i: int| 0 <= i < s.len() && s[i] == a;
                if i < s.len() - 1 {
                    assert(s.drop_last()[i] == a);
                    assert(s.drop_last().contains(a));
                    let k = choose|k: int| 0 <= k < d.len() && d[k] == a;
                    assert(distinct(s)[k] == a);
                } else if !d.contains(a) {
                    assert(distinct(s)[d.len() as int] == a);
                }
            }
            if distinct(s).contains(a) {
                let k = choose|k: int| 0 <= k < distinct(s).len() && distinct(s)[k] == a;
                if k < d.len() {
                    assert(d.contains(a)) by {
                        assert(d[k] == a);
                    }
                    assert(s.drop_last().contains(a));
                    let i = choose|i: int|
                        0 <= i < s.drop_last().len() && s.drop_last()[i] == a;
                    assert(s[i] == a);
                } else {
                    assert(s[s.len() - 1] == a);
                }
            }
        }
    }
}

/// `lo` and `hi` are the least and the greatest of `f(i)` over the matching indices below `n`.
pub open spec fn is_range(
    n: int,
    p: spec_fn(int) -> bool,
    f: spec_fn(int) -> int,
    lo: int,
    hi: int,
) -> bool {
    &&& forall|i: int| 0 <= i < n && #[trigger] p(i) ==> lo <= f(i) <= hi
    &&& exists|i: int| 0 <= i < n && #[trigger] p(i) && f(i) == lo
    &&& exists|i: int| 0 <= i < n && #[trigger] p(i) && f(i) == hi
}

/// The distance between the least and the greatest of `f(i)` over the matching indices, counted
/// with both ends, where two of them differ; `otherwise` where none do.
pub open spec fn spread(
    n: int,
    p: spec_fn(int) -> bool,
    f: spec_fn(int) -> int,
    otherwise: int,
) -> int {
    if exists|lo: int, hi: int| lo < hi && is_range(n, p, f, lo, hi) {
        let (lo, hi) = choose|lo: int, hi: int| lo < hi && is_range(n, p, f, lo, hi);
        hi - lo + 1
    } else {
        otherwise
    }
}

/// A range determines the spread.
pub proof fn spread_of_range(
    n: int,
    p: spec_fn(int) -> bool,
    f: spec_fn(int) -> int,
    otherwise: int,
    lo: int,
    hi: int,
)
    requires
        is_range(n, p, f, lo, hi),
    ensures
        spread(n, p, f, otherwise) == (if lo < hi {
            hi - lo + 1
        } else {
            otherwise
        }),
{
    if exists|a: int, b: int| a < b && is_range(n, p, f, a, b) {
        let (a, b) = choose|a: int, b: int| a < b && is_range(n, p, f, a, b);
        assert(a == lo && b == hi);
    }
}

/// Without a matching index there is no spread.
pub proof fn spread_of_nothing(
    n: int,
    p: spec_fn(int) -> bool,
    f: spec_fn(int) -> int,
    otherwise: int,
)
    requires
        forall|i: int| 0 <= i < n ==> !#[trigger] p(i),
    ensures
        spread(n, p, f, otherwise) == otherwise,
{
    if exists|a: int, b: int| a < b && is_range(n, p, f, a, b) {
        let (a, b) = choose|a: int, b: int| a < b && is_range(n, p, f, a, b);
        let i = choose|i: int| 0 <= i < n && #[trigger] p(i) && f(i) == a;
        assert(false);
    }
}

/// A range extended by one more matching value.
pub proof fn range_extends(
    n: int,
    p: spec_fn(int) -> bool,
    f: spec_fn(int) -> int,
    lo: int,
    hi: int,
    found: bool,
)
    requires
        n >= 0,
        found ==> is_range(n, p, f, lo, hi),
        !found ==> forall|i: int| 0 <= i < n ==> !#[trigger] p(i),
    ensures
        !p(n) && found ==> is_range(n + 1, p, f, lo, hi),
        p(n) && found ==> is_range(
            n + 1,
            p,
            f,
            if f(n) < lo {
                f(n)
            } else {
                lo
            },
            if f(n) > hi {
                f(n)
            } else {
                hi
            },
        ),
        p(n) && !found ==> is_range(n + 1, p, f, f(n), f(n)),
{
    if found {
        let a = choose|i: int| 0 <= i < n && #[trigger] p(i) && f(i) == lo;
        let b = choose|i: int| 0 <= i < n && #[trigger] p(i) && f(i) == hi;
        assert(p(a) && p(b));
    }
}

/// The sum of `f` over the elements of `s`.
pub open spec fn total<A>(s: Seq<A>, f: spec_fn(A) -> int) -> int {
    sum(s.len() as int, |i: int| f(s[i]))
}

/// Taking one element out takes its share out of the total.
proof fn total_without<A>(s: Seq<A>, k: int, f: spec_fn(A) -> int)
    requires
        0 <= k < s.len(),
    ensures
        total(s, f) == total(s.remove(k), f) + f(s[k]),
    decreases s.len(),
{
    let n = s.len() as int;
    let front = s.drop_last();
    let whole = |i: int| f(s[i]);
    sum_agrees(n - 1, whole, |i: int| f(front[i]));
    assert(total(s, f) == total(front, f) + f(s[n - 1]));
    if k == n - 1 {
        assert(s.remove(k) =~= front);
    } else {
        total_without(front, k, f);
        let rest = s.remove(k);
        assert(rest.drop_last() =~= front.remove(k));
        sum_agrees(n - 2, |i: int| f(rest[i]), |i: int| f(rest.drop_last()[i]));
        assert(rest[n - 2] == s[n - 1]);
        assert(total(rest, f) == total(rest.drop_last(), f) + f(s[n - 1]));
    }
}

/// The order of the elements makes no difference to a total.
pub proof fn total_of_any_order<A>(a: Seq<A>, b: Seq<A>, f: spec_fn(A) -> int)
    requires
        a.to_multiset() == b.to_multiset(),
    ensures
        total(a, f) == total(b, f),
    decreases a.len(),
{
    a.to_multiset_ensures();
    b.to_multiset_ensures();
    if a.len() > 0 {
        let n = a.len() as int;
        let x = a[n - 1];
        assert(a.contains(x));
        assert(a.to_multiset().count(x) > 0);
        assert(b.contains(x));
        let k = choose|k: int| 0 <= k < b.len() && b[k] == x;
        assert(a.remove(n - 1).to_multiset() =~= b.remove(k).to_multiset());
        total_of_any_order(a.remove(n - 1), b.remove(k), f);
        total_without(a, n - 1, f);
        total_without(b, k, f);
    }
}

/// The order of the elements makes no difference to which elements there are.
pub proof fn elements_of_any_order<A>(a: Seq<A>, b: Seq<A>)
    requires
        a.to_multiset() == b.to_multiset(),
    ensures
        a.len() == b.len(),
        forall|x: A| #[trigger] a.contains(x) <==> b.contains(x),
{
    a.to_multiset_ensures();
    b.to_multiset_ensures();
    assert forall|x: A| #[trigger] a.contains(x) <==> b.contains(x) by {
        assert(a.contains(x) <==> a.to_multiset().count(x) > 0);
        assert(b.contains(x) <==> b.to_multiset().count(x) > 0);
    }
}

/// Sequences with the same elements have equally many different ones.
pub proof fn distinct_lengths_agree<A>(a: Seq<A>, b: Seq<A>)
    requires
        forall|x: A| #[trigger] a.contains(x) <==> b.contains(x),
    ensures
        distinct(a).len() == distinct(b).len(),
{
    distinct_keeps_elements(a);
    distinct_keeps_elements(b);
    distinct(a).unique_seq_to_set();
    distinct(b).unique_seq_to_set();
    assert forall|x: A| distinct(a).to_set().contains(x) <==> distinct(b).to_set().contains(x) by {
        assert(a.contains(x) <==> b.contains(x));
        assert(distinct(a).contains(x) <==> a.contains(x));
        assert(distinct(b).contains(x) <==> b.contains(x));
    }
    assert(distinct(a).to_set() =~= distinct(b).to_set());
}

/// Every matching value of the first family is one of the second.
pub open spec fn values_within(
    n: int,
    p: spec_fn(int) -> bool,
    f: spec_fn(int) -> int,
    m: int,
    q: spec_fn(int) -> bool,
    g: spec_fn(int) -> int,
) -> bool {
    forall|i: int|
        0 <= i < n && #[trigger] p(i) ==> exists|j: int|
            0 <= j < m && #[trigger] q(j) && g(j) == f(i)
}

/// The spread depends on the matching values alone.
pub proof fn spreads_agree(
    n: int,
    p: spec_fn(int) -> bool,
    f: spec_fn(int) -> int,
    m: int,
    q: spec_fn(int) -> bool,
    g: spec_fn(int) -> int,
    otherwise: int,
)
    requires
        values_within(n, p, f, m, q, g),
        values_within(m, q, g, n, p, f),
    ensures
        spread(n, p, f, otherwise) == spread(m, q, g, otherwise),
{
    assert forall|lo: int, hi: int| is_range(n, p, f, lo, hi) implies is_range(
        m,
        q,
        g,
        lo,
        hi,
    ) by {
        range_carries_over(n, p, f, m, q, g, lo, hi);
    }
    assert forall|lo: int, hi: int| is_range(m, q, g, lo, hi) implies is_range(
        n,
        p,
        f,
        lo,
        hi,
    ) by {
        range_carries_over(m, q, g, n, p, f, lo, hi);
    }
    if exists|lo: int, hi: int| lo < hi && is_range(n, p, f, lo, hi) {
        let (lo, hi) = choose|lo: int, hi: int| lo < hi && is_range(n, p, f, lo, hi);
        spread_of_range(n, p, f, otherwise, lo, hi);
        spread_of_range(m, q, g, otherwise, lo, hi);
    }
}

proof fn range_carries_over(
    n: int,
    p: spec_fn(int) -> bool,
    f: spec_fn(int) -> int,
    m: int,
    q: spec_fn(int) -> bool,
    g: spec_fn(int) -> int,
    lo: int,
    hi: int,
)
    requires
        values_within(n, p, f, m, q, g),
        values_within(m, q, g, n, p, f),
        is_range(n, p, f, lo, hi),
    ensures
        is_range(m, q, g, lo, hi),
{
    assert forall|j: int| 0 <= j < m && #[trigger] q(j) implies lo <= g(j) <= hi by {
        let i = choose|i: int| 0 <= i < n && #[trigger] p(i) && f(i) == g(j);
        assert(p(i));
    }
    let a = choose|i: int| 0 <= i < n && #[trigger] p(i) && f(i) == lo;
    let ja = choose|j: int| 0 <= j < m && #[trigger] q(j) && g(j) == f(a);
    assert(q(ja));
    let b = choose|i: int| 0 <= i < n && #[trigger] p(i) && f(i) == hi;
    let jb = choose|j: int| 0 <= j < m && #[trigger] q(j) && g(j) == f(b);
    assert(q(jb));
}

/// Two sums whose terms differ at one place differ by what they differ there.
pub proof fn sum_changes_at(n: int, f: spec_fn(int) -> int, g: spec_fn(int) -> int, k: int)
    requires
        0 <= k < n,
        forall|i: int| 0 <= i < n && i != k ==> #[trigger] f(i) == g(i),
    ensures
        sum(n, g) - sum(n, f) == g(k) - f(k),
    decreases n,
{
    if k < n - 1 {
        sum_changes_at(n - 1, f, g, k);
        assert(f(n - 1) == g(n - 1));
    } else {
        sum_agrees(n - 1, f, g);
    }
}

} // verus!
