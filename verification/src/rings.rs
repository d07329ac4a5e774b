//! Square rings around a tile, nearest first.

use vstd::prelude::*;
use crate::geometry::{abs, axis_distance, max};
use crate::seqs::{collect, collect_contains};

verus! {

/// The order in which a ring is walked.
#[derive(Clone, Copy, Debug, PartialEq, Eq, Structural)]
pub enum Walk {
    /// Row by row: the second coordinate changes slowest.
    Rows,
    /// Column by column: the first coordinate changes slowest.
    Columns,
}

/// The `k`th offset of the square of radius `r`.
pub open spec fn square_offset(r: int, walk: Walk, k: int) -> (i32, i32) {
    let side = 2 * r + 1;
    match walk {
        Walk::Rows => ((k % side - r) as i32, (k / side - r) as i32),
        Walk::Columns => ((k / side - r) as i32, (k % side - r) as i32),
    }
}

/// An offset lies on the ring of radius `r`.
pub open spec fn on_ring(r: int, o: (i32, i32)) -> bool {
    max(abs(o.0 as int), abs(o.1 as int)) == r
}

/// The offsets on the ring of radius `r`, in walking order.
pub open spec fn ring(r: int, walk: Walk) -> Seq<(i32, i32)> {
    collect(
        (2 * r + 1) * (2 * r + 1),
        |k: int| on_ring(r, square_offset(r, walk, k)),
        |k: int| square_offset(r, walk, k),
    )
}

/// The rings from radius `lo` to radius `hi`, one after the other.
pub open spec fn rings(lo: int, hi: int, walk: Walk) -> Seq<(i32, i32)>
    decreases hi - lo + 1,
{
    if hi < lo {
        Seq::empty()
    } else {
        rings(lo, hi - 1, walk) + ring(hi, walk)
    }
}

/// A tile moved by an offset.
pub open spec fn moved(t: (i32, i32), o: (i32, i32)) -> (i32, i32) {
    ((t.0 + o.0) as i32, (t.1 + o.1) as i32)
}

/// Every tile within `r` of `t` has coordinates that fit in `i32`.
pub open spec fn room_around(t: (i32, i32), r: int) -> bool {
    &&& i32::MIN + r <= t.0 <= i32::MAX - r
    &&& i32::MIN + r <= t.1 <= i32::MAX - r
}

/// The offsets of one ring.
pub fn ring_offsets(r: u32, walk: Walk) -> (list: Vec<(i32, i32)>)
    requires
        r <= i32::MAX,
    ensures
        list@ == ring(r as int, walk),
{
    let side: u64 = 2 * r as u64 + 1;
    let radius: i64 = r as i64;
    assert(side * side <= u64::MAX) by (nonlinear_arith)
        requires
            0 < side <= u32::MAX,
    ;
    let total: u64 = side * side;
    let ghost p = |k: int| on_ring(r as int, square_offset(r as int, walk, k));
    let ghost mk = |k: int| square_offset(r as int, walk, k);
    let mut list: Vec<(i32, i32)> = Vec::new();
    let mut k: u64 = 0;
    while k < total
        invariant
            k <= total,
            r <= i32::MAX,
            side == 2 * r + 1,
            radius == r,
            total == side * side,
            p == (|k: int| on_ring(r as int, square_offset(r as int, walk, k))),
            mk == (|k: int| square_offset(r as int, walk, k)),
            list@ == collect(k as int, p, mk),
        decreases total - k,
    {
        let fast: u64 = k % side;
        let slow: u64 = k / side;
        assert(slow < side) by (nonlinear_arith)
            requires
                slow == k / side,
                k < side * side,
                side > 0,
        ;
        let a: i32 = (fast as i64 - radius) as i32;
        let b: i32 = (slow as i64 - radius) as i32;
        let o: (i32, i32) = match walk {
            Walk::Rows => (a, b),
            Walk::Columns => (b, a),
        };
        let da: u32 = axis_distance(o.0, 0);
        let db: u32 = axis_distance(o.1, 0);
        if (da >= db && da == r) || (db > da && db == r) {
            list.push(o);
        }
        k += 1;
    }
    list
}

/// The offsets of the rings from `lo` to `hi`, nearest first.
pub fn rings_between(lo: u32, hi: u32, walk: Walk) -> (list: Vec<(i32, i32)>)
    requires
        hi <= i32::MAX,
    ensures
        list@ == rings(lo as int, hi as int, walk),
{
    let mut list: Vec<(i32, i32)> = Vec::new();
    let mut r: u32 = lo;
    while r <= hi
        invariant
            lo <= r,
            hi <= i32::MAX,
            r <= hi + 1 || r == lo,
            list@ == rings(lo as int, r - 1, walk),
        decreases hi + 1 - r,
    {
        let mut one = ring_offsets(r, walk);
        list.append(&mut one);
        r += 1;
    }
    proof {
        if hi < lo {
            assert(rings(lo as int, hi as int, walk) =~= rings(lo as int, r - 1, walk));
        }
    }
    list
}

/// A ring holds exactly the offsets at its distance.
pub proof fn ring_holds(r: int, walk: Walk, o: (i32, i32))
    requires
        0 <= r <= i32::MAX,
    ensures
        ring(r, walk).contains(o) <==> on_ring(r, o),
{
    let side = 2 * r + 1;
    let p = |k: int| on_ring(r, square_offset(r, walk, k));
    let mk = |k: int| square_offset(r, walk, k);
    collect_contains(side * side, p, mk, o);
    if on_ring(r, o) {
        let (fast, slow) = match walk {
            Walk::Rows => (o.0 + r, o.1 + r),
            Walk::Columns => (o.1 + r, o.0 + r),
        };
        let k = slow * side + fast;
        assert(0 <= k < side * side) by (nonlinear_arith)
            requires
                0 <= slow < side,
                0 <= fast < side,
                k == slow * side + fast,
        ;
        vstd::arithmetic::div_mod::lemma_fundamental_div_mod_converse(k, side, slow, fast);
        assert(mk(k) == o);
        assert(p(k));
    }
}

/// The rings from `lo` to `hi` hold exactly the offsets at those distances.
pub proof fn rings_hold(lo: int, hi: int, walk: Walk, o: (i32, i32))
    requires
        0 <= lo,
        hi <= i32::MAX,
    ensures
        rings(lo, hi, walk).contains(o) <==> lo <= max(abs(o.0 as int), abs(o.1 as int)) <= hi,
    decreases hi - lo + 1,
{
    if hi >= lo {
        rings_hold(lo, hi - 1, walk, o);
        ring_holds(hi, walk, o);
        let a = rings(lo, hi - 1, walk);
        let b = ring(hi, walk);
        if a.contains(o) {
            let k = choose|k: int| 0 <= k < a.len() && a[k] == o;
            assert((a + b)[k] == o);
        }
        if b.contains(o) {
            let k = choose|k: int| 0 <= k < b.len() && b[k] == o;
            assert((a + b)[a.len() + k] == o);
        }
        if (a + b).contains(o) {
            let k = choose|k: int| 0 <= k < (a + b).len() && (a + b)[k] == o;
            if k < a.len() {
                assert(a[k] == o);
            } else {
                assert(b[k - a.len()] == o);
            }
        }
    }
}

/// Walking rings never moves inward: a later offset is at least as far out as an earlier one.
pub proof fn rings_go_outward(lo: int, hi: int, walk: Walk, i: int, j: int)
    requires
        0 <= lo,
        hi <= i32::MAX,
        0 <= i <= j < rings(lo, hi, walk).len(),
    ensures
        ({
            let a = rings(lo, hi, walk)[i];
            let b = rings(lo, hi, walk)[j];
            max(abs(a.0 as int), abs(a.1 as int)) <= max(abs(b.0 as int), abs(b.1 as int))
        }),
    decreases hi - lo + 1,
{
    if hi >= lo {
        let inner = rings(lo, hi - 1, walk);
        let outer = ring(hi, walk);
        let all = rings(lo, hi, walk);
        if j < inner.len() {
            rings_go_outward(lo, hi - 1, walk, i, j);
        } else {
            assert(outer.contains(all[j])) by {
                assert(outer[j - inner.len()] == all[j]);
            }
            ring_holds(hi, walk, all[j]);
            if i < inner.len() {
                assert(inner.contains(all[i])) by {
                    assert(inner[i] == all[i]);
                }
                rings_hold(lo, hi - 1, walk, all[i]);
            } else {
                assert(outer.contains(all[i])) by {
                    assert(outer[i - inner.len()] == all[i]);
                }
                ring_holds(hi, walk, all[i]);
            }
        }
    }
}

} // verus!
