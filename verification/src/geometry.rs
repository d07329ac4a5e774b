//! Integer vectors and distances on the tile grid.

use vstd::prelude::*;

verus! {

/// A tile-plane offset.
#[derive(Clone, Copy, Debug, PartialEq, Eq, Structural)]
pub struct IVec2 {
    pub x: i32,
    pub y: i32,
}

/// A position in a design grid.
#[derive(Clone, Copy, Debug, PartialEq, Eq, Structural)]
pub struct IVec3 {
    pub x: i32,
    pub y: i32,
    pub z: i32,
}

impl IVec2 {
    pub fn new(x: i32, y: i32) -> (v: IVec2)
        ensures
            v == (IVec2 { x, y }),
    {
        IVec2 { x, y }
    }
}

impl IVec3 {
    pub fn new(x: i32, y: i32, z: i32) -> (v: IVec3)
        ensures
            v == (IVec3 { x, y, z }),
    {
        IVec3 { x, y, z }
    }

    /// Every neighbour of the position has coordinates that fit in `i32`.
    pub open spec fn interior(self) -> bool {
        &&& i32::MIN < self.x < i32::MAX
        &&& i32::MIN < self.y < i32::MAX
        &&& i32::MIN < self.z < i32::MAX
    }
}

/// The six face neighbours of a grid position are the positions that differ from it by one in
/// exactly one coordinate.
pub open spec fn adjacent(a: IVec3, b: IVec3) -> bool {
    abs(a.x - b.x) + abs(a.y - b.y) + abs(a.z - b.z) == 1
}

/// The position directly below.
pub open spec fn below(p: IVec3) -> IVec3 {
    IVec3 { x: p.x, y: p.y, z: (p.z - 1) as i32 }
}

pub open spec fn abs(n: int) -> int {
    if n < 0 {
        -n
    } else {
        n
    }
}

pub open spec fn max(a: int, b: int) -> int {
    if a >= b {
        a
    } else {
        b
    }
}

pub open spec fn min(a: int, b: int) -> int {
    if a <= b {
        a
    } else {
        b
    }
}

/// The sign of `n`: -1, 0 or 1.
pub open spec fn sign(n: int) -> int {
    if n < 0 {
        -1
    } else if n == 0 {
        0
    } else {
        1
    }
}

/// `n` moved to the nearest end of `lo..=hi` when it lies outside.
pub open spec fn clamped(n: int, lo: int, hi: int) -> int {
    if n < lo {
        lo
    } else if n > hi {
        hi
    } else {
        n
    }
}

/// Chebyshev distance between two tiles: the larger of the two axis distances.
pub open spec fn tile_distance(a: (i32, i32), b: (i32, i32)) -> int {
    max(abs(a.0 - b.0), abs(a.1 - b.1))
}

/// The face neighbours of a position, in the order +x, -x, +y, -y, +z, -z.
pub fn neighbors(p: IVec3) -> (list: Vec<IVec3>)
    requires
        p.interior(),
    ensures
        list@ =~= seq![
            IVec3 { x: (p.x + 1) as i32, y: p.y, z: p.z },
            IVec3 { x: (p.x - 1) as i32, y: p.y, z: p.z },
            IVec3 { x: p.x, y: (p.y + 1) as i32, z: p.z },
            IVec3 { x: p.x, y: (p.y - 1) as i32, z: p.z },
            IVec3 { x: p.x, y: p.y, z: (p.z + 1) as i32 },
            IVec3 { x: p.x, y: p.y, z: (p.z - 1) as i32 },
        ],
        forall|q: IVec3| list@.contains(q) <==> adjacent(p, q),
{
    let list = vec![
        IVec3 { x: p.x + 1, y: p.y, z: p.z },
        IVec3 { x: p.x - 1, y: p.y, z: p.z },
        IVec3 { x: p.x, y: p.y + 1, z: p.z },
        IVec3 { x: p.x, y: p.y - 1, z: p.z },
        IVec3 { x: p.x, y: p.y, z: p.z + 1 },
        IVec3 { x: p.x, y: p.y, z: p.z - 1 },
    ];
    proof {
        assert forall|q: IVec3| adjacent(p, q) implies list@.contains(q) by {
            if q.x == p.x + 1 {
                assert(list@[0] == q);
            } else if q.x == p.x - 1 {
                assert(list@[1] == q);
            } else if q.y == p.y + 1 {
                assert(list@[2] == q);
            } else if q.y == p.y - 1 {
                assert(list@[3] == q);
            } else if q.z == p.z + 1 {
                assert(list@[4] == q);
            } else {
                assert(list@[5] == q);
            }
        }
    }
    list
}

/// Distance along one axis.
pub fn axis_distance(a: i32, b: i32) -> (d: u32)
    ensures
        d == abs(a - b),
{
    let wide: i64 = a as i64 - b as i64;
    if wide < 0 {
        (-wide) as u32
    } else {
        wide as u32
    }
}

/// Chebyshev distance between two tiles.
pub fn cheb(a: (i32, i32), b: (i32, i32)) -> (d: u32)
    ensures
        d == tile_distance(a, b),
{
    let dx: u32 = axis_distance(a.0, b.0);
    let dy: u32 = axis_distance(a.1, b.1);
    if dx >= dy {
        dx
    } else {
        dy
    }
}

/// The sign of a difference.
pub fn sign_of(a: i32, b: i32) -> (s: i32)
    ensures
        s == sign(a - b),
{
    if a < b {
        -1
    } else if a == b {
        0
    } else {
        1
    }
}

/// The larger of two integers.
pub fn larger(a: i32, b: i32) -> (m: i32)
    ensures
        m == max(a as int, b as int),
{
    if a >= b {
        a
    } else {
        b
    }
}

/// The smaller of two integers.
pub fn smaller(a: i32, b: i32) -> (m: i32)
    ensures
        m == min(a as int, b as int),
{
    if a <= b {
        a
    } else {
        b
    }
}

/// `n` limited to `lo..=hi`.
pub fn clamp(n: i32, lo: i32, hi: i32) -> (m: i32)
    ensures
        m == clamped(n as int, lo as int, hi as int),
{
    if n < lo {
        lo
    } else if n > hi {
        hi
    } else {
        n
    }
}

/// Chebyshev distance is symmetric, is zero exactly between equal tiles, and obeys the triangle
/// inequality.
pub proof fn tile_distance_is_a_metric(a: (i32, i32), b: (i32, i32), c: (i32, i32))
    ensures
        tile_distance(a, b) == tile_distance(b, a),
        tile_distance(a, b) == 0 <==> a == b,
        tile_distance(a, c) <= tile_distance(a, b) + tile_distance(b, c),
{
}

/// A tile is within a distance of another exactly when it is within it on both axes.
pub proof fn near_is_near_on_both_axes(a: (i32, i32), b: (i32, i32), r: int)
    ensures
        tile_distance(a, b) <= r <==> -r <= a.0 - b.0 <= r && -r <= a.1 - b.1 <= r,
{
}

} // verus!
