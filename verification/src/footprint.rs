//! The tiles a body covers, for each of its four headings.

use vstd::prelude::*;
use crate::design::VehicleDesign;
use crate::geometry::{cheb, tile_distance, IVec2, IVec3};
use crate::grid::{bounding_box, bounding_box_is_box, VehicleCell, VehicleGrid};
use crate::seqs::{distinct, distinct_keeps_elements};
use crate::stats::box_fits;

verus! {

/// The tile under each cell.
pub open spec fn xy_of(cells: Seq<(IVec3, VehicleCell)>) -> Seq<IVec2> {
    Seq::new(cells.len(), |i: int| IVec2 { x: cells[i].0.x, y: cells[i].0.y })
}

/// The tiles under a body, each where it first occurs.
pub open spec fn base_tiles(cells: Seq<(IVec3, VehicleCell)>) -> Seq<IVec2> {
    distinct(xy_of(cells))
}

/// Whether a tile is in a list.
pub fn holds_tile(list: &Vec<IVec2>, t: IVec2) -> (b: bool)
    ensures
        b == list@.contains(t),
{
    let mut i: usize = 0;
    while i < list.len()
        invariant
            i <= list.len(),
            forall|j: int| 0 <= j < i ==> list@[j] != t,
        decreases list.len() - i,
    {
        if list[i] == t {
            assert(list@[i as int] == t);
            return true;
        }
        i += 1;
    }
    false
}

/// The tiles under a body, in the order in which they first occur.
pub fn tiles_under(grid: &VehicleGrid) -> (list: Vec<IVec2>)
    ensures
        list@ == base_tiles(grid.cells@),
{
    let ghost all = xy_of(grid.cells@);
    let mut list: Vec<IVec2> = Vec::new();
    let mut i: usize = 0;
    assert(all.take(0) =~= Seq::empty());
    while i < grid.cells.len()
        invariant
            i <= grid.cells.len(),
            all == xy_of(grid.cells@),
            list@ == distinct(all.take(i as int)),
        decreases grid.cells.len() - i,
    {
        let t = IVec2 { x: grid.cells[i].0.x, y: grid.cells[i].0.y };
        proof {
            let next = all.take(i + 1);
            assert(next.drop_last() =~= all.take(i as int));
            assert(next.last() == t);
        }
        if !holds_tile(&list, t) {
            list.push(t);
        }
        i += 1;
    }
    assert(all.take(i as int) =~= all);
    list
}

/// A quarter turn counter-clockwise.
pub open spec fn turned(v: IVec2) -> IVec2 {
    IVec2 { x: (-v.y) as i32, y: v.x }
}

/// `tiles` after `h` quarter turns.
pub open spec fn turned_by(tiles: Seq<IVec2>, h: int) -> Seq<IVec2>
    decreases h,
{
    if h <= 0 {
        tiles
    } else {
        let before = turned_by(tiles, h - 1);
        Seq::new(tiles.len(), |i: int| turned(before[i]))
    }
}

/// The least first coordinate of the first `n` tiles.
pub open spec fn least_x(tiles: Seq<IVec2>, n: int) -> int
    decreases n,
{
    if n <= 1 {
        tiles[0].x as int
    } else {
        let m = least_x(tiles, n - 1);
        if tiles[n - 1].x < m {
            tiles[n - 1].x as int
        } else {
            m
        }
    }
}

/// The least second coordinate of the first `n` tiles.
pub open spec fn least_y(tiles: Seq<IVec2>, n: int) -> int
    decreases n,
{
    if n <= 1 {
        tiles[0].y as int
    } else {
        let m = least_y(tiles, n - 1);
        if tiles[n - 1].y < m {
            tiles[n - 1].y as int
        } else {
            m
        }
    }
}

/// `tiles` shifted so that the least coordinates are zero.
pub open spec fn anchored(tiles: Seq<IVec2>) -> Seq<IVec2> {
    let n = tiles.len() as int;
    Seq::new(
        tiles.len(),
        |i: int|
            IVec2 {
                x: (tiles[i].x - least_x(tiles, n)) as i32,
                y: (tiles[i].y - least_y(tiles, n)) as i32,
            },
    )
}

/// The offsets of a body facing heading `h`.
pub open spec fn offsets_facing(cells: Seq<(IVec3, VehicleCell)>, h: int) -> Seq<IVec2> {
    anchored(turned_by(base_tiles(cells), h))
}

/// Footprint offsets for the four headings: north, then a quarter turn counter-clockwise each.
#[derive(Debug)]
pub struct VehicleFootprint {
    pub offsets_by_heading: [Vec<IVec2>; 4],
    pub height_z: u8,
}

/// The tiles can be turned and shifted without leaving `i32`.
pub open spec fn turnable(tiles: Seq<IVec2>) -> bool {
    &&& forall|i: int|
        0 <= i < tiles.len() ==> (#[trigger] tiles[i]).x > i32::MIN && tiles[i].y > i32::MIN
    &&& forall|i: int, j: int|
        0 <= i < tiles.len() && 0 <= j < tiles.len() ==> {
            &&& (#[trigger] tiles[i]).x - (#[trigger] tiles[j]).x <= i32::MAX
            &&& tiles[i].y - tiles[j].y <= i32::MAX
        }
}

proof fn least_is_attained(tiles: Seq<IVec2>, n: int)
    requires
        1 <= n <= tiles.len(),
    ensures
        exists|i: int| 0 <= i < n && (#[trigger] tiles[i]).x == least_x(tiles, n),
        exists|i: int| 0 <= i < n && (#[trigger] tiles[i]).y == least_y(tiles, n),
        forall|i: int|
            0 <= i < n ==> least_x(tiles, n) <= (#[trigger] tiles[i]).x && least_y(tiles, n)
                <= tiles[i].y,
    decreases n,
{
    if n == 1 {
        assert(tiles[0].x == least_x(tiles, 1) && tiles[0].y == least_y(tiles, 1));
    } else {
        least_is_attained(tiles, n - 1);
        let a = choose|i: int| 0 <= i < n - 1 && (#[trigger] tiles[i]).x == least_x(tiles, n - 1);
        let b = choose|i: int| 0 <= i < n - 1 && (#[trigger] tiles[i]).y == least_y(tiles, n - 1);
        assert(tiles[a].x == least_x(tiles, n) || tiles[n - 1].x == least_x(tiles, n));
        assert(tiles[b].y == least_y(tiles, n) || tiles[n - 1].y == least_y(tiles, n));
    }
}

/// The offsets shifted so that the least corner is the origin.
fn anchor_to_origin(tiles: &Vec<IVec2>) -> (out: Vec<IVec2>)
    requires
        turnable(tiles@),
    ensures
        out@ == anchored(tiles@),
{
    let mut out: Vec<IVec2> = Vec::new();
    if tiles.len() == 0 {
        assert(out@ =~= anchored(tiles@));
        return out;
    }
    let mut min_x: i32 = tiles[0].x;
    let mut min_y: i32 = tiles[0].y;
    let mut i: usize = 1;
    while i < tiles.len()
        invariant
            1 <= i <= tiles.len(),
            min_x == least_x(tiles@, i as int),
            min_y == least_y(tiles@, i as int),
        decreases tiles.len() - i,
    {
        if tiles[i].x < min_x {
            min_x = tiles[i].x;
        }
        if tiles[i].y < min_y {
            min_y = tiles[i].y;
        }
        i += 1;
    }
    proof {
        least_is_attained(tiles@, tiles@.len() as int);
    }
    i = 0;
    while i < tiles.len()
        invariant
            i <= tiles.len(),
            turnable(tiles@),
            min_x == least_x(tiles@, tiles@.len() as int),
            min_y == least_y(tiles@, tiles@.len() as int),
            exists|k: int| 0 <= k < tiles@.len() && (#[trigger] tiles@[k]).x == min_x,
            exists|k: int| 0 <= k < tiles@.len() && (#[trigger] tiles@[k]).y == min_y,
            forall|k: int|
                0 <= k < tiles@.len() ==> min_x <= (#[trigger] tiles@[k]).x && min_y
                    <= tiles@[k].y,
            out@ == anchored(tiles@).take(i as int),
        decreases tiles.len() - i,
    {
        let t = tiles[i];
        proof {
            let a = choose|k: int| 0 <= k < tiles@.len() && (#[trigger] tiles@[k]).x == min_x;
            let b = choose|k: int| 0 <= k < tiles@.len() && (#[trigger] tiles@[k]).y == min_y;
            assert(tiles@[i as int].x - tiles@[a].x <= i32::MAX);
            assert(tiles@[i as int].y - tiles@[b].y <= i32::MAX);
        }
        out.push(IVec2 { x: t.x - min_x, y: t.y - min_y });
        i += 1;
        assert(out@ =~= anchored(tiles@).take(i as int));
    }
    assert(anchored(tiles@).take(i as int) =~= anchored(tiles@));
    out
}

/// The tiles after one quarter turn.
fn turn(tiles: &Vec<IVec2>) -> (out: Vec<IVec2>)
    requires
        turnable(tiles@),
    ensures
        out@ == Seq::new(tiles@.len(), |i: int| turned(tiles@[i])),
        turnable(out@),
{
    let ghost all = Seq::new(tiles@.len(), |i: int| turned(tiles@[i]));
    let mut out: Vec<IVec2> = Vec::new();
    let mut i: usize = 0;
    while i < tiles.len()
        invariant
            i <= tiles.len(),
            turnable(tiles@),
            all == Seq::new(tiles@.len(), |i: int| turned(tiles@[i])),
            out@ == all.take(i as int),
        decreases tiles.len() - i,
    {
        let t = tiles[i];
        out.push(IVec2 { x: -t.y, y: t.x });
        i += 1;
        assert(out@ =~= all.take(i as int));
    }
    assert(all.take(i as int) =~= all);
    proof {
        assert forall|i: int, j: int| 0 <= i < all.len() && 0 <= j < all.len() implies {
            &&& (#[trigger] all[i]).x - (#[trigger] all[j]).x <= i32::MAX
            &&& all[i].y - all[j].y <= i32::MAX
        } by {
            assert(tiles@[j].y - tiles@[i].y <= i32::MAX);
            assert(tiles@[i].x - tiles@[j].x <= i32::MAX);
        }
    }
    out
}

proof fn base_is_turnable(cells: Seq<(IVec3, VehicleCell)>)
    requires
        footprint_ready(cells),
    ensures
        turnable(base_tiles(cells)),
{
    if cells.len() > 0 {
        bounding_box_is_box(cells);
    }
    let tiles = base_tiles(cells);
    let all = xy_of(cells);
    distinct_keeps_elements(all);
    assert forall|i: int| 0 <= i < tiles.len() implies (#[trigger] tiles[i]).x > i32::MIN
        && tiles[i].y > i32::MIN by {
        assert(tiles.contains(tiles[i]));
        assert(all.contains(tiles[i]));
        let k = choose|k: int| 0 <= k < all.len() && all[k] == tiles[i];
        assert(cells[k].0.x > i32::MIN);
    }
    assert forall|i: int, j: int| 0 <= i < tiles.len() && 0 <= j < tiles.len() implies {
        &&& (#[trigger] tiles[i]).x - (#[trigger] tiles[j]).x <= i32::MAX
        &&& tiles[i].y - tiles[j].y <= i32::MAX
    } by {
        assert(tiles.contains(tiles[i]) && tiles.contains(tiles[j]));
        assert(all.contains(tiles[i]) && all.contains(tiles[j]));
        let a = choose|k: int| 0 <= k < all.len() && all[k] == tiles[i];
        let b = choose|k: int| 0 <= k < all.len() && all[k] == tiles[j];
        assert(cells[a].0 == cells[a].0 && cells[b].0 == cells[b].0);
    }
}

/// What a body needs so that its footprint can be built: its tiles can be turned and the sides of
/// its box fit in `i32`.
pub open spec fn footprint_ready(cells: Seq<(IVec3, VehicleCell)>) -> bool {
    &&& forall|i: int|
        0 <= i < cells.len() ==> (#[trigger] cells[i]).0.x > i32::MIN && cells[i].0.y > i32::MIN
    &&& box_fits(cells)
}

/// How many levels a body spans, in eight bits; one for a body without cells.
pub open spec fn levels_of(cells: Seq<(IVec3, VehicleCell)>) -> u8 {
    if cells.len() == 0 {
        1
    } else {
        ((bounding_box(cells).1.z - bounding_box(cells).0.z + 1) % 256) as u8
    }
}

impl VehicleFootprint {
    /// The footprint of a body: its distinct tiles, turned and anchored for each heading.
    pub fn from_grid(grid: &VehicleGrid) -> (f: VehicleFootprint)
        requires
            footprint_ready(grid.cells@),
        ensures
            forall|h: int|
                0 <= h < 4 ==> (#[trigger] f.offsets_by_heading@[h])@ == offsets_facing(
                    grid.cells@,
                    h,
                ),
            f.height_z == levels_of(grid.cells@),
    {
        let base = tiles_under(grid);
        let levels: u8 = match grid.bounds() {
            Some((lo, hi)) => ((hi.z - lo.z + 1) % 256) as u8,
            None => 1,
        };
        proof {
            base_is_turnable(grid.cells@);
            reveal_with_fuel(turned_by, 2);
        }
        let ghost b = base_tiles(grid.cells@);
        let north = anchor_to_origin(&base);
        let quarter = turn(&base);
        assert(quarter@ =~= turned_by(b, 1));
        let west = anchor_to_origin(&quarter);
        let half = turn(&quarter);
        assert(half@ =~= turned_by(b, 2));
        let south = anchor_to_origin(&half);
        let three = turn(&half);
        assert(three@ =~= turned_by(b, 3));
        let east = anchor_to_origin(&three);
        VehicleFootprint { offsets_by_heading: [north, west, south, east], height_z: levels }
    }
}

/// The tiles that a body covers when it stands at `anchor` facing `heading`.
pub open spec fn covered(
    cells: Seq<(IVec3, VehicleCell)>,
    anchor: (i32, i32),
    heading: int,
) -> Seq<(i32, i32)> {
    let o = offsets_facing(cells, heading % 4);
    Seq::new(o.len(), |i: int| ((anchor.0 + o[i].x) as i32, (anchor.1 + o[i].y) as i32))
}

/// Every covered tile has coordinates that fit in `i32`.
pub open spec fn cover_fits(
    cells: Seq<(IVec3, VehicleCell)>,
    anchor: (i32, i32),
    heading: int,
) -> bool {
    let o = offsets_facing(cells, heading % 4);
    forall|i: int|
        0 <= i < o.len() ==> anchor.0 + (#[trigger] o[i]).x <= i32::MAX && anchor.1 + o[i].y
            <= i32::MAX
}

/// Footprint offsets are never negative, and on each axis one of them is zero.
pub proof fn offsets_start_at_the_origin(cells: Seq<(IVec3, VehicleCell)>, h: int)
    requires
        footprint_ready(cells),
        cells.len() > 0,
        0 <= h,
    ensures
        forall|i: int|
            0 <= i < offsets_facing(cells, h).len() ==> (#[trigger] offsets_facing(cells, h)[i]).x
                >= 0 && offsets_facing(cells, h)[i].y >= 0,
        exists|i: int|
            0 <= i < offsets_facing(cells, h).len() && (#[trigger] offsets_facing(cells, h)[i]).x
                == 0,
        exists|i: int|
            0 <= i < offsets_facing(cells, h).len() && (#[trigger] offsets_facing(cells, h)[i]).y
                == 0,
{
    base_is_turnable(cells);
    turns_stay_turnable(base_tiles(cells), h);
    distinct_keeps_elements(xy_of(cells));
    let t = turned_by(base_tiles(cells), h);
    assert(xy_of(cells).contains(xy_of(cells)[0]));
    assert(base_tiles(cells).len() > 0);
    least_is_attained(t, t.len() as int);
    let a = choose|i: int| 0 <= i < t.len() && (#[trigger] t[i]).x == least_x(t, t.len() as int);
    let b = choose|i: int| 0 <= i < t.len() && (#[trigger] t[i]).y == least_y(t, t.len() as int);
    let o = offsets_facing(cells, h);
    assert(o[a].x == 0);
    assert(o[b].y == 0);
    assert forall|i: int| 0 <= i < o.len() implies (#[trigger] o[i]).x >= 0 && o[i].y >= 0 by {
        assert(t[i].x - t[a].x <= i32::MAX);
        assert(t[i].y - t[b].y <= i32::MAX);
        assert(least_x(t, t.len() as int) <= t[i].x);
    }
}

proof fn turns_stay_turnable(tiles: Seq<IVec2>, h: int)
    requires
        turnable(tiles),
    ensures
        turnable(turned_by(tiles, h)),
        turned_by(tiles, h).len() == tiles.len(),
    decreases h,
{
    if h > 0 {
        turns_stay_turnable(tiles, h - 1);
        let before = turned_by(tiles, h - 1);
        let after = turned_by(tiles, h);
        assert forall|i: int, j: int| 0 <= i < after.len() && 0 <= j < after.len() implies {
            &&& (#[trigger] after[i]).x - (#[trigger] after[j]).x <= i32::MAX
            &&& after[i].y - after[j].y <= i32::MAX
        } by {
            assert(before[j].y - before[i].y <= i32::MAX);
            assert(before[i].x - before[j].x <= i32::MAX);
        }
        assert forall|i: int| 0 <= i < after.len() implies (#[trigger] after[i]).x > i32::MIN
            && after[i].y > i32::MIN by {
            assert(before[i].x > i32::MIN && before[i].y > i32::MIN);
            assert(before[i].y <= i32::MAX);
        }
    }
}

/// Every heading covers the same number of tiles, no tile twice, and four quarter turns are none.
pub proof fn headings_cover_alike(cells: Seq<(IVec3, VehicleCell)>, h: int)
    requires
        footprint_ready(cells),
        cells.len() > 0,
        0 <= h,
    ensures
        offsets_facing(cells, h).len() == base_tiles(cells).len(),
        offsets_facing(cells, h).no_duplicates(),
        offsets_facing(cells, h + 4) == offsets_facing(cells, h),
{
    base_is_turnable(cells);
    let b = base_tiles(cells);
    turns_stay_turnable(b, h);
    turns_stay_turnable(b, h + 1);
    turns_stay_turnable(b, h + 2);
    turns_stay_turnable(b, h + 3);
    distinct_keeps_elements(xy_of(cells));
    turns_keep_distinct(b, h);
    let t = turned_by(b, h);
    let o = offsets_facing(cells, h);
    least_is_attained(t, t.len() as int);
    let p = choose|i: int| 0 <= i < t.len() && (#[trigger] t[i]).x == least_x(t, t.len() as int);
    let q = choose|i: int| 0 <= i < t.len() && (#[trigger] t[i]).y == least_y(t, t.len() as int);
    assert forall|i: int, j: int| 0 <= i < o.len() && 0 <= j < o.len() && i != j implies o[i]
        != o[j] by {
        assert(t[i].x - t[p].x <= i32::MAX && t[j].x - t[p].x <= i32::MAX);
        assert(t[i].y - t[q].y <= i32::MAX && t[j].y - t[q].y <= i32::MAX);
        assert(t[i] != t[j]);
        assert(least_x(t, t.len() as int) <= t[i].x && least_x(t, t.len() as int) <= t[j].x);
    }
    reveal_with_fuel(turned_by, 5);
    assert(turned_by(b, h + 4) =~= turned_by(b, h)) by {
        assert forall|i: int| 0 <= i < b.len() implies turned_by(b, h + 4)[i] == turned_by(b, h)[i] by {
            let v = t[i];
            assert(v.x > i32::MIN && v.y > i32::MIN);
        }
    }
}

proof fn turns_keep_distinct(tiles: Seq<IVec2>, h: int)
    requires
        turnable(tiles),
        tiles.no_duplicates(),
    ensures
        turned_by(tiles, h).no_duplicates(),
    decreases h,
{
    if h > 0 {
        turns_keep_distinct(tiles, h - 1);
        turns_stay_turnable(tiles, h - 1);
        let before = turned_by(tiles, h - 1);
        let after = turned_by(tiles, h);
        assert forall|i: int, j: int|
            0 <= i < after.len() && 0 <= j < after.len() && i != j implies after[i] != after[j] by {
            assert(before[i] != before[j]);
            assert(before[i].y > i32::MIN && before[j].y > i32::MIN);
        }
    }
}

/// The tiles that a design covers at `anchor` facing `heading`.
pub fn footprint_tiles(
    design: &VehicleDesign,
    anchor: (i32, i32),
    heading: u8,
) -> (tiles: Vec<(i32, i32)>)
    requires
        footprint_ready(design.grid.cells@),
        cover_fits(design.grid.cells@, anchor, heading as int),
    ensures
        tiles@ == covered(design.grid.cells@, anchor, heading as int),
{
    let f = VehicleFootprint::from_grid(&design.grid);
    let h: usize = (heading % 4) as usize;
    let offsets = &f.offsets_by_heading[h];
    let ghost cells = design.grid.cells@;
    let ghost all = covered(cells, anchor, heading as int);
    assert(offsets@ == offsets_facing(cells, h as int));
    proof {
        if cells.len() > 0 {
            offsets_start_at_the_origin(cells, h as int);
        }
    }
    let mut tiles: Vec<(i32, i32)> = Vec::new();
    let mut i: usize = 0;
    while i < offsets.len()
        invariant
            i <= offsets.len(),
            offsets@ == offsets_facing(cells, h as int),
            h == heading % 4,
            all == covered(cells, anchor, heading as int),
            cover_fits(cells, anchor, heading as int),
            cells.len() == 0 ==> offsets@.len() == 0,
            cells.len() > 0 ==> forall|i: int|
                0 <= i < offsets@.len() ==> (#[trigger] offsets@[i]).x >= 0 && offsets@[i].y >= 0,
            tiles@ == all.take(i as int),
        decreases offsets.len() - i,
    {
        let o = offsets[i];
        assert(anchor.0 + offsets@[i as int].x <= i32::MAX);
        tiles.push((anchor.0 + o.x, anchor.1 + o.y));
        i += 1;
        assert(tiles@ =~= all.take(i as int));
    }
    assert(all.take(i as int) =~= all);
    tiles
}

/// A design parked at `anchor` has a footprint tile within one of `target`.
pub open spec fn reaches_spec(
    cells: Seq<(IVec3, VehicleCell)>,
    anchor: (i32, i32),
    heading: int,
    target: (i32, i32),
) -> bool {
    exists|i: int|
        0 <= i < covered(cells, anchor, heading).len() && tile_distance(
            #[trigger] covered(cells, anchor, heading)[i],
            target,
        ) <= 1
}

/// Whether a parked design is close enough to `target` to load or deliver.
pub fn footprint_reaches(
    design: &VehicleDesign,
    anchor: (i32, i32),
    heading: u8,
    target: (i32, i32),
) -> (b: bool)
    requires
        footprint_ready(design.grid.cells@),
        cover_fits(design.grid.cells@, anchor, heading as int),
    ensures
        b == reaches_spec(design.grid.cells@, anchor, heading as int, target),
{
    let tiles = footprint_tiles(design, anchor, heading);
    let mut i: usize = 0;
    while i < tiles.len()
        invariant
            i <= tiles.len(),
            tiles@ == covered(design.grid.cells@, anchor, heading as int),
            forall|j: int| 0 <= j < i ==> tile_distance(#[trigger] tiles@[j], target) > 1,
        decreases tiles.len() - i,
    {
        if cheb(tiles[i], target) <= 1 {
            assert(tile_distance(tiles@[i as int], target) <= 1);
            return true;
        }
        i += 1;
    }
    false
}

/// The first coordinate of a cell's tile once the body has turned `h` quarters counter-clockwise.
pub open spec fn turned_x(p: IVec3, h: int) -> int {
    if h == 0 {
        p.x as int
    } else if h == 1 {
        -p.y
    } else if h == 2 {
        -p.x
    } else {
        p.y as int
    }
}

/// The second coordinate of a cell's tile once the body has turned `h` quarters
/// counter-clockwise.
pub open spec fn turned_y(p: IVec3, h: int) -> int {
    if h == 0 {
        p.y as int
    } else if h == 1 {
        p.x as int
    } else if h == 2 {
        -p.y
    } else {
        -p.x
    }
}

proof fn turns_go_by_quarters(tiles: Seq<IVec2>, h: int, k: int)
    requires
        turnable(tiles),
        0 <= h < 4,
        0 <= k < tiles.len(),
    ensures
        turned_by(tiles, h).len() == tiles.len(),
        ({
            let p = IVec3 { x: tiles[k].x, y: tiles[k].y, z: 0 };
            turned_by(tiles, h)[k].x == turned_x(p, h) && turned_by(tiles, h)[k].y == turned_y(
                p,
                h,
            )
        }),
    decreases h,
{
    assert(tiles[k].x > i32::MIN && tiles[k].y > i32::MIN);
    if h > 0 {
        turns_go_by_quarters(tiles, h - 1, k);
        assert(turned_by(tiles, h)[k] == turned(turned_by(tiles, h - 1)[k]));
    }
}

proof fn tile_has_cell(cells: Seq<(IVec3, VehicleCell)>, h: int, k: int) -> (i: int)
    requires
        footprint_ready(cells),
        0 <= h < 4,
        0 <= k < base_tiles(cells).len(),
    ensures
        turned_by(base_tiles(cells), h).len() == base_tiles(cells).len(),
        0 <= i < cells.len(),
        turned_by(base_tiles(cells), h)[k].x == turned_x(cells[i].0, h),
        turned_by(base_tiles(cells), h)[k].y == turned_y(cells[i].0, h),
{
    let all = xy_of(cells);
    let base = base_tiles(cells);
    base_is_turnable(cells);
    distinct_keeps_elements(all);
    assert(base.contains(base[k]));
    assert(all.contains(base[k]));
    let i = choose|i: int| 0 <= i < all.len() && all[i] == base[k];
    turns_go_by_quarters(base, h, k);
    i
}

proof fn cell_has_tile(cells: Seq<(IVec3, VehicleCell)>, h: int, i: int) -> (k: int)
    requires
        footprint_ready(cells),
        0 <= h < 4,
        0 <= i < cells.len(),
    ensures
        turned_by(base_tiles(cells), h).len() == base_tiles(cells).len(),
        0 <= k < base_tiles(cells).len(),
        turned_by(base_tiles(cells), h)[k].x == turned_x(cells[i].0, h),
        turned_by(base_tiles(cells), h)[k].y == turned_y(cells[i].0, h),
{
    let all = xy_of(cells);
    let base = base_tiles(cells);
    base_is_turnable(cells);
    distinct_keeps_elements(all);
    assert(all.contains(all[i]));
    assert(base.contains(all[i]));
    let k = choose|k: int| 0 <= k < base.len() && base[k] == all[i];
    turns_go_by_quarters(base, h, k);
    k
}

proof fn least_cells(cells: Seq<(IVec3, VehicleCell)>, h: int, a: int, b: int)
    requires
        footprint_ready(cells),
        0 <= h < 4,
        0 <= a < cells.len(),
        0 <= b < cells.len(),
        forall|i: int|
            0 <= i < cells.len() ==> turned_x(cells[a].0, h) <= turned_x(
                (#[trigger] cells[i]).0,
                h,
            ),
        forall|i: int|
            0 <= i < cells.len() ==> turned_y(cells[b].0, h) <= turned_y(
                (#[trigger] cells[i]).0,
                h,
            ),
    ensures
        ({
            let r = turned_by(base_tiles(cells), h);
            least_x(r, r.len() as int) == turned_x(cells[a].0, h) && least_y(r, r.len() as int)
                == turned_y(cells[b].0, h)
        }),
{
    let r = turned_by(base_tiles(cells), h);
    let n = r.len() as int;
    let ka = cell_has_tile(cells, h, a);
    let kb = cell_has_tile(cells, h, b);
    least_is_attained(r, n);
    let p = choose|i: int| 0 <= i < n && (#[trigger] r[i]).x == least_x(r, n);
    let q = choose|i: int| 0 <= i < n && (#[trigger] r[i]).y == least_y(r, n);
    let i = tile_has_cell(cells, h, p);
    let j = tile_has_cell(cells, h, q);
    assert(turned_x(cells[a].0, h) <= turned_x(cells[i].0, h));
    assert(turned_y(cells[b].0, h) <= turned_y(cells[j].0, h));
    assert(least_x(r, n) <= r[ka].x && least_y(r, n) <= r[kb].y);
}

/// A body covers exactly the tiles of its cells, turned as it faces and moved so that the least
/// coordinates, those of cells `a` and `b`, come to lie on the anchor's.
pub proof fn bodies_cover_their_turned_cells(
    cells: Seq<(IVec3, VehicleCell)>,
    anchor: (i32, i32),
    heading: int,
    a: int,
    b: int,
    t: (i32, i32),
)
    requires
        footprint_ready(cells),
        0 <= heading,
        cover_fits(cells, anchor, heading),
        0 <= a < cells.len(),
        0 <= b < cells.len(),
        forall|i: int|
            0 <= i < cells.len() ==> turned_x(cells[a].0, heading % 4) <= turned_x(
                (#[trigger] cells[i]).0,
                heading % 4,
            ),
        forall|i: int|
            0 <= i < cells.len() ==> turned_y(cells[b].0, heading % 4) <= turned_y(
                (#[trigger] cells[i]).0,
                heading % 4,
            ),
    ensures
        covered(cells, anchor, heading).contains(t) <==> exists|i: int|
            {
                &&& 0 <= i < cells.len()
                &&& t.0 - anchor.0 == turned_x((#[trigger] cells[i]).0, heading % 4) - turned_x(
                    cells[a].0,
                    heading % 4,
                )
                &&& t.1 - anchor.1 == turned_y(cells[i].0, heading % 4) - turned_y(
                    cells[b].0,
                    heading % 4,
                )
            },
{
    let h = heading % 4;
    let r = turned_by(base_tiles(cells), h);
    let o = offsets_facing(cells, h);
    let c = covered(cells, anchor, heading);
    offsets_start_at_the_origin(cells, h);
    least_cells(cells, h, a, b);
    let ka = cell_has_tile(cells, h, a);
    let kb = cell_has_tile(cells, h, b);
    base_is_turnable(cells);
    turns_stay_turnable(base_tiles(cells), h);
    if c.contains(t) {
        let k = choose|k: int| 0 <= k < c.len() && c[k] == t;
        let i = tile_has_cell(cells, h, k);
        assert(r[k].x - r[ka].x <= i32::MAX && r[k].y - r[kb].y <= i32::MAX);
        assert(o[k].x >= 0 && o[k].y >= 0);
        assert(anchor.0 + o[k].x <= i32::MAX);
        assert(turned_x(cells[a].0, h) <= turned_x(cells[i].0, h));
    }
    if exists|i: int|
        {
            &&& 0 <= i < cells.len()
            &&& t.0 - anchor.0 == turned_x((#[trigger] cells[i]).0, h) - turned_x(cells[a].0, h)
            &&& t.1 - anchor.1 == turned_y(cells[i].0, h) - turned_y(cells[b].0, h)
        } {
        let i = choose|i: int|
            {
                &&& 0 <= i < cells.len()
                &&& t.0 - anchor.0 == turned_x((#[trigger] cells[i]).0, h) - turned_x(
                    cells[a].0,
                    h,
                )
                &&& t.1 - anchor.1 == turned_y(cells[i].0, h) - turned_y(cells[b].0, h)
            };
        let k = cell_has_tile(cells, h, i);
        assert(r[k].x - r[ka].x <= i32::MAX && r[k].y - r[kb].y <= i32::MAX);
        assert(o[k].x >= 0 && o[k].y >= 0);
        assert(anchor.0 + o[k].x <= i32::MAX);
        assert(c[k] == t);
    }
}

} // verus!
