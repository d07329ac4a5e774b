//! The distant world: cells of the globe that nobody is near, simulated in batches.

use vstd::prelude::*;
use std::collections::VecDeque;
use crate::geometry::{max, min};
use crate::seqs::{collect, collect_contains, count, find, find_is_first, find_is_none};
use crate::tiles::{has_tile, tiles_in};

verus! {

/// A cell grows no further than this.
pub const MAX_CELL_POPULATION: u16 = 1000;

/// A cell of the globe. Food is kept as the bits of a number that only the outside computes with.
#[derive(Clone, Copy, Debug, PartialEq, Eq, Structural)]
pub struct GlobeCell {
    /// Who holds it; zero if nobody does.
    pub faction_id: u32,
    pub population: u16,
    pub food_bits: u32,
    pub explored: bool,
}

/// The globe, row by row.
#[derive(Debug)]
pub struct GlobeGrid {
    pub width: i32,
    pub height: i32,
    pub cells: Vec<GlobeCell>,
}

impl GlobeGrid {
    pub open spec fn wf(self) -> bool {
        &&& self.width > 0
        &&& self.height > 0
        &&& self.cells@.len() == self.width * self.height
    }

    /// A place is on the globe.
    pub open spec fn covers(self, gx: int, gy: int) -> bool {
        0 <= gx < self.width && 0 <= gy < self.height
    }

    /// The index of a place.
    pub open spec fn place(self, gx: int, gy: int) -> int {
        gy * self.width + gx
    }

    /// The index of a cell on the globe.
    pub fn index_of(&self, gx: i32, gy: i32) -> (r: Option<usize>)
        requires
            self.wf(),
        ensures
            match r {
                Some(i) => self.covers(gx as int, gy as int) && i == self.place(
                    gx as int,
                    gy as int,
                ) && i < self.cells@.len(),
                None => !self.covers(gx as int, gy as int),
            },
    {
        if gx < 0 || gy < 0 || gx >= self.width || gy >= self.height {
            return None;
        }
        let n: usize = self.cells.len();
        proof {
            assert(0 <= gy * self.width && gy * self.width + gx < n) by (nonlinear_arith)
                requires
                    0 <= gx < self.width,
                    0 <= gy < self.height,
                    n == self.width * self.height,
            ;
        }
        Some(gy as usize * self.width as usize + gx as usize)
    }
}

/// A change to a cell.
#[derive(Clone, Copy, Debug, PartialEq, Eq, Structural)]
pub struct WorldSimCellDelta {
    pub gx: i32,
    pub gy: i32,
    pub faction_id: u32,
    pub population: u16,
    pub food_bits: u32,
}

/// A starving cell turns on a neighbour.
#[derive(Clone, Copy, Debug)]
pub struct RaidIntent {
    pub raider_pos: (i32, i32),
    pub target_pos: (i32, i32),
}

/// A cell as a batch sees it: after the harvest came in and the people were fed.
#[derive(Clone, Copy, Debug, PartialEq, Eq, Structural)]
pub struct WorldSimCellSnapshot {
    pub gx: i32,
    pub gy: i32,
    pub faction_id: u32,
    pub population: u16,
    /// The food that is left.
    pub food_bits: u32,
    /// There is more than five times as much food as people.
    pub ample: bool,
    /// Nothing is left.
    pub starving: bool,
}

/// What a batch came to.
#[derive(Debug)]
pub struct WorldSimResult {
    pub generation: u64,
    pub snapshot_cells: usize,
    pub deltas: Vec<WorldSimCellDelta>,
    pub raids: Vec<RaidIntent>,
}

/// The people of a cell after a turn.
pub open spec fn next_population(s: WorldSimCellSnapshot) -> u16 {
    if s.ample && s.population < MAX_CELL_POPULATION {
        (s.population + 1) as u16
    } else if s.starving && s.population > 0 {
        (s.population - 1) as u16
    } else {
        s.population
    }
}

/// The change to a cell.
pub open spec fn delta_of(s: WorldSimCellSnapshot) -> WorldSimCellDelta {
    WorldSimCellDelta {
        gx: s.gx,
        gy: s.gy,
        faction_id: s.faction_id,
        population: next_population(s),
        food_bits: s.food_bits,
    }
}

/// The changes that a batch makes: one for each cell that somebody holds.
pub open spec fn deltas_of(snaps: Seq<WorldSimCellSnapshot>) -> Seq<WorldSimCellDelta> {
    collect(
        snaps.len() as int,
        |i: int| snaps[i].faction_id != 0,
        |i: int| delta_of(snaps[i]),
    )
}

/// The four neighbours of a cell: above, below, left, right.
pub open spec fn neighbours(gx: int, gy: int) -> Seq<(int, int)> {
    seq![(gx, gy - 1), (gx, gy + 1), (gx - 1, gy), (gx + 1, gy)]
}

/// A cell can be raided: on the globe, and not simulated in full.
pub open spec fn raidable(
    loaded: Set<(i32, i32)>,
    width: i32,
    height: i32,
) -> spec_fn((int, int)) -> bool {
    |t: (int, int)|
        {
            &&& 0 <= t.0 < width
            &&& 0 <= t.1 < height
            &&& !loaded.contains((t.0 as i32, t.1 as i32))
        }
}

/// The neighbour that a starving cell turns on.
pub open spec fn raid_target(
    s: WorldSimCellSnapshot,
    loaded: Set<(i32, i32)>,
    width: i32,
    height: i32,
) -> Option<(int, int)> {
    find(neighbours(s.gx as int, s.gy as int), raidable(loaded, width, height))
}

/// A cell raids.
pub open spec fn raids(
    s: WorldSimCellSnapshot,
    loaded: Set<(i32, i32)>,
    width: i32,
    height: i32,
) -> bool {
    s.faction_id != 0 && s.starving && raid_target(s, loaded, width, height) is Some
}

/// The raid of a cell.
pub open spec fn raid_of(
    s: WorldSimCellSnapshot,
    loaded: Set<(i32, i32)>,
    width: i32,
    height: i32,
) -> RaidIntent {
    let t = raid_target(s, loaded, width, height)->0;
    RaidIntent { raider_pos: (s.gx, s.gy), target_pos: (t.0 as i32, t.1 as i32) }
}

/// The raids of a batch.
pub open spec fn raids_of(
    snaps: Seq<WorldSimCellSnapshot>,
    loaded: Set<(i32, i32)>,
    width: i32,
    height: i32,
) -> Seq<RaidIntent> {
    collect(
        snaps.len() as int,
        |i: int| raids(snaps[i], loaded, width, height),
        |i: int| raid_of(snaps[i], loaded, width, height),
    )
}

fn find_raid_target(
    s: &WorldSimCellSnapshot,
    loaded: &ahash::AHashSet<(i32, i32)>,
    width: i32,
    height: i32,
) -> (r: Option<(i32, i32)>)
    ensures
        match raid_target(*s, tiles_in(*loaded), width, height) {
            Some(t) => r == Some((t.0 as i32, t.1 as i32)),
            None => r is None,
        },
{
    let ghost all = neighbours(s.gx as int, s.gy as int);
    let ghost p = raidable(tiles_in(*loaded), width, height);
    let mut k: u8 = 0;
    while k < 4
        invariant
            k <= 4,
            all == neighbours(s.gx as int, s.gy as int),
            p == raidable(tiles_in(*loaded), width, height),
            forall|j: int| 0 <= j < k ==> !p(#[trigger] all[j]),
        decreases 4 - k,
    {
        let (dx, dy): (i64, i64) = match k {
            0 => (0, -1),
            1 => (0, 1),
            2 => (-1, 0),
            _ => (1, 0),
        };
        let nx: i64 = s.gx as i64 + dx;
        let ny: i64 = s.gy as i64 + dy;
        assert(all[k as int] == (nx as int, ny as int));
        if 0 <= nx && nx < width as i64 && 0 <= ny && ny < height as i64 {
            let t: (i32, i32) = (nx as i32, ny as i32);
            if !has_tile(loaded, t) {
                proof {
                    find_is_first(all, p, k as int);
                }
                return Some(t);
            }
        }
        assert(!p(all[k as int]));
        k += 1;
    }
    proof {
        find_is_none(all, p);
    }
    None
}

/// One turn of a batch of cells.
pub fn compute_world_sim_batch(
    snaps: &Vec<WorldSimCellSnapshot>,
    loaded: &ahash::AHashSet<(i32, i32)>,
    width: i32,
    height: i32,
    generation: u64,
) -> (r: WorldSimResult)
    ensures
        r.generation == generation,
        r.snapshot_cells == snaps@.len(),
        r.deltas@ == deltas_of(snaps@),
        r.raids@ == raids_of(snaps@, tiles_in(*loaded), width, height),
{
    let ghost set = tiles_in(*loaded);
    let ghost p = |i: int| snaps@[i].faction_id != 0;
    let ghost mk = |i: int| delta_of(snaps@[i]);
    let ghost q = |i: int| raids(snaps@[i], set, width, height);
    let ghost mr = |i: int| raid_of(snaps@[i], set, width, height);
    let mut deltas: Vec<WorldSimCellDelta> = Vec::new();
    let mut list: Vec<RaidIntent> = Vec::new();
    let mut i: usize = 0;
    while i < snaps.len()
        invariant
            i <= snaps.len(),
            set == tiles_in(*loaded),
            p == (|i: int| snaps@[i].faction_id != 0),
            mk == (|i: int| delta_of(snaps@[i])),
            q == (|i: int| raids(snaps@[i], set, width, height)),
            mr == (|i: int| raid_of(snaps@[i], set, width, height)),
            deltas@ == collect(i as int, p, mk),
            list@ == collect(i as int, q, mr),
        decreases snaps.len() - i,
    {
        let s = snaps[i];
        if s.faction_id != 0 {
            let population: u16 = if s.ample && s.population < MAX_CELL_POPULATION {
                s.population + 1
            } else if s.starving && s.population > 0 {
                s.population - 1
            } else {
                s.population
            };
            deltas.push(
                WorldSimCellDelta {
                    gx: s.gx,
                    gy: s.gy,
                    faction_id: s.faction_id,
                    population,
                    food_bits: s.food_bits,
                },
            );
            if s.starving {
                match find_raid_target(&s, loaded, width, height) {
                    Some(t) => {
                        list.push(RaidIntent { raider_pos: (s.gx, s.gy), target_pos: t });
                    },
                    None => {},
                }
            }
        }
        i += 1;
    }
    WorldSimResult { generation, snapshot_cells: snaps.len(), deltas, raids: list }
}

/// Only cells that somebody holds change, and every one of them does; their people grow or shrink
/// by one at most.
pub proof fn only_claimed_cells_change(snaps: Seq<WorldSimCellSnapshot>, d: WorldSimCellDelta)
    ensures
        deltas_of(snaps).contains(d) <==> exists|i: int|
            0 <= i < snaps.len() && (#[trigger] snaps[i]).faction_id != 0 && d == delta_of(snaps[i]),
        deltas_of(snaps).contains(d) ==> d.faction_id != 0,
        forall|s: WorldSimCellSnapshot|
            -1 <= (#[trigger] next_population(s)) - s.population <= 1,
{
    let p = |i: int| snaps[i].faction_id != 0;
    let mk = |i: int| delta_of(snaps[i]);
    collect_contains(snaps.len() as int, p, mk, d);
    if deltas_of(snaps).contains(d) {
        let i = choose|i: int| 0 <= i < snaps.len() && p(i) && #[trigger] mk(i) == d;
        assert(snaps[i].faction_id != 0);
    }
    if exists|i: int|
        0 <= i < snaps.len() && (#[trigger] snaps[i]).faction_id != 0 && d == delta_of(snaps[i]) {
        let i = choose|i: int|
            0 <= i < snaps.len() && (#[trigger] snaps[i]).faction_id != 0 && d == delta_of(
                snaps[i],
            );
        assert(p(i) && mk(i) == d);
    }
}

/// A raid goes next door, to a cell on the globe that is not simulated in full.
pub proof fn raids_go_next_door(
    s: WorldSimCellSnapshot,
    loaded: Set<(i32, i32)>,
    width: i32,
    height: i32,
)
    ensures
        raids(s, loaded, width, height) ==> {
            let t = raid_of(s, loaded, width, height).target_pos;
            &&& 0 <= t.0 < width
            &&& 0 <= t.1 < height
            &&& !loaded.contains(t)
            &&& crate::geometry::abs(t.0 - s.gx) + crate::geometry::abs(t.1 - s.gy) == 1
        },
{
    if raids(s, loaded, width, height) {
        let all = neighbours(s.gx as int, s.gy as int);
        let p = raidable(loaded, width, height);
        find_is_none(all, p);
        let t = raid_target(s, loaded, width, height)->0;
        let k = choose|k: int| 0 <= k < all.len() && all[k] == t;
        assert(k == 0 || k == 1 || k == 2 || k == 3);
    }
}

/// What is still to be applied.
pub struct WorldSimTaskState {
    pub pending_deltas: VecDeque<WorldSimCellDelta>,
    pub pending_raids: VecDeque<RaidIntent>,
}

impl WorldSimTaskState {
    pub fn new() -> (s: WorldSimTaskState)
        ensures
            s.pending_deltas@.len() == 0,
            s.pending_raids@.len() == 0,
    {
        WorldSimTaskState { pending_deltas: VecDeque::new(), pending_raids: VecDeque::new() }
    }
}

/// Queues what a batch came to, unless the world has changed since it began. Says whether it was
/// queued.
pub fn queue_world_sim_result_if_current(
    state: &mut WorldSimTaskState,
    result: &WorldSimResult,
    generation: u64,
) -> (queued: bool)
    ensures
        queued == (result.generation == generation),
        final(state).pending_deltas@ == (if queued {
            old(state).pending_deltas@ + result.deltas@
        } else {
            old(state).pending_deltas@
        }),
        final(state).pending_raids@ == (if queued {
            old(state).pending_raids@ + result.raids@
        } else {
            old(state).pending_raids@
        }),
{
    if result.generation != generation {
        return false;
    }
    let ghost d = state.pending_deltas@;
    let ghost r = state.pending_raids@;
    let mut i: usize = 0;
    assert(d + result.deltas@.take(0) =~= d);
    while i < result.deltas.len()
        invariant
            i <= result.deltas.len(),
            state.pending_deltas@ == d + result.deltas@.take(i as int),
            state.pending_raids@ == r,
        decreases result.deltas.len() - i,
    {
        state.pending_deltas.push_back(result.deltas[i]);
        i += 1;
        assert(state.pending_deltas@ =~= d + result.deltas@.take(i as int));
    }
    assert(result.deltas@.take(i as int) =~= result.deltas@);
    i = 0;
    assert(r + result.raids@.take(0) =~= r);
    while i < result.raids.len()
        invariant
            i <= result.raids.len(),
            state.pending_deltas@ == d + result.deltas@,
            state.pending_raids@ == r + result.raids@.take(i as int),
        decreases result.raids.len() - i,
    {
        state.pending_raids.push_back(result.raids[i]);
        i += 1;
        assert(state.pending_raids@ =~= r + result.raids@.take(i as int));
    }
    assert(result.raids@.take(i as int) =~= result.raids@);
    true
}

/// A change still applies: its cell is on the globe and held by the same faction.
pub open spec fn applies(width: int, cells: Seq<GlobeCell>, height: int, d: WorldSimCellDelta) -> bool {
    &&& 0 <= d.gx < width
    &&& 0 <= d.gy < height
    &&& cells[d.gy * width + d.gx].faction_id == d.faction_id
}

/// The cells after the first `n` changes.
pub open spec fn after_deltas(
    cells: Seq<GlobeCell>,
    width: int,
    height: int,
    deltas: Seq<WorldSimCellDelta>,
    n: int,
) -> Seq<GlobeCell>
    decreases n,
{
    if n <= 0 {
        cells
    } else {
        let before = after_deltas(cells, width, height, deltas, n - 1);
        let d = deltas[n - 1];
        let i = d.gy * width + d.gx;
        if applies(width, before, height, d) {
            before.update(
                i,
                GlobeCell { population: d.population, food_bits: d.food_bits, ..before[i] },
            )
        } else {
            before
        }
    }
}

/// How many of the first `n` changes applied.
pub open spec fn applied_count(
    cells: Seq<GlobeCell>,
    width: int,
    height: int,
    deltas: Seq<WorldSimCellDelta>,
    n: int,
) -> int
    decreases n,
{
    if n <= 0 {
        0
    } else {
        applied_count(cells, width, height, deltas, n - 1) + (if applies(
            width,
            after_deltas(cells, width, height, deltas, n - 1),
            height,
            deltas[n - 1],
        ) {
            1int
        } else {
            0
        })
    }
}

/// Applies the oldest changes, at most `budget` of them; returns how many applied. A cell that has
/// changed hands is left alone.
pub fn apply_deltas(globe: &mut GlobeGrid, state: &mut WorldSimTaskState, budget: u32) -> (applied:
    u32)
    requires
        old(globe).wf(),
    ensures
        ({
            let pending = old(state).pending_deltas@;
            let n = min(budget as int, pending.len() as int);
            let w = old(globe).width as int;
            let h = old(globe).height as int;
            &&& final(globe).wf()
            &&& final(globe).width == w && final(globe).height == h
            &&& final(globe).cells@ == after_deltas(old(globe).cells@, w, h, pending, n)
            &&& applied == applied_count(old(globe).cells@, w, h, pending, n)
            &&& final(state).pending_deltas@ == pending.skip(n)
            &&& final(state).pending_raids@ == old(state).pending_raids@
        }),
{
    let ghost pending = state.pending_deltas@;
    let ghost start = globe.cells@;
    let ghost w = globe.width as int;
    let ghost h = globe.height as int;
    let mut applied: u32 = 0;
    let mut n: u32 = 0;
    assert(pending.skip(0) =~= pending);
    while n < budget && state.pending_deltas.len() > 0
        invariant
            n <= budget,
            n <= pending.len(),
            globe.wf(),
            globe.width == w,
            globe.height == h,
            globe.cells@ == after_deltas(start, w, h, pending, n as int),
            applied == applied_count(start, w, h, pending, n as int),
            applied <= n,
            state.pending_deltas@ == pending.skip(n as int),
            state.pending_raids@ == old(state).pending_raids@,
        decreases budget - n,
    {
        let ghost rest = state.pending_deltas@;
        match state.pending_deltas.pop_front() {
            Some(d) => {
                assert(d == pending[n as int]);
                match globe.index_of(d.gx, d.gy) {
                    Some(i) => {
                        let cell = globe.cells[i];
                        if cell.faction_id == d.faction_id {
                            globe.cells.set(
                                i,
                                GlobeCell {
                                    faction_id: cell.faction_id,
                                    population: d.population,
                                    food_bits: d.food_bits,
                                    explored: cell.explored,
                                },
                            );
                            applied = applied + 1;
                        }
                    },
                    None => {},
                }
                assert(state.pending_deltas@ =~= pending.skip(n + 1));
            },
            None => {
                assert(rest.len() == 0);
            },
        }
        n = n + 1;
    }
    applied
}

/// Changes never move a cell from one faction to another, nor forget that it was explored.
pub proof fn deltas_keep_owners(
    cells: Seq<GlobeCell>,
    width: int,
    height: int,
    deltas: Seq<WorldSimCellDelta>,
    n: int,
)
    requires
        width > 0,
        height > 0,
        cells.len() == width * height,
    ensures
        after_deltas(cells, width, height, deltas, n).len() == cells.len(),
        forall|i: int|
            0 <= i < cells.len() ==> (#[trigger] after_deltas(
                cells,
                width,
                height,
                deltas,
                n,
            )[i]).faction_id == cells[i].faction_id && after_deltas(
                cells,
                width,
                height,
                deltas,
                n,
            )[i].explored == cells[i].explored,
    decreases n,
{
    if n > 0 {
        deltas_keep_owners(cells, width, height, deltas, n - 1);
        let before = after_deltas(cells, width, height, deltas, n - 1);
        let d = deltas[n - 1];
        if applies(width, before, height, d) {
            let i = d.gy * width + d.gx;
            assert(0 <= i < width * height) by (nonlinear_arith)
                requires
                    0 <= d.gx < width,
                    0 <= d.gy < height,
                    i == d.gy * width + d.gx,
            ;
        }
    }
}

/// Whether a raid goes ahead: its target has food to spare and is held by somebody.
pub fn raid_goes_ahead(target_stocked: bool, target_faction: u32) -> (b: bool)
    ensures
        b == (target_stocked && target_faction != 0),
{
    target_stocked && target_faction != 0
}

/// The cells of one batch, as places on the globe.
pub open spec fn batch_place(start: int, total: int, width: int, k: int) -> (int, int) {
    let i = (start + k) % total;
    (i % width, i / width)
}

/// The first cell of the next batch.
pub open spec fn batch_start(next_index: int, total: int) -> int {
    min(next_index, total - 1)
}

/// The size of a batch: at least one cell, at most all.
pub open spec fn batch_size(wanted: int, total: int) -> int {
    min(max(wanted, 1), total)
}

/// The cells of the next batch: those in turn that are not simulated in full.
pub open spec fn batch_cells(
    next_index: int,
    wanted: int,
    width: i32,
    height: i32,
    loaded: Set<(i32, i32)>,
) -> Seq<(i32, i32)> {
    let total = width * height;
    let start = batch_start(next_index, total);
    collect(
        batch_size(wanted, total),
        |k: int|
            {
                let p = batch_place(start, total, width as int, k);
                !loaded.contains((p.0 as i32, p.1 as i32))
            },
        |k: int|
            {
                let p = batch_place(start, total, width as int, k);
                (p.0 as i32, p.1 as i32)
            },
    )
}

/// Where the cells of the globe are taken up next.
#[derive(Clone, Copy, Debug, PartialEq, Eq, Structural)]
pub struct WorldSimCursor {
    pub next_index: usize,
    pub generation: u64,
}

/// Picks the cells of the next batch and moves the cursor on.
pub fn next_batch(
    cursor: &mut WorldSimCursor,
    globe: &GlobeGrid,
    loaded: &ahash::AHashSet<(i32, i32)>,
    cells_per_task: usize,
) -> (cells: Vec<(i32, i32)>)
    requires
        globe.wf(),
    ensures
        cells@ == batch_cells(
            old(cursor).next_index as int,
            cells_per_task as int,
            globe.width,
            globe.height,
            tiles_in(*loaded),
        ),
        ({
            let total = globe.width * globe.height;
            final(cursor).next_index == (batch_start(old(cursor).next_index as int, total)
                + batch_size(cells_per_task as int, total)) % total
        }),
        final(cursor).generation == old(cursor).generation,
{
    let total: usize = globe.cells.len();
    proof {
        assert(globe.width * globe.height > 0) by (nonlinear_arith)
            requires
                globe.width > 0,
                globe.height > 0,
        ;
    }
    let width: usize = globe.width as usize;
    let ghost w = globe.width;
    let ghost h = globe.height;
    let wanted: usize = if cells_per_task < 1 {
        1
    } else {
        cells_per_task
    };
    let size: usize = if wanted < total {
        wanted
    } else {
        total
    };
    let start: usize = if cursor.next_index < total - 1 {
        cursor.next_index
    } else {
        total - 1
    };
    let ghost set = tiles_in(*loaded);
    let ghost t = total as int;
    let ghost s = start as int;
    let ghost p = |k: int|
        {
            let p = batch_place(s, t, w as int, k);
            !set.contains((p.0 as i32, p.1 as i32))
        };
    let ghost mk = |k: int|
        {
            let p = batch_place(s, t, w as int, k);
            (p.0 as i32, p.1 as i32)
        };
    let mut cells: Vec<(i32, i32)> = Vec::new();
    let mut idx: usize = start;
    let mut k: usize = 0;
    proof {
        vstd::arithmetic::div_mod::lemma_small_mod(start as nat, total as nat);
    }
    while k < size
        invariant
            k <= size <= total,
            total > 0,
            total == w * h,
            width == w,
            w > 0,
            h > 0,
            t == total,
            s == start,
            start < total,
            set == tiles_in(*loaded),
            p == (|k: int|
                {
                    let p = batch_place(s, t, w as int, k);
                    !set.contains((p.0 as i32, p.1 as i32))
                }),
            mk == (|k: int|
                {
                    let p = batch_place(s, t, w as int, k);
                    (p.0 as i32, p.1 as i32)
                }),
            idx == (start + k) as int % t,
            cells@ == collect(k as int, p, mk),
        decreases size - k,
    {
        proof {
            vstd::arithmetic::div_mod::lemma_mod_bound(start + k, t);
            assert(0 <= idx as int / w as int && idx as int / (w as int) < h) by (nonlinear_arith)
                requires
                    0 <= idx < w * h,
                    w > 0,
            ;
        }
        let gx: i32 = (idx % width) as i32;
        let gy: i32 = (idx / width) as i32;
        assert(batch_place(s, t, w as int, k as int) == (gx as int, gy as int));
        if !has_tile(loaded, (gx, gy)) {
            cells.push((gx, gy));
        }
        proof {
            vstd::arithmetic::div_mod::lemma_add_mod_noop(start + k, 1, t);
            vstd::arithmetic::div_mod::lemma_add_mod_noop(idx as int, 1, t);
            vstd::arithmetic::div_mod::lemma_mod_twice(start + k, t);
        }
        idx = if idx + 1 == total {
            0
        } else {
            idx + 1
        };
        proof {
            if idx == 0 {
                vstd::arithmetic::div_mod::lemma_mod_self_0(t);
            } else {
                vstd::arithmetic::div_mod::lemma_small_mod(idx as nat, t as nat);
            }
        }
        k += 1;
    }
    cursor.next_index = idx;
    cells
}

/// Batches sweep the globe: a batch takes up where the last one ended, and every cell comes up
/// once in as many steps as there are cells.
pub proof fn batches_sweep_the_globe(
    start: int,
    size: int,
    width: int,
    height: int,
    gx: int,
    gy: int,
    k: int,
)
    requires
        width > 0,
        height > 0,
        0 <= gx < width,
        0 <= gy < height,
        0 <= start < width * height,
        0 <= size,
        0 <= k,
    ensures
        ({
            let total = width * height;
            let next = (start + size) % total;
            &&& batch_start(next, total) == next
            &&& batch_place(next, total, width, k) == batch_place(start, total, width, size + k)
            &&& exists|j: int|
                0 <= j < total && #[trigger] batch_place(start, total, width, j) == (gx, gy)
            &&& forall|i: int, j: int|
                0 <= i < j < total ==> #[trigger] batch_place(start, total, width, i)
                    != #[trigger] batch_place(start, total, width, j)
        }),
{
    let total = width * height;
    let next = (start + size) % total;
    vstd::arithmetic::div_mod::lemma_mod_bound(start + size, total);
    vstd::arithmetic::div_mod::lemma_add_mod_noop(start + size, k, total);
    vstd::arithmetic::div_mod::lemma_add_mod_noop(next, k, total);
    vstd::arithmetic::div_mod::lemma_mod_twice(start + size, total);
    let at = gy * width + gx;
    assert(0 <= at < total) by (nonlinear_arith)
        requires
            at == gy * width + gx,
            total == width * height,
            0 <= gx < width,
            0 <= gy < height,
    ;
    let j = if at >= start {
        at - start
    } else {
        at - start + total
    };
    if at >= start {
        vstd::arithmetic::div_mod::lemma_small_mod(at as nat, total as nat);
    } else {
        vstd::arithmetic::div_mod::lemma_fundamental_div_mod_converse(start + j, total, 1, at);
    }
    assert((start + j) % total == at);
    vstd::arithmetic::div_mod::lemma_fundamental_div_mod_converse(at, width, gy, gx);
    assert(batch_place(start, total, width, j) == (gx, gy));
    assert forall|i: int, j: int| 0 <= i < j < total implies #[trigger] batch_place(
        start,
        total,
        width,
        i,
    ) != #[trigger] batch_place(start, total, width, j) by {
        let a = (start + i) % total;
        let b = (start + j) % total;
        turned(start + i, total);
        turned(start + j, total);
        assert(a != b);
        vstd::arithmetic::div_mod::lemma_fundamental_div_mod(a, width);
        vstd::arithmetic::div_mod::lemma_fundamental_div_mod(b, width);
    }
}

proof fn turned(x: int, total: int)
    requires
        0 <= x < 2 * total,
    ensures
        x % total == (if x < total {
            x
        } else {
            x - total
        }),
{
    if x < total {
        vstd::arithmetic::div_mod::lemma_small_mod(x as nat, total as nat);
    } else {
        vstd::arithmetic::div_mod::lemma_fundamental_div_mod_converse(x, total, 1, x - total);
    }
}

/// Marks the cells where somebody is as explored.
pub fn agent_exploration_system(globe: &mut GlobeGrid, visited: &Vec<(i32, i32)>)
    requires
        old(globe).wf(),
    ensures
        final(globe).wf(),
        final(globe).width == old(globe).width,
        final(globe).height == old(globe).height,
        forall|gx: int, gy: int|
            #![trigger old(globe).place(gx, gy)]
            old(globe).covers(gx, gy) ==> {
                let i = old(globe).place(gx, gy);
                let here = exists|k: int| 0 <= k < visited@.len() && #[trigger] visited@[k] == (gx as i32, gy as i32);
                final(globe).cells@[i] == (GlobeCell {
                    explored: old(globe).cells@[i].explored || here,
                    ..old(globe).cells@[i]
                })
            },
{
    let ghost start = *globe;
    let mut n: usize = 0;
    while n < visited.len()
        invariant
            n <= visited.len(),
            start == *old(globe),
            start.wf(),
            globe.wf(),
            globe.width == start.width,
            globe.height == start.height,
            forall|gx: int, gy: int|
                #![trigger start.place(gx, gy)]
                start.covers(gx, gy) ==> {
                    let i = start.place(gx, gy);
                    let here = exists|k: int| 0 <= k < n && #[trigger] visited@[k] == (gx as i32, gy as i32);
                    globe.cells@[i] == (GlobeCell {
                        explored: start.cells@[i].explored || here,
                        ..start.cells@[i]
                    })
                },
        decreases visited.len() - n,
    {
        let (vx, vy) = visited[n];
        let ghost before = globe.cells@;
        match globe.index_of(vx, vy) {
            Some(i) => {
                let c = globe.cells[i];
                globe.cells.set(
                    i,
                    GlobeCell {
                        faction_id: c.faction_id,
                        population: c.population,
                        food_bits: c.food_bits,
                        explored: true,
                    },
                );
            },
            None => {},
        }
        proof {
            assert forall|gx: int, gy: int|
                #![trigger start.place(gx, gy)]
                start.covers(gx, gy) implies {
                let i = start.place(gx, gy);
                let here = exists|k: int| 0 <= k < n + 1 && #[trigger] visited@[k] == (gx as i32, gy as i32);
                globe.cells@[i] == (GlobeCell {
                    explored: start.cells@[i].explored || here,
                    ..start.cells@[i]
                })
            } by {
                let i = start.place(gx, gy);
                let w = start.width as int;
                assert(0 <= i < start.cells@.len()) by (nonlinear_arith)
                    requires
                        0 <= gx < w,
                        0 <= gy < start.height,
                        i == gy * w + gx,
                        start.cells@.len() == w * start.height,
                ;
                if vx == gx && vy == gy {
                    assert(visited@[n as int] == (gx as i32, gy as i32));
                } else if start.covers(vx as int, vy as int) {
                    assert(start.place(vx as int, vy as int) != i) by (nonlinear_arith)
                        requires
                            0 <= gx < w,
                            0 <= vx < w,
                            i == gy * w + gx,
                            start.place(vx as int, vy as int) == vy * w + vx,
                            vx != gx || vy != gy,
                    ;
                }
                if exists|k: int| 0 <= k < n + 1 && #[trigger] visited@[k] == (gx as i32, gy as i32) {
                    let k = choose|k: int| 0 <= k < n + 1 && #[trigger] visited@[k] == (gx as i32, gy as i32);
                    if k < n {
                        assert(visited@[k] == (gx as i32, gy as i32));
                    }
                }
            }
        }
        n += 1;
    }
}

/// Different places on the globe have different indices, all of them within it.
proof fn places_differ(width: int, height: int, ax: int, ay: int, bx: int, by: int)
    requires
        0 <= ax < width,
        0 <= ay < height,
        0 <= bx < width,
        0 <= by < height,
    ensures
        0 <= ay * width + ax < width * height,
        ay * width + ax == by * width + bx ==> ax == bx && ay == by,
{
    assert(0 <= ay * width + ax < width * height) by (nonlinear_arith)
        requires
            0 <= ax < width,
            0 <= ay < height,
    ;
    if ay * width + ax == by * width + bx && ay != by {
        assert(false) by (nonlinear_arith)
            requires
                0 <= ax < width,
                0 <= bx < width,
                ay * width + ax == by * width + bx,
                ay != by,
        ;
    }
}

/// A change is meant for a cell of the globe that its faction holds.
pub open spec fn meant_for_its_owner(
    cells: Seq<GlobeCell>,
    width: int,
    height: int,
    d: WorldSimCellDelta,
) -> bool {
    0 <= d.gx < width && 0 <= d.gy < height && cells[d.gy * width + d.gx].faction_id
        == d.faction_id
}

/// A change that is meant for its cell's owner, and after which no other comes for that cell,
/// stands in the end: the cell holds exactly its people and its food. In a list whose places are
/// distinct this is so of every such change.
pub proof fn applied_changes_stand(
    cells: Seq<GlobeCell>,
    width: int,
    height: int,
    deltas: Seq<WorldSimCellDelta>,
    n: int,
    k: int,
)
    requires
        width > 0,
        height > 0,
        cells.len() == width * height,
        0 <= k < n <= deltas.len(),
        meant_for_its_owner(cells, width, height, deltas[k]),
        forall|j: int|
            k < j < n ==> (#[trigger] deltas[j]).gx != deltas[k].gx || deltas[j].gy != deltas[k].gy,
    ensures
        ({
            let after = after_deltas(cells, width, height, deltas, n)[deltas[k].gy * width
                + deltas[k].gx];
            &&& after.population == deltas[k].population
            &&& after.food_bits == deltas[k].food_bits
            &&& after.faction_id == deltas[k].faction_id
        }),
    decreases n,
{
    let d = deltas[k];
    let i = d.gy * width + d.gx;
    deltas_keep_owners(cells, width, height, deltas, n - 1);
    places_differ(width, height, d.gx as int, d.gy as int, d.gx as int, d.gy as int);
    let before = after_deltas(cells, width, height, deltas, n - 1);
    assert(before[i].faction_id == cells[i].faction_id);
    if k < n - 1 {
        applied_changes_stand(cells, width, height, deltas, n - 1, k);
        let e = deltas[n - 1];
        if applies(width, before, height, e) {
            places_differ(width, height, d.gx as int, d.gy as int, e.gx as int, e.gy as int);
            places_differ(width, height, e.gx as int, e.gy as int, d.gx as int, d.gy as int);
        }
    }
}

/// A cell for which no change comes from its owner stays as it is.
pub proof fn other_cells_stay(
    cells: Seq<GlobeCell>,
    width: int,
    height: int,
    deltas: Seq<WorldSimCellDelta>,
    n: int,
    gx: int,
    gy: int,
)
    requires
        width > 0,
        height > 0,
        cells.len() == width * height,
        0 <= n <= deltas.len(),
        0 <= gx < width,
        0 <= gy < height,
        forall|j: int|
            0 <= j < n ==> (#[trigger] deltas[j]).gx != gx || deltas[j].gy != gy
                || deltas[j].faction_id != cells[gy * width + gx].faction_id,
    ensures
        after_deltas(cells, width, height, deltas, n)[gy * width + gx] == cells[gy * width + gx],
    decreases n,
{
    if n > 0 {
        other_cells_stay(cells, width, height, deltas, n - 1, gx, gy);
        deltas_keep_owners(cells, width, height, deltas, n - 1);
        let before = after_deltas(cells, width, height, deltas, n - 1);
        let e = deltas[n - 1];
        if applies(width, before, height, e) {
            places_differ(width, height, gx, gy, e.gx as int, e.gy as int);
            places_differ(width, height, e.gx as int, e.gy as int, gx, gy);
        }
    }
}

/// As many changes are counted as are meant for their cell's owner.
pub proof fn owners_changes_are_counted(
    cells: Seq<GlobeCell>,
    width: int,
    height: int,
    deltas: Seq<WorldSimCellDelta>,
    n: int,
)
    requires
        width > 0,
        height > 0,
        cells.len() == width * height,
        0 <= n <= deltas.len(),
    ensures
        applied_count(cells, width, height, deltas, n) == count(
            n,
            |j: int| meant_for_its_owner(cells, width, height, deltas[j]),
        ),
    decreases n,
{
    if n > 0 {
        owners_changes_are_counted(cells, width, height, deltas, n - 1);
        deltas_keep_owners(cells, width, height, deltas, n - 1);
        let d = deltas[n - 1];
        if 0 <= d.gx < width && 0 <= d.gy < height {
            places_differ(width, height, d.gx as int, d.gy as int, d.gx as int, d.gy as int);
        }
    }
}

/// A cell with ample food gains one head up to a thousand; otherwise one where nothing is left
/// loses one, down to none; every other cell keeps its people. The food is what is left, and place
/// and faction stay.
pub proof fn cells_grow_when_fed(s: WorldSimCellSnapshot)
    ensures
        s.ample && s.population < 1000 ==> delta_of(s).population == s.population + 1,
        !(s.ample && s.population < 1000) && s.starving && s.population > 0 ==> delta_of(
            s,
        ).population == s.population - 1,
        !s.starving && (!s.ample || s.population >= 1000) ==> delta_of(s).population
            == s.population,
        s.population == 0 && !s.ample ==> delta_of(s).population == 0,
        delta_of(s).food_bits == s.food_bits,
        delta_of(s).gx == s.gx && delta_of(s).gy == s.gy && delta_of(s).faction_id == s.faction_id,
{
}

/// A cell raids exactly when somebody holds it, nothing is left, and one of its four neighbours is
/// on the globe and not simulated in full: the one above if it can, else below, else to the left,
/// else to the right.
pub proof fn the_starving_raid(
    s: WorldSimCellSnapshot,
    loaded: Set<(i32, i32)>,
    width: i32,
    height: i32,
)
    requires
        0 <= s.gx < width,
        0 <= s.gy < height,
    ensures
        ({
            let up = s.gy > 0 && !loaded.contains((s.gx, (s.gy - 1) as i32));
            let down = s.gy + 1 < height && !loaded.contains((s.gx, (s.gy + 1) as i32));
            let left = s.gx > 0 && !loaded.contains(((s.gx - 1) as i32, s.gy));
            let right = s.gx + 1 < width && !loaded.contains(((s.gx + 1) as i32, s.gy));
            let r = raid_of(s, loaded, width, height);
            &&& raids(s, loaded, width, height) <==> s.faction_id != 0 && s.starving && (up || down
                || left || right)
            &&& raids(s, loaded, width, height) ==> {
                &&& r.raider_pos == (s.gx, s.gy)
                &&& up ==> r.target_pos.0 == s.gx && r.target_pos.1 == s.gy - 1
                &&& !up && down ==> r.target_pos.0 == s.gx && r.target_pos.1 == s.gy + 1
                &&& !up && !down && left ==> r.target_pos.0 == s.gx - 1 && r.target_pos.1 == s.gy
                &&& !up && !down && !left ==> r.target_pos.0 == s.gx + 1 && r.target_pos.1
                    == s.gy
            }
        }),
{
    let all = neighbours(s.gx as int, s.gy as int);
    let p = raidable(loaded, width, height);
    assert(all.len() == 4);
    if p(all[0]) {
        find_is_first(all, p, 0);
    } else if p(all[1]) {
        find_is_first(all, p, 1);
    } else if p(all[2]) {
        find_is_first(all, p, 2);
    } else if p(all[3]) {
        find_is_first(all, p, 3);
    } else {
        assert forall|j: int| 0 <= j < all.len() implies !p(#[trigger] all[j]) by {
            assert(j == 0 || j == 1 || j == 2 || j == 3);
        }
        find_is_none(all, p);
    }
}

/// A batch takes as many cells as it is told, but at least one and never one twice; it begins where
/// the last one ended, or with the last cell if the globe has shrunk meanwhile.
pub proof fn batches_are_as_large_as_told(next_index: int, wanted: int, total: int)
    requires
        total > 0,
        next_index >= 0,
        wanted >= 0,
    ensures
        1 <= wanted <= total ==> batch_size(wanted, total) == wanted,
        wanted == 0 ==> batch_size(wanted, total) == 1,
        wanted > total ==> batch_size(wanted, total) == total,
        next_index < total ==> batch_start(next_index, total) == next_index,
        next_index >= total ==> batch_start(next_index, total) + 1 == total,
{
}

/// Batches go row by row, from the last cell on to the first.
pub proof fn batches_go_row_by_row(start: int, width: int, height: int, k: int)
    requires
        width > 0,
        height > 0,
        0 <= start < width * height,
        0 <= k < width * height,
    ensures
        ({
            let p = batch_place(start, width * height, width, k);
            &&& 0 <= p.0 < width
            &&& start + k < width * height ==> p.1 * width + p.0 == start + k
            &&& start + k >= width * height ==> p.1 * width + p.0 == start + k - width * height
        }),
{
    let total = width * height;
    let i = (start + k) % total;
    if start + k < total {
        assert(i == start + k) by (nonlinear_arith)
            requires
                0 <= start + k < total,
                i == (start + k) % total,
        ;
    } else {
        assert(i == start + k - total) by (nonlinear_arith)
            requires
                0 <= start + k - total < total,
                i == (start + k) % total,
        ;
    }
    assert((i / width) * width + i % width == i && 0 <= i % width < width) by (nonlinear_arith)
        requires
            width > 0,
    ;
}

/// Of a batch exactly the cells that are not loaded are worked on.
pub proof fn loaded_cells_are_left_alone(
    next_index: int,
    wanted: int,
    width: i32,
    height: i32,
    loaded: Set<(i32, i32)>,
    c: (i32, i32),
)
    requires
        width > 0,
        height > 0,
        0 <= next_index,
    ensures
        batch_cells(next_index, wanted, width, height, loaded).contains(c) ==> !loaded.contains(c),
        ({
            let total = width * height;
            batch_cells(next_index, wanted, width, height, loaded).contains(c) <==> !loaded.contains(
                c,
            ) && exists|k: int|
                0 <= k < batch_size(wanted, total) && ({
                    let p = #[trigger] batch_place(
                        batch_start(next_index, total),
                        total,
                        width as int,
                        k,
                    );
                    (p.0 as i32, p.1 as i32) == c
                })
        }),
{
    let total = width * height;
    let start = batch_start(next_index, total);
    let p = |k: int|
        {
            let p = batch_place(start, total, width as int, k);
            !loaded.contains((p.0 as i32, p.1 as i32))
        };
    let mk = |k: int|
        {
            let p = batch_place(start, total, width as int, k);
            (p.0 as i32, p.1 as i32)
        };
    let n = batch_size(wanted, total);
    collect_contains(n, p, mk, c);
    if batch_cells(next_index, wanted, width, height, loaded).contains(c) {
        let k = choose|k: int| 0 <= k < n && p(k) && #[trigger] mk(k) == c;
        assert(batch_place(start, total, width as int, k) == batch_place(
            start,
            total,
            width as int,
            k,
        ));
    }
    if !loaded.contains(c) && exists|k: int|
        0 <= k < n && ({
            let p = #[trigger] batch_place(start, total, width as int, k);
            (p.0 as i32, p.1 as i32) == c
        }) {
        let k = choose|k: int|
            0 <= k < n && ({
                let p = #[trigger] batch_place(start, total, width as int, k);
                (p.0 as i32, p.1 as i32) == c
            });
        assert(p(k) && mk(k) == c);
    }
}

/// Exactly the cells that raid send a raid.
pub proof fn every_raider_raids(
    snaps: Seq<WorldSimCellSnapshot>,
    loaded: Set<(i32, i32)>,
    width: i32,
    height: i32,
    r: RaidIntent,
)
    ensures
        raids_of(snaps, loaded, width, height).contains(r) <==> exists|i: int|
            0 <= i < snaps.len() && raids(#[trigger] snaps[i], loaded, width, height) && r
                == raid_of(snaps[i], loaded, width, height),
{
    let n = snaps.len() as int;
    let p = |i: int| raids(snaps[i], loaded, width, height);
    let mk = |i: int| raid_of(snaps[i], loaded, width, height);
    collect_contains(n, p, mk, r);
    if raids_of(snaps, loaded, width, height).contains(r) {
        let i = choose|i: int| 0 <= i < n && p(i) && #[trigger] mk(i) == r;
        assert(raids(snaps[i], loaded, width, height));
    }
    if exists|i: int|
        0 <= i < snaps.len() && raids(#[trigger] snaps[i], loaded, width, height) && r == raid_of(
            snaps[i],
            loaded,
            width,
            height,
        ) {
        let i = choose|i: int|
            0 <= i < snaps.len() && raids(#[trigger] snaps[i], loaded, width, height) && r
                == raid_of(snaps[i], loaded, width, height);
        assert(p(i) && mk(i) == r);
    }
}

/// A cell is kept where its row and its column meet, and no two cells share a place.
pub proof fn cells_have_their_places(g: GlobeGrid, a: (int, int), b: (int, int))
    requires
        g.wf(),
        g.covers(a.0, a.1),
        g.covers(b.0, b.1),
    ensures
        0 <= g.place(a.0, a.1) < g.cells@.len(),
        g.place(a.0, a.1) == g.place(b.0, b.1) <==> a == b,
        g.covers(a.0 + 1, a.1) ==> g.place(a.0 + 1, a.1) == g.place(a.0, a.1) + 1,
{
    let w = g.width as int;
    let h = g.height as int;
    assert(0 <= a.1 * w + a.0 < w * h) by (nonlinear_arith)
        requires
            0 <= a.0 < w,
            0 <= a.1 < h,
    ;
    if a.1 != b.1 {
        assert(a.1 * w + a.0 != b.1 * w + b.0) by (nonlinear_arith)
            requires
                0 <= a.0 < w,
                0 <= b.0 < w,
                a.1 != b.1,
        ;
    }
}

} // verus!
