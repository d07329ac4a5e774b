//! Whether a body can be assembled, and every reason why not.

use vstd::prelude::*;
use crate::catalog::VehicleData;
use crate::geometry::{adjacent, below, neighbors, IVec3};
use crate::grid::{
    bounding_box, bounding_box_is_box, cell_at, cell_at_first, occupied, VehicleCell, VehicleGrid,
    VehicleModuleInstance, GRID_MAX_DEPTH, GRID_MAX_HEIGHT, GRID_MAX_WIDTH,
};
use crate::parts::{FiringArc, VehicleModuleId, VehiclePartKind, VehiclePurpose};
use crate::seqs::{
    collect, collect_contains, collect_len, count, count_bounds, sum, sum_agrees, sum_grows,
};
use crate::stats::{is_overloaded, overloaded, CellFigures};
use crate::tiles::{add_place, has_place, no_places, places_in};

verus! {

/// A reason why a body is not assemblable.
#[derive(Clone, Copy, Debug, PartialEq, Eq, Structural)]
pub enum DesignError {
    /// No cells at all.
    Empty,
    /// A cell lies outside the bounded grid.
    OutOfBounds(IVec3),
    /// The body is not one connected piece.
    Disconnected,
    /// A cell above the bottom rests on nothing and may not hang.
    FloatingCell(IVec3),
    /// A wheel touches no axle.
    UnsupportedWheel(IVec3),
    /// Nothing can drive it.
    NoControlCell,
    /// It needs more draft animals than it can harness.
    BadHitch,
    /// The running gear cannot carry even the empty body.
    OverloadedAxle,
    /// A cargo bay cannot be reached from outside.
    BlockedCargo(IVec3),
    /// A war design without a seat.
    ChariotRule,
    /// The engine cannot move the loaded body.
    UnderpoweredEngine,
    /// A module names a position outside the grid or without a cell of its own.
    ModuleOutOfBounds(VehicleModuleId),
    /// A module names a cell of another module.
    ModuleOverlap(VehicleModuleId),
    /// A module rests on too few cells.
    UnsupportedModule(VehicleModuleId),
    /// A forward-facing module is not on the front edge.
    BadModuleFacing(VehicleModuleId),
}

/// A position lies in the bounded grid.
pub open spec fn in_grid(p: IVec3) -> bool {
    &&& 0 <= p.x < GRID_MAX_WIDTH
    &&& 0 <= p.y < GRID_MAX_DEPTH
    &&& 0 <= p.z < GRID_MAX_HEIGHT
}

/// The positions of the cells.
pub open spec fn positions(cells: Seq<(IVec3, VehicleCell)>) -> Seq<IVec3> {
    Seq::new(cells.len(), |i: int| cells[i].0)
}

/// A walk over `places` from neighbour to neighbour.
pub open spec fn is_walk(places: Seq<IVec3>, walk: Seq<IVec3>) -> bool {
    &&& walk.len() > 0
    &&& forall|i: int| 0 <= i < walk.len() ==> places.contains(#[trigger] walk[i])
    &&& forall|i: int, j: int|
        0 <= i && j == i + 1 && j < walk.len() ==> adjacent(#[trigger] walk[i], #[trigger] walk[j])
}

/// `p` can be reached over `places` from one of the `seeds`.
pub open spec fn reachable(places: Seq<IVec3>, seeds: Seq<IVec3>, p: IVec3) -> bool {
    exists|walk: Seq<IVec3>|
        #[trigger] is_walk(places, walk) && seeds.contains(walk[0]) && walk.last() == p
}

/// Every cell can be reached from the first.
pub open spec fn connected(cells: Seq<(IVec3, VehicleCell)>) -> bool {
    forall|i: int|
        0 <= i < cells.len() ==> reachable(
            positions(cells),
            seq![cells[0].0],
            (#[trigger] cells[i]).0,
        )
}

/// What a cell may need beside it.
#[derive(Clone, Copy, Debug, PartialEq, Eq, Structural)]
pub enum Beside {
    LoadBearing,
    Axle,
    DeckOrFrame,
}

impl Beside {
    /// A part kind answers the need.
    pub open spec fn met_by(self, k: VehiclePartKind) -> bool {
        match self {
            Beside::LoadBearing => k.bears_load(),
            Beside::Axle => k == VehiclePartKind::Axle,
            Beside::DeckOrFrame => k == VehiclePartKind::Deck || k == VehiclePartKind::Frame,
        }
    }

    fn accepts(self, k: VehiclePartKind) -> (b: bool)
        ensures
            b == self.met_by(k),
    {
        match self {
            Beside::LoadBearing => k.is_structural(),
            Beside::Axle => k == VehiclePartKind::Axle,
            Beside::DeckOrFrame => k == VehiclePartKind::Deck || k == VehiclePartKind::Frame,
        }
    }
}

/// Some neighbour of `p` is a cell that meets the need.
pub open spec fn touches(cells: Seq<(IVec3, VehicleCell)>, p: IVec3, need: Beside) -> bool {
    exists|q: IVec3|
        #[trigger] adjacent(p, q) && cell_at(cells, q) is Some && need.met_by(
            cell_at(cells, q)->0.kind,
        )
}

/// Cell `i` lies above the bottom, has no cell below it, and neither may hang nor touches
/// anything that bears load.
pub open spec fn floats(cells: Seq<(IVec3, VehicleCell)>) -> spec_fn(int) -> bool {
    |i: int|
        {
            &&& cells[i].0.z > bounding_box(cells).0.z
            &&& !occupied(cells, below(cells[i].0))
            &&& !(cells[i].1.kind.cantilevers() && touches(cells, cells[i].0, Beside::LoadBearing))
        }
}

/// Cell `i` is a wheel that touches no axle.
pub open spec fn loose_wheel(cells: Seq<(IVec3, VehicleCell)>) -> spec_fn(int) -> bool {
    |i: int|
        cells[i].1.kind == VehiclePartKind::Wheel && !touches(cells, cells[i].0, Beside::Axle)
}

pub open spec fn outside_grid(cells: Seq<(IVec3, VehicleCell)>) -> spec_fn(int) -> bool {
    |i: int| !in_grid(cells[i].0)
}

pub open spec fn is_bay(cells: Seq<(IVec3, VehicleCell)>) -> spec_fn(int) -> bool {
    |i: int| cells[i].1.kind == VehiclePartKind::CargoBay
}

pub open spec fn place_of(cells: Seq<(IVec3, VehicleCell)>) -> spec_fn(int) -> IVec3 {
    |i: int| cells[i].0
}

/// The positions of the cargo bays.
pub open spec fn bays(cells: Seq<(IVec3, VehicleCell)>) -> Seq<IVec3> {
    collect(cells.len() as int, is_bay(cells), place_of(cells))
}

/// A bay on the rim of the bounding box, or beside a deck or a frame, opens to the outside.
pub open spec fn open_bay(cells: Seq<(IVec3, VehicleCell)>, p: IVec3) -> bool {
    let (lo, hi) = bounding_box(cells);
    p.x == lo.x || p.x == hi.x || p.y == lo.y || p.y == hi.y || touches(cells, p, Beside::DeckOrFrame)
}

/// The bays that open to the outside.
pub open spec fn open_bays(cells: Seq<(IVec3, VehicleCell)>) -> Seq<IVec3> {
    let b = bays(cells);
    collect(b.len() as int, |i: int| open_bay(cells, b[i]), |i: int| b[i])
}

/// Bay `i` cannot be reached through bays from one that opens to the outside.
pub open spec fn blocked_bay(cells: Seq<(IVec3, VehicleCell)>) -> spec_fn(int) -> bool {
    |i: int| !reachable(bays(cells), open_bays(cells), bays(cells)[i])
}

/// Some cell is of a kind.
pub open spec fn has_kind(cells: Seq<(IVec3, VehicleCell)>, kind: VehiclePartKind) -> bool {
    exists|i: int| 0 <= i < cells.len() && (#[trigger] cells[i]).1.kind == kind
}

/// Some cell takes a driver or a puller.
pub open spec fn has_control(cells: Seq<(IVec3, VehicleCell)>) -> bool {
    exists|i: int| 0 <= i < cells.len() && (#[trigger] cells[i]).1.kind.controls()
}

pub open spec fn harness_of(cells: Seq<(IVec3, VehicleCell)>) -> spec_fn(int) -> int {
    |i: int| cells[i].1.kind.harness()
}

/// How many draft animals the body can harness.
pub open spec fn harness_capacity(cells: Seq<(IVec3, VehicleCell)>) -> int {
    sum(cells.len() as int, harness_of(cells))
}

/// What is wrong with the module cell at `p`, if anything.
pub open spec fn module_cell_error(
    cells: Seq<(IVec3, VehicleCell)>,
    id: VehicleModuleId,
    p: IVec3,
) -> Option<DesignError> {
    if !in_grid(p) || !occupied(cells, p) {
        Some(DesignError::ModuleOutOfBounds(id))
    } else {
        match cell_at(cells, p)->0.module_id {
            Some(owner) => if owner == id {
                None
            } else {
                Some(DesignError::ModuleOverlap(id))
            },
            None => Some(DesignError::ModuleOutOfBounds(id)),
        }
    }
}

/// What is wrong with each of the first `n` cells of a module.
pub open spec fn module_cell_errors(
    cells: Seq<(IVec3, VehicleCell)>,
    m: VehicleModuleInstance,
    n: int,
) -> Seq<DesignError> {
    collect(
        n,
        |i: int| module_cell_error(cells, m.id, m.cells@[i]) is Some,
        |i: int| module_cell_error(cells, m.id, m.cells@[i])->0,
    )
}

/// Module cell `i` lies above the bottom and stands on a cell.
pub open spec fn stands(
    cells: Seq<(IVec3, VehicleCell)>,
    m: VehicleModuleInstance,
) -> spec_fn(int) -> bool {
    |i: int|
        m.cells@[i].z > bounding_box(cells).0.z && occupied(cells, below(m.cells@[i]))
}

/// A module with some cell above the bottom rests on fewer cells than it needs.
pub open spec fn under_supported(
    cells: Seq<(IVec3, VehicleCell)>,
    m: VehicleModuleInstance,
    required: u8,
) -> bool {
    &&& required > 0
    &&& exists|i: int|
        0 <= i < m.cells@.len() && (#[trigger] m.cells@[i]).z > bounding_box(cells).0.z
    &&& count(m.cells@.len() as int, stands(cells, m)) < required
}

/// A forward weapon none of whose cells is on the front edge.
pub open spec fn faces_inward(
    cells: Seq<(IVec3, VehicleCell)>,
    m: VehicleModuleInstance,
    arc: FiringArc,
) -> bool {
    &&& arc == FiringArc::Front90
    &&& forall|i: int|
        0 <= i < m.cells@.len() ==> (#[trigger] m.cells@[i]).y != bounding_box(cells).1.y
}

/// At most one error.
pub open spec fn when(holds: bool, e: DesignError) -> Seq<DesignError> {
    if holds {
        seq![e]
    } else {
        Seq::empty()
    }
}

/// What is wrong with one module.
pub open spec fn module_errors(
    cells: Seq<(IVec3, VehicleCell)>,
    data: VehicleData,
    m: VehicleModuleInstance,
) -> Seq<DesignError> {
    let placed = module_cell_errors(cells, m, m.cells@.len() as int);
    match data.module_spec(m.def) {
        Some(def) => placed + when(
            under_supported(cells, m, def.required_support),
            DesignError::UnsupportedModule(m.id),
        ) + when(
            faces_inward(cells, m, def.firing_arc),
            DesignError::BadModuleFacing(m.id),
        ),
        None => placed,
    }
}

/// What is wrong with the first `n` modules.
pub open spec fn all_module_errors(
    cells: Seq<(IVec3, VehicleCell)>,
    data: VehicleData,
    modules: Seq<VehicleModuleInstance>,
    n: int,
) -> Seq<DesignError>
    decreases n,
{
    if n <= 0 {
        Seq::empty()
    } else {
        all_module_errors(cells, data, modules, n - 1) + module_errors(cells, data, modules[n - 1])
    }
}

/// What is wrong with the shape of a body: bounds, connection, support, wheels.
pub open spec fn shape_errors(cells: Seq<(IVec3, VehicleCell)>) -> Seq<DesignError> {
    let n = cells.len() as int;
    collect(n, outside_grid(cells), |i: int| DesignError::OutOfBounds(cells[i].0)) + when(
        !connected(cells),
        DesignError::Disconnected,
    ) + collect(n, floats(cells), |i: int| DesignError::FloatingCell(cells[i].0)) + collect(
        n,
        loose_wheel(cells),
        |i: int| DesignError::UnsupportedWheel(cells[i].0),
    )
}

/// What is wrong with control, draft, load and power.
pub open spec fn drive_errors(
    cells: Seq<(IVec3, VehicleCell)>,
    required_animals: u8,
    figures: Seq<CellFigures>,
    engine_too_weak: bool,
) -> Seq<DesignError> {
    when(!has_control(cells), DesignError::NoControlCell) + when(
        required_animals > 0 && !has_kind(cells, VehiclePartKind::Engine) && harness_capacity(cells)
            < required_animals,
        DesignError::BadHitch,
    ) + when(overloaded(figures), DesignError::OverloadedAxle) + when(
        has_kind(cells, VehiclePartKind::Engine) && engine_too_weak,
        DesignError::UnderpoweredEngine,
    )
}

/// What is wrong with the cargo bays.
pub open spec fn cargo_errors(cells: Seq<(IVec3, VehicleCell)>) -> Seq<DesignError> {
    collect(
        bays(cells).len() as int,
        blocked_bay(cells),
        |i: int| DesignError::BlockedCargo(bays(cells)[i]),
    )
}

/// Everything that is wrong with a body, in the order in which it is reported.
pub open spec fn grid_errors(
    grid: VehicleGrid,
    purpose: VehiclePurpose,
    required_animals: u8,
    data: VehicleData,
    figures: Seq<CellFigures>,
    engine_too_weak: bool,
) -> Seq<DesignError> {
    let cells = grid.cells@;
    if cells.len() == 0 {
        seq![DesignError::Empty]
    } else {
        shape_errors(cells) + drive_errors(cells, required_animals, figures, engine_too_weak)
            + cargo_errors(cells) + when(
            purpose == VehiclePurpose::War && !has_kind(cells, VehiclePartKind::CrewSeat),
            DesignError::ChariotRule,
        ) + all_module_errors(cells, data, grid.modules@, grid.modules@.len() as int)
    }
}

/// The neighbours of every cell and of every module cell have coordinates that fit in `i32`.
pub open spec fn grid_interior(grid: VehicleGrid) -> bool {
    &&& forall|i: int| 0 <= i < grid.cells@.len() ==> (#[trigger] grid.cells@[i]).0.interior()
    &&& forall|k: int, i: int|
        0 <= k < grid.modules@.len() && 0 <= i < grid.modules@[k].cells@.len()
            ==> (#[trigger] grid.modules@[k].cells@[i]).interior()
}

/// A position as its three coordinates.
pub open spec fn spot(p: IVec3) -> (i32, i32, i32) {
    (p.x, p.y, p.z)
}

/// A hashed set holds exactly the positions of a list.
pub open spec fn holds_all(s: ahash::AHashSet<(i32, i32, i32)>, list: Seq<IVec3>) -> bool {
    forall|p: IVec3| #[trigger] places_in(s).contains(spot(p)) <==> list.contains(p)
}

fn has_spot(s: &ahash::AHashSet<(i32, i32, i32)>, p: IVec3) -> (b: bool)
    ensures
        b == places_in(*s).contains(spot(p)),
{
    has_place(s, (p.x, p.y, p.z))
}

/// Puts a position into a set, and at the end of the list that the set holds, if it is new.
fn mark(s: &mut ahash::AHashSet<(i32, i32, i32)>, list: &mut Vec<IVec3>, p: IVec3)
    requires
        holds_all(*old(s), old(list)@),
    ensures
        holds_all(*final(s), final(list)@),
        final(list)@ == (if old(list)@.contains(p) {
            old(list)@
        } else {
            old(list)@.push(p)
        }),
{
    let ghost before = list@;
    let ghost was = places_in(*s);
    let fresh = add_place(s, (p.x, p.y, p.z));
    assert(was.contains(spot(p)) <==> before.contains(p));
    if fresh {
        list.push(p);
    }
    proof {
        assert forall|q: IVec3| #[trigger] places_in(*s).contains(spot(q)) <==> list@.contains(q) by {
            assert(was.contains(spot(q)) <==> before.contains(q));
            if fresh {
                assert(list@[before.len() as int] == p);
                if before.contains(q) {
                    let k = choose|k: int| 0 <= k < before.len() && before[k] == q;
                    assert(list@[k] == q);
                }
            }
        }
    }
}

/// The set of the positions in a list.
fn hashed(list: &Vec<IVec3>) -> (s: ahash::AHashSet<(i32, i32, i32)>)
    ensures
        holds_all(s, list@),
{
    let mut s = no_places();
    let mut i: usize = 0;
    while i < list.len()
        invariant
            i <= list.len(),
            forall|p: IVec3|
                #[trigger] places_in(s).contains(spot(p)) <==> list@.take(i as int).contains(p),
        decreases list.len() - i,
    {
        let ghost was = places_in(s);
        let ghost before = list@.take(i as int);
        let p = list[i];
        let _ = add_place(&mut s, (p.x, p.y, p.z));
        i += 1;
        proof {
            let after = list@.take(i as int);
            assert(after =~= before.push(p));
            assert forall|q: IVec3| #[trigger] places_in(s).contains(spot(q)) <==> after.contains(
                q,
            ) by {
                assert(was.contains(spot(q)) <==> before.contains(q));
                assert(after[before.len() as int] == p);
                if before.contains(q) {
                    let k = choose|k: int| 0 <= k < before.len() && before[k] == q;
                    assert(after[k] == q);
                }
            }
        }
    }
    assert(list@.take(i as int) =~= list@);
    s
}

proof fn reach_seed(places: Seq<IVec3>, seeds: Seq<IVec3>, p: IVec3)
    requires
        seeds.contains(p),
        places.contains(p),
    ensures
        reachable(places, seeds, p),
{
    let walk = seq![p];
    assert(is_walk(places, walk));
    assert(walk.last() == p);
}

proof fn reach_step(places: Seq<IVec3>, seeds: Seq<IVec3>, p: IVec3, q: IVec3)
    requires
        reachable(places, seeds, p),
        adjacent(p, q),
        places.contains(q),
    ensures
        reachable(places, seeds, q),
{
    let walk = choose|walk: Seq<IVec3>| #[trigger]
        is_walk(places, walk) && seeds.contains(walk[0]) && walk.last() == p;
    let longer = walk.push(q);
    assert forall|i: int, j: int|
        0 <= i && j == i + 1 && j < longer.len() implies adjacent(
        #[trigger] longer[i],
        #[trigger] longer[j],
    ) by {
        if j < walk.len() {
            assert(longer[i] == walk[i] && longer[j] == walk[j]);
        } else {
            assert(longer[i] == walk.last());
        }
    }
    assert forall|i: int| 0 <= i < longer.len() implies places.contains(#[trigger] longer[i]) by {
        if i < walk.len() {
            assert(longer[i] == walk[i]);
        }
    }
    assert(is_walk(places, longer));
    assert(longer[0] == walk[0]);
    assert(longer.last() == q);
}

/// A set of places that holds the seeds and every neighbour of its own holds all that can be
/// reached.
proof fn closed_set_holds_reachable(
    places: Seq<IVec3>,
    seeds: Seq<IVec3>,
    found: Seq<IVec3>,
    walk: Seq<IVec3>,
)
    requires
        is_walk(places, walk),
        seeds.contains(walk[0]),
        forall|p: IVec3| seeds.contains(p) ==> found.contains(p),
        forall|p: IVec3, q: IVec3|
            found.contains(p) && #[trigger] adjacent(p, q) && places.contains(q)
                ==> found.contains(q),
    ensures
        found.contains(walk.last()),
    decreases walk.len(),
{
    if walk.len() > 1 {
        let shorter = walk.drop_last();
        assert forall|i: int| 0 <= i < shorter.len() implies places.contains(
            #[trigger] shorter[i],
        ) by {
            assert(shorter[i] == walk[i]);
        }
        assert forall|i: int, j: int|
            0 <= i && j == i + 1 && j < shorter.len() implies adjacent(
            #[trigger] shorter[i],
            #[trigger] shorter[j],
        ) by {
            assert(shorter[i] == walk[i] && shorter[j] == walk[j]);
        }
        assert(is_walk(places, shorter));
        closed_set_holds_reachable(places, seeds, found, shorter);
        assert(adjacent(walk[walk.len() - 2], walk[walk.len() - 1]));
        assert(shorter.last() == walk[walk.len() - 2]);
        assert(places.contains(walk[walk.len() - 1]));
    }
}

proof fn no_more_than_places(found: Seq<IVec3>, places: Seq<IVec3>)
    requires
        found.no_duplicates(),
        forall|i: int| 0 <= i < found.len() ==> places.contains(#[trigger] found[i]),
    ensures
        found.len() <= places.len(),
{
    let a = found.to_set();
    let b = places.to_set();
    found.unique_seq_to_set();
    vstd::seq_lib::seq_to_set_is_finite(places);
    assert(a.subset_of(b)) by {
        assert forall|p: IVec3| a.contains(p) implies b.contains(p) by {
            let i = choose|i: int| 0 <= i < found.len() && found[i] == p;
            assert(places.contains(found[i]));
        }
    }
    vstd::set_lib::lemma_len_subset(a, b);
    places.lemma_cardinality_of_set();
}

/// All places that can be reached from the seeds, neighbour by neighbour.
pub fn flood(places: &Vec<IVec3>, seeds: &Vec<IVec3>) -> (seen: ahash::AHashSet<
    (i32, i32, i32),
>)
    requires
        forall|i: int| 0 <= i < places@.len() ==> (#[trigger] places@[i]).interior(),
        forall|i: int| 0 <= i < seeds@.len() ==> places@.contains(#[trigger] seeds@[i]),
    ensures
        forall|p: IVec3|
            #[trigger] reachable(places@, seeds@, p) <==> places_in(seen).contains(spot(p)),
{
    let occupied = hashed(places);
    let mut seen = no_places();
    let mut found: Vec<IVec3> = Vec::new();
    let mut s: usize = 0;
    while s < seeds.len()
        invariant
            s <= seeds.len(),
            forall|i: int| 0 <= i < seeds@.len() ==> places@.contains(#[trigger] seeds@[i]),
            holds_all(seen, found@),
            found@.no_duplicates(),
            forall|i: int|
                0 <= i < found@.len() ==> places@.contains(#[trigger] found@[i]) && reachable(
                    places@,
                    seeds@,
                    found@[i],
                ),
            forall|i: int| 0 <= i < s ==> found@.contains(#[trigger] seeds@[i]),
        decreases seeds.len() - s,
    {
        let p = seeds[s];
        let ghost before = found@;
        proof {
            assert(seeds@.contains(p));
            reach_seed(places@, seeds@, p);
        }
        mark(&mut seen, &mut found, p);
        proof {
            if !before.contains(p) {
                assert(found@[before.len() as int] == p);
            }
            assert forall|i: int| 0 <= i < s + 1 implies found@.contains(#[trigger] seeds@[i]) by {
                if i < s {
                    let k = choose|k: int| 0 <= k < before.len() && before[k] == seeds@[i];
                    assert(found@[k] == seeds@[i]);
                }
            }
        }
        s += 1;
    }
    let mut next: usize = 0;
    proof {
        no_more_than_places(found@, places@);
    }
    while next < found.len()
        invariant
            next <= found.len(),
            forall|i: int| 0 <= i < places@.len() ==> (#[trigger] places@[i]).interior(),
            holds_all(occupied, places@),
            holds_all(seen, found@),
            found@.no_duplicates(),
            forall|i: int|
                0 <= i < found@.len() ==> places@.contains(#[trigger] found@[i]) && reachable(
                    places@,
                    seeds@,
                    found@[i],
                ),
            forall|i: int| 0 <= i < seeds@.len() ==> found@.contains(#[trigger] seeds@[i]),
            forall|i: int, q: IVec3|
                0 <= i < next && #[trigger] adjacent(found@[i], q) && places@.contains(q)
                    ==> found@.contains(q),
            found@.len() <= places@.len(),
        decreases places@.len() - next,
    {
        let p = found[next];
        assert(places@.contains(p));
        let around = neighbors(p);
        let mut d: usize = 0;
        while d < around.len()
            invariant
                d <= around.len(),
                next < found.len(),
                p == found@[next as int],
                forall|q: IVec3| around@.contains(q) <==> adjacent(p, q),
                holds_all(occupied, places@),
                holds_all(seen, found@),
                found@.no_duplicates(),
                forall|i: int|
                    0 <= i < found@.len() ==> places@.contains(#[trigger] found@[i]) && reachable(
                        places@,
                        seeds@,
                        found@[i],
                    ),
                forall|i: int| 0 <= i < seeds@.len() ==> found@.contains(#[trigger] seeds@[i]),
                forall|i: int, q: IVec3|
                    0 <= i < next && #[trigger] adjacent(found@[i], q) && places@.contains(q)
                        ==> found@.contains(q),
                forall|k: int|
                    0 <= k < d && places@.contains(#[trigger] around@[k]) ==> found@.contains(
                        around@[k],
                    ),
            decreases around.len() - d,
        {
            let q = around[d];
            let ghost before = found@;
            assert(around@.contains(q));
            if has_spot(&occupied, q) {
                proof {
                    reach_step(places@, seeds@, p, q);
                }
                mark(&mut seen, &mut found, q);
            }
            proof {
                if places@.contains(q) && !before.contains(q) {
                    assert(found@[before.len() as int] == q);
                }
                assert forall|r: IVec3| before.contains(r) implies found@.contains(r) by {
                    let k = choose|k: int| 0 <= k < before.len() && before[k] == r;
                    assert(found@[k] == r);
                }
                assert forall|i: int| 0 <= i < seeds@.len() implies found@.contains(
                    #[trigger] seeds@[i],
                ) by {
                    assert(before.contains(seeds@[i]));
                }
                assert forall|k: int|
                    0 <= k < d + 1 && places@.contains(#[trigger] around@[k]) implies found@.contains(
                    around@[k],
                ) by {
                    if k < d {
                        assert(before.contains(around@[k]));
                    }
                }
                assert forall|i: int, r: IVec3|
                    0 <= i < next && #[trigger] adjacent(found@[i], r) && places@.contains(
                        r,
                    ) implies found@.contains(r) by {
                    assert(found@[i] == before[i]);
                    assert(adjacent(before[i], r));
                    assert(before.contains(r));
                }
            }
            d += 1;
        }
        proof {
            assert forall|i: int, q: IVec3|
                0 <= i < next + 1 && #[trigger] adjacent(found@[i], q) && places@.contains(
                    q,
                ) implies found@.contains(q) by {
                if i == next {
                    assert(around@.contains(q));
                    let k = choose|k: int| 0 <= k < around@.len() && around@[k] == q;
                    assert(places@.contains(around@[k]));
                }
            }
            no_more_than_places(found@, places@);
        }
        next += 1;
    }
    proof {
        assert forall|p: IVec3|
            #[trigger] reachable(places@, seeds@, p) <==> places_in(seen).contains(spot(p)) by {
            if found@.contains(p) {
                let i = choose|i: int| 0 <= i < found@.len() && found@[i] == p;
                assert(reachable(places@, seeds@, found@[i]));
            }
            if reachable(places@, seeds@, p) {
                let walk = choose|walk: Seq<IVec3>| #[trigger]
                    is_walk(places@, walk) && seeds@.contains(walk[0]) && walk.last() == p;
                assert forall|a: IVec3, b: IVec3|
                    found@.contains(a) && #[trigger] adjacent(a, b) && places@.contains(
                        b,
                    ) implies found@.contains(b) by {
                    let i = choose|i: int| 0 <= i < found@.len() && found@[i] == a;
                    assert(adjacent(found@[i], b));
                }
                assert forall|a: IVec3| seeds@.contains(a) implies found@.contains(a) by {
                    let i = choose|i: int| 0 <= i < seeds@.len() && seeds@[i] == a;
                    assert(found@.contains(seeds@[i]));
                }
                closed_set_holds_reachable(places@, seeds@, found@, walk);
            }
        }
    }
    seen
}

fn touching(grid: &VehicleGrid, p: IVec3, need: Beside) -> (b: bool)
    requires
        p.interior(),
    ensures
        b == touches(grid.cells@, p, need),
{
    let around = neighbors(p);
    let mut d: usize = 0;
    while d < around.len()
        invariant
            d <= around.len(),
            forall|q: IVec3| around@.contains(q) <==> adjacent(p, q),
            forall|k: int|
                0 <= k < d ==> !(cell_at(grid.cells@, #[trigger] around@[k]) is Some
                    && need.met_by(cell_at(grid.cells@, around@[k])->0.kind)),
        decreases around.len() - d,
    {
        let q = around[d];
        assert(around@.contains(q));
        match grid.get(q) {
            Some(c) => {
                if need.accepts(c.kind) {
                    assert(adjacent(p, q));
                    return true;
                }
            },
            None => {},
        }
        d += 1;
    }
    proof {
        if touches(grid.cells@, p, need) {
            let q = choose|q: IVec3| #[trigger]
                adjacent(p, q) && cell_at(grid.cells@, q) is Some && need.met_by(
                    cell_at(grid.cells@, q)->0.kind,
                );
            assert(around@.contains(q));
            let k = choose|k: int| 0 <= k < around@.len() && around@[k] == q;
            assert(false);
        }
    }
    false
}

fn in_bounds(p: IVec3) -> (b: bool)
    ensures
        b == in_grid(p),
{
    p.x >= 0 && p.y >= 0 && p.z >= 0 && p.x < GRID_MAX_WIDTH && p.y < GRID_MAX_DEPTH && p.z
        < GRID_MAX_HEIGHT
}

fn places_of(grid: &VehicleGrid) -> (list: Vec<IVec3>)
    ensures
        list@ == positions(grid.cells@),
{
    let mut list: Vec<IVec3> = Vec::new();
    let mut i: usize = 0;
    while i < grid.cells.len()
        invariant
            i <= grid.cells.len(),
            list@ == positions(grid.cells@).take(i as int),
        decreases grid.cells.len() - i,
    {
        list.push(grid.cells[i].0);
        i += 1;
        assert(list@ =~= positions(grid.cells@).take(i as int));
    }
    assert(positions(grid.cells@).take(i as int) =~= positions(grid.cells@));
    list
}

fn is_connected(grid: &VehicleGrid) -> (b: bool)
    requires
        grid.cells@.len() > 0,
        forall|i: int| 0 <= i < grid.cells@.len() ==> (#[trigger] grid.cells@[i]).0.interior(),
    ensures
        b == connected(grid.cells@),
{
    let places = places_of(grid);
    let seeds = vec![grid.cells[0].0];
    assert(places@[0] == seeds@[0]);
    assert(seeds@ =~= seq![grid.cells@[0].0]);
    let seen = flood(&places, &seeds);
    let mut i: usize = 0;
    while i < grid.cells.len()
        invariant
            i <= grid.cells.len(),
            forall|p: IVec3|
                #[trigger] reachable(positions(grid.cells@), seq![grid.cells@[0].0], p)
                    <==> places_in(seen).contains(spot(p)),
            forall|j: int|
                0 <= j < i ==> places_in(seen).contains(spot((#[trigger] grid.cells@[j]).0)),
        decreases grid.cells.len() - i,
    {
        if !has_spot(&seen, grid.cells[i].0) {
            assert(!reachable(
                positions(grid.cells@),
                seq![grid.cells@[0].0],
                grid.cells@[i as int].0,
            ));
            return false;
        }
        i += 1;
    }
    true
}

fn push_when(errors: &mut Vec<DesignError>, holds: bool, e: DesignError)
    ensures
        final(errors)@ == old(errors)@ + when(holds, e),
{
    if holds {
        errors.push(e);
    }
    assert(errors@ =~= old(errors)@ + when(holds, e));
}

fn push_shape_errors(grid: &VehicleGrid, lo: IVec3, errors: &mut Vec<DesignError>)
    requires
        grid.cells@.len() > 0,
        forall|i: int| 0 <= i < grid.cells@.len() ==> (#[trigger] grid.cells@[i]).0.interior(),
        bounding_box(grid.cells@).0 == lo,
    ensures
        final(errors)@ == old(errors)@ + shape_errors(grid.cells@),
{
    let ghost cells = grid.cells@;
    let ghost n = cells.len() as int;
    let ghost mk_out = |i: int| DesignError::OutOfBounds(cells[i].0);
    let ghost mk_float = |i: int| DesignError::FloatingCell(cells[i].0);
    let ghost mk_wheel = |i: int| DesignError::UnsupportedWheel(cells[i].0);
    let ghost start = errors@;
    let mut i: usize = 0;
    while i < grid.cells.len()
        invariant
            i <= grid.cells.len(),
            cells == grid.cells@,
            mk_out == (|i: int| DesignError::OutOfBounds(cells[i].0)),
            errors@ =~= start + collect(i as int, outside_grid(cells), mk_out),
        decreases grid.cells.len() - i,
    {
        if !in_bounds(grid.cells[i].0) {
            errors.push(DesignError::OutOfBounds(grid.cells[i].0));
        }
        i += 1;
    }
    let linked = is_connected(grid);
    push_when(errors, !linked, DesignError::Disconnected);
    let ghost after_links = errors@;
    i = 0;
    while i < grid.cells.len()
        invariant
            i <= grid.cells.len(),
            cells == grid.cells@,
            bounding_box(cells).0 == lo,
            forall|i: int| 0 <= i < grid.cells@.len() ==> (#[trigger] grid.cells@[i]).0.interior(),
            mk_float == (|i: int| DesignError::FloatingCell(cells[i].0)),
            errors@ =~= after_links + collect(i as int, floats(cells), mk_float),
        decreases grid.cells.len() - i,
    {
        let p = grid.cells[i].0;
        let kind = grid.cells[i].1.kind;
        if p.z > lo.z {
            let under = IVec3 { x: p.x, y: p.y, z: p.z - 1 };
            if !grid.contains(under) {
                let hangs = kind.may_cantilever() && touching(grid, p, Beside::LoadBearing);
                if !hangs {
                    errors.push(DesignError::FloatingCell(p));
                }
            }
        }
        i += 1;
    }
    let ghost after_floats = errors@;
    i = 0;
    while i < grid.cells.len()
        invariant
            i <= grid.cells.len(),
            cells == grid.cells@,
            forall|i: int| 0 <= i < grid.cells@.len() ==> (#[trigger] grid.cells@[i]).0.interior(),
            mk_wheel == (|i: int| DesignError::UnsupportedWheel(cells[i].0)),
            errors@ =~= after_floats + collect(i as int, loose_wheel(cells), mk_wheel),
        decreases grid.cells.len() - i,
    {
        let p = grid.cells[i].0;
        if grid.cells[i].1.kind == VehiclePartKind::Wheel && !touching(grid, p, Beside::Axle) {
            errors.push(DesignError::UnsupportedWheel(p));
        }
        i += 1;
    }
    assert(errors@ =~= old(errors)@ + shape_errors(cells));
}

fn any_of_kind(grid: &VehicleGrid, kind: VehiclePartKind) -> (b: bool)
    ensures
        b == has_kind(grid.cells@, kind),
{
    let mut i: usize = 0;
    while i < grid.cells.len()
        invariant
            i <= grid.cells.len(),
            forall|j: int| 0 <= j < i ==> (#[trigger] grid.cells@[j]).1.kind != kind,
        decreases grid.cells.len() - i,
    {
        if grid.cells[i].1.kind == kind {
            assert(grid.cells@[i as int].1.kind == kind);
            return true;
        }
        i += 1;
    }
    false
}

fn any_control(grid: &VehicleGrid) -> (b: bool)
    ensures
        b == has_control(grid.cells@),
{
    let mut i: usize = 0;
    while i < grid.cells.len()
        invariant
            i <= grid.cells.len(),
            forall|j: int| 0 <= j < i ==> !(#[trigger] grid.cells@[j]).1.kind.controls(),
        decreases grid.cells.len() - i,
    {
        if grid.cells[i].1.kind.is_control() {
            assert(grid.cells@[i as int].1.kind.controls());
            return true;
        }
        i += 1;
    }
    false
}

/// Whether a body can harness `needed` draft animals.
fn harnesses(grid: &VehicleGrid, needed: u8) -> (b: bool)
    ensures
        b == (harness_capacity(grid.cells@) >= needed),
{
    let ghost f = harness_of(grid.cells@);
    let ghost n = grid.cells@.len() as int;
    let mut capacity: u32 = 0;
    let mut i: usize = 0;
    while i < grid.cells.len()
        invariant
            i <= grid.cells.len(),
            n == grid.cells@.len(),
            f == harness_of(grid.cells@),
            capacity == sum(i as int, f),
            capacity < needed || i == 0,
        decreases grid.cells.len() - i,
    {
        capacity = capacity + grid.cells[i].1.kind.draft_capacity() as u32;
        i += 1;
        if capacity >= needed as u32 {
            proof {
                sum_grows(i as int, n, f);
            }
            return true;
        }
    }
    proof {
        sum_grows(0, n, f);
    }
    capacity >= needed as u32
}

fn push_cargo_errors(grid: &VehicleGrid, lo: IVec3, hi: IVec3, errors: &mut Vec<DesignError>)
    requires
        grid.cells@.len() > 0,
        forall|i: int| 0 <= i < grid.cells@.len() ==> (#[trigger] grid.cells@[i]).0.interior(),
        bounding_box(grid.cells@) == (lo, hi),
    ensures
        final(errors)@ == old(errors)@ + cargo_errors(grid.cells@),
{
    let ghost cells = grid.cells@;
    let mut list: Vec<IVec3> = Vec::new();
    let mut i: usize = 0;
    while i < grid.cells.len()
        invariant
            i <= grid.cells.len(),
            cells == grid.cells@,
            forall|i: int| 0 <= i < cells.len() ==> (#[trigger] cells[i]).0.interior(),
            list@ =~= collect(i as int, is_bay(cells), place_of(cells)),
            forall|k: int| 0 <= k < list@.len() ==> (#[trigger] list@[k]).interior(),
        decreases grid.cells.len() - i,
    {
        if grid.cells[i].1.kind == VehiclePartKind::CargoBay {
            list.push(grid.cells[i].0);
        }
        i += 1;
    }
    let ghost b = bays(cells);
    let ghost opens = |i: int| open_bay(cells, b[i]);
    let ghost itself = |i: int| b[i];
    let mut seeds: Vec<IVec3> = Vec::new();
    i = 0;
    while i < list.len()
        invariant
            i <= list.len(),
            cells == grid.cells@,
            list@ == b,
            b == bays(cells),
            bounding_box(cells) == (lo, hi),
            opens == (|i: int| open_bay(cells, b[i])),
            itself == (|i: int| b[i]),
            forall|k: int| 0 <= k < list@.len() ==> (#[trigger] list@[k]).interior(),
            seeds@ =~= collect(i as int, opens, itself),
            forall|k: int| 0 <= k < seeds@.len() ==> list@.contains(#[trigger] seeds@[k]),
        decreases list.len() - i,
    {
        let p = list[i];
        if p.x == lo.x || p.x == hi.x || p.y == lo.y || p.y == hi.y || touching(
            grid,
            p,
            Beside::DeckOrFrame,
        ) {
            assert(list@.contains(p)) by {
                assert(list@[i as int] == p);
            }
            seeds.push(p);
        }
        i += 1;
    }
    let seen = flood(&list, &seeds);
    let ghost start = errors@;
    let ghost mk = |i: int| DesignError::BlockedCargo(bays(cells)[i]);
    i = 0;
    while i < list.len()
        invariant
            i <= list.len(),
            list@ == b,
            b == bays(cells),
            seeds@ == open_bays(cells),
            mk == (|i: int| DesignError::BlockedCargo(bays(cells)[i])),
            forall|p: IVec3|
                #[trigger] reachable(list@, seeds@, p) <==> places_in(seen).contains(spot(p)),
            errors@ =~= start + collect(i as int, blocked_bay(cells), mk),
        decreases list.len() - i,
    {
        let p = list[i];
        assert(reachable(list@, seeds@, p) <==> places_in(seen).contains(spot(p)));
        if !has_spot(&seen, p) {
            errors.push(DesignError::BlockedCargo(p));
        }
        i += 1;
    }
}

fn push_module_cell_errors(
    grid: &VehicleGrid,
    m: &VehicleModuleInstance,
    errors: &mut Vec<DesignError>,
)
    ensures
        final(errors)@ == old(errors)@ + module_cell_errors(
            grid.cells@,
            *m,
            m.cells@.len() as int,
        ),
{
    let ghost cells = grid.cells@;
    let ghost start = errors@;
    let mut i: usize = 0;
    while i < m.cells.len()
        invariant
            i <= m.cells.len(),
            cells == grid.cells@,
            errors@ =~= start + module_cell_errors(cells, *m, i as int),
        decreases m.cells.len() - i,
    {
        let p = m.cells[i];
        if !in_bounds(p) {
            errors.push(DesignError::ModuleOutOfBounds(m.id));
        } else {
            match grid.get(p) {
                Some(c) => match c.module_id {
                    Some(owner) => {
                        if owner != m.id {
                            errors.push(DesignError::ModuleOverlap(m.id));
                        }
                    },
                    None => {
                        errors.push(DesignError::ModuleOutOfBounds(m.id));
                    },
                },
                None => {
                    errors.push(DesignError::ModuleOutOfBounds(m.id));
                },
            }
        }
        i += 1;
    }
}

fn is_under_supported(
    grid: &VehicleGrid,
    m: &VehicleModuleInstance,
    lo: IVec3,
    required: u8,
) -> (b: bool)
    requires
        bounding_box(grid.cells@).0 == lo,
        forall|i: int| 0 <= i < m.cells@.len() ==> (#[trigger] m.cells@[i]).interior(),
    ensures
        b == under_supported(grid.cells@, *m, required),
{
    let ghost p = stands(grid.cells@, *m);
    let mut held: u64 = 0;
    let mut on_bottom: bool = true;
    let mut i: usize = 0;
    while i < m.cells.len()
        invariant
            i <= m.cells.len(),
            bounding_box(grid.cells@).0 == lo,
            forall|i: int| 0 <= i < m.cells@.len() ==> (#[trigger] m.cells@[i]).interior(),
            p == stands(grid.cells@, *m),
            held == count(i as int, p),
            held <= i,
            on_bottom == !exists|j: int| 0 <= j < i && (#[trigger] m.cells@[j]).z > lo.z,
        decreases m.cells.len() - i,
    {
        let c = m.cells[i];
        if c.z > lo.z {
            assert(m.cells@[i as int].z > lo.z);
            on_bottom = false;
            if grid.contains(IVec3 { x: c.x, y: c.y, z: c.z - 1 }) {
                held = held + 1;
            }
        }
        i += 1;
    }
    required > 0 && !on_bottom && held < required as u64
}

fn is_facing_inward(m: &VehicleModuleInstance, hi: IVec3, arc: FiringArc, grid: &VehicleGrid) -> (b:
    bool)
    requires
        bounding_box(grid.cells@).1 == hi,
    ensures
        b == faces_inward(grid.cells@, *m, arc),
{
    if arc != FiringArc::Front90 {
        return false;
    }
    let mut i: usize = 0;
    while i < m.cells.len()
        invariant
            i <= m.cells.len(),
            forall|j: int| 0 <= j < i ==> (#[trigger] m.cells@[j]).y != hi.y,
            bounding_box(grid.cells@).1 == hi,
        decreases m.cells.len() - i,
    {
        if m.cells[i].y == hi.y {
            return false;
        }
        i += 1;
    }
    true
}

fn push_module_errors(
    grid: &VehicleGrid,
    data: &VehicleData,
    lo: IVec3,
    hi: IVec3,
    errors: &mut Vec<DesignError>,
)
    requires
        grid_interior(*grid),
        bounding_box(grid.cells@) == (lo, hi),
    ensures
        final(errors)@ == old(errors)@ + all_module_errors(
            grid.cells@,
            *data,
            grid.modules@,
            grid.modules@.len() as int,
        ),
{
    let ghost start = errors@;
    let mut k: usize = 0;
    while k < grid.modules.len()
        invariant
            k <= grid.modules.len(),
            grid_interior(*grid),
            bounding_box(grid.cells@) == (lo, hi),
            errors@ =~= start + all_module_errors(grid.cells@, *data, grid.modules@, k as int),
        decreases grid.modules.len() - k,
    {
        let m = &grid.modules[k];
        assert forall|i: int| 0 <= i < m.cells@.len() implies (#[trigger] m.cells@[i]).interior() by {
            assert(grid.modules@[k as int].cells@[i].interior());
        }
        push_module_cell_errors(grid, m, errors);
        match data.module_def(m.def) {
            Some(def) => {
                let weak = is_under_supported(grid, m, lo, def.required_support);
                push_when(errors, weak, DesignError::UnsupportedModule(m.id));
                let inward = is_facing_inward(m, hi, def.firing_arc, grid);
                push_when(errors, inward, DesignError::BadModuleFacing(m.id));
            },
            None => {},
        }
        k += 1;
    }
}

/// Validates a body: `Ok` when nothing is wrong, else everything that is. Whether the engine is
/// too weak for the loaded body is decided where the draft power is computed.
pub fn validate_grid(
    grid: &VehicleGrid,
    purpose: VehiclePurpose,
    required_animals: u8,
    data: &VehicleData,
    figures: &Vec<CellFigures>,
    engine_too_weak: bool,
) -> (r: Result<(), Vec<DesignError>>)
    requires
        grid_interior(*grid),
        figures@.len() <= u32::MAX,
    ensures
        match r {
            Ok(_) => grid_errors(
                *grid,
                purpose,
                required_animals,
                *data,
                figures@,
                engine_too_weak,
            ).len() == 0,
            Err(e) => e@.len() > 0 && e@ == grid_errors(
                *grid,
                purpose,
                required_animals,
                *data,
                figures@,
                engine_too_weak,
            ),
        },
{
    let (lo, hi) = match grid.bounds() {
        Some(b) => b,
        None => {
            return Err(vec![DesignError::Empty]);
        },
    };
    let mut errors: Vec<DesignError> = Vec::new();
    push_shape_errors(grid, lo, &mut errors);
    let control = any_control(grid);
    let engine = any_of_kind(grid, VehiclePartKind::Engine);
    let harnessed = harnesses(grid, required_animals);
    let heavy = is_overloaded(figures);
    push_when(&mut errors, !control, DesignError::NoControlCell);
    push_when(
        &mut errors,
        required_animals > 0 && !engine && !harnessed,
        DesignError::BadHitch,
    );
    push_when(&mut errors, heavy, DesignError::OverloadedAxle);
    push_when(&mut errors, engine && engine_too_weak, DesignError::UnderpoweredEngine);
    push_cargo_errors(grid, lo, hi, &mut errors);
    let seated = any_of_kind(grid, VehiclePartKind::CrewSeat);
    push_when(
        &mut errors,
        purpose == VehiclePurpose::War && !seated,
        DesignError::ChariotRule,
    );
    push_module_errors(grid, data, lo, hi, &mut errors);
    assert(errors@ =~= grid_errors(
        *grid,
        purpose,
        required_animals,
        *data,
        figures@,
        engine_too_weak,
    ));
    if errors.len() == 0 {
        Ok(())
    } else {
        Err(errors)
    }
}

/// A module sits on its own cells, rests on enough of the body, and faces the way it must.
pub open spec fn module_sound(
    cells: Seq<(IVec3, VehicleCell)>,
    data: VehicleData,
    m: VehicleModuleInstance,
) -> bool {
    &&& forall|i: int|
        0 <= i < m.cells@.len() ==> module_cell_error(cells, m.id, #[trigger] m.cells@[i]) is None
    &&& match data.module_spec(m.def) {
        Some(def) => !under_supported(cells, m, def.required_support) && !faces_inward(
            cells,
            m,
            def.firing_arc,
        ),
        None => true,
    }
}

/// A body keeps every rule.
pub open spec fn sound(
    grid: VehicleGrid,
    purpose: VehiclePurpose,
    required_animals: u8,
    data: VehicleData,
    figures: Seq<CellFigures>,
    engine_too_weak: bool,
) -> bool {
    let cells = grid.cells@;
    let engine = has_kind(cells, VehiclePartKind::Engine);
    &&& cells.len() > 0
    &&& forall|i: int| 0 <= i < cells.len() ==> in_grid((#[trigger] cells[i]).0)
    &&& connected(cells)
    &&& forall|i: int| 0 <= i < cells.len() ==> !(#[trigger] floats(cells)(i))
    &&& forall|i: int| 0 <= i < cells.len() ==> !(#[trigger] loose_wheel(cells)(i))
    &&& has_control(cells)
    &&& (required_animals > 0 && !engine ==> harness_capacity(cells) >= required_animals)
    &&& !overloaded(figures)
    &&& !(engine && engine_too_weak)
    &&& forall|i: int| 0 <= i < bays(cells).len() ==> !(#[trigger] blocked_bay(cells)(i))
    &&& (purpose == VehiclePurpose::War ==> has_kind(cells, VehiclePartKind::CrewSeat))
    &&& forall|k: int|
        0 <= k < grid.modules@.len() ==> module_sound(cells, data, #[trigger] grid.modules@[k])
}

proof fn nothing_collected<B>(n: int, p: spec_fn(int) -> bool, mk: spec_fn(int) -> B)
    requires
        n >= 0,
    ensures
        collect(n, p, mk).len() == 0 <==> forall|i: int| 0 <= i < n ==> !(#[trigger] p(i)),
{
    collect_len(n, p, mk);
    count_bounds(n, p);
}

proof fn sound_modules_pass(
    cells: Seq<(IVec3, VehicleCell)>,
    data: VehicleData,
    modules: Seq<VehicleModuleInstance>,
    n: int,
)
    requires
        0 <= n <= modules.len(),
    ensures
        all_module_errors(cells, data, modules, n).len() == 0 <==> forall|k: int|
            0 <= k < n ==> module_sound(cells, data, #[trigger] modules[k]),
    decreases n,
{
    if n > 0 {
        sound_modules_pass(cells, data, modules, n - 1);
        let m = modules[n - 1];
        let p = |i: int| module_cell_error(cells, m.id, m.cells@[i]) is Some;
        let mk = |i: int| module_cell_error(cells, m.id, m.cells@[i])->0;
        nothing_collected(m.cells@.len() as int, p, mk);
        assert(module_errors(cells, data, m).len() == 0 <==> module_sound(cells, data, m)) by {
            if module_cell_errors(cells, m, m.cells@.len() as int).len() == 0 {
                assert forall|i: int| 0 <= i < m.cells@.len() implies module_cell_error(
                    cells,
                    m.id,
                    #[trigger] m.cells@[i],
                ) is None by {
                    assert(!p(i));
                }
            } else {
                let i = choose|i: int| 0 <= i < m.cells@.len() && #[trigger] p(i);
                assert(module_cell_error(cells, m.id, m.cells@[i]) is Some);
            }
        }
    }
}

/// A body passes exactly when it keeps every rule: no rule is left out, and none is invented.
pub proof fn sound_bodies_pass(
    grid: VehicleGrid,
    purpose: VehiclePurpose,
    required_animals: u8,
    data: VehicleData,
    figures: Seq<CellFigures>,
    engine_too_weak: bool,
)
    ensures
        grid_errors(grid, purpose, required_animals, data, figures, engine_too_weak).len() == 0
            <==> sound(grid, purpose, required_animals, data, figures, engine_too_weak),
{
    let cells = grid.cells@;
    let n = cells.len() as int;
    nothing_collected(n, outside_grid(cells), |i: int| DesignError::OutOfBounds(cells[i].0));
    nothing_collected(n, floats(cells), |i: int| DesignError::FloatingCell(cells[i].0));
    nothing_collected(n, loose_wheel(cells), |i: int| DesignError::UnsupportedWheel(cells[i].0));
    nothing_collected(
        bays(cells).len() as int,
        blocked_bay(cells),
        |i: int| DesignError::BlockedCargo(bays(cells)[i]),
    );
    sound_modules_pass(cells, data, grid.modules@, grid.modules@.len() as int);
    assert((forall|i: int| 0 <= i < n ==> in_grid((#[trigger] cells[i]).0)) <==> (forall|i: int|
        0 <= i < n ==> !(#[trigger] outside_grid(cells)(i)))) by {
        if forall|i: int| 0 <= i < n ==> !(#[trigger] outside_grid(cells)(i)) {
            assert forall|i: int| 0 <= i < n implies in_grid((#[trigger] cells[i]).0) by {
                assert(!outside_grid(cells)(i));
            }
        }
    }
}

/// Two positions share a face.
pub open spec fn beside(p: IVec3, q: IVec3) -> bool {
    ||| p.y == q.y && p.z == q.z && (p.x == q.x + 1 || p.x == q.x - 1)
    ||| p.x == q.x && p.z == q.z && (p.y == q.y + 1 || p.y == q.y - 1)
    ||| p.x == q.x && p.y == q.y && (p.z == q.z + 1 || p.z == q.z - 1)
}

/// A cell of one of the kinds shares a face with a position.
pub open spec fn has_beside(
    cells: Seq<(IVec3, VehicleCell)>,
    p: IVec3,
    kinds: spec_fn(VehiclePartKind) -> bool,
) -> bool {
    exists|q: IVec3| #[trigger]
        beside(p, q) && (cell_at(cells, q) matches Some(c) && kinds(c.kind))
}

proof fn touching_is_beside(
    cells: Seq<(IVec3, VehicleCell)>,
    p: IVec3,
    need: Beside,
    kinds: spec_fn(VehiclePartKind) -> bool,
)
    requires
        forall|k: VehiclePartKind| #[trigger] kinds(k) <==> need.met_by(k),
    ensures
        touches(cells, p, need) <==> has_beside(cells, p, kinds),
{
    if touches(cells, p, need) {
        let q = choose|q: IVec3|
            #[trigger] adjacent(p, q) && cell_at(cells, q) is Some && need.met_by(
                cell_at(cells, q)->0.kind,
            );
        assert(beside(p, q));
        assert(kinds(cell_at(cells, q)->0.kind));
    }
    if has_beside(cells, p, kinds) {
        let q = choose|q: IVec3| #[trigger]
            beside(p, q) && (cell_at(cells, q) matches Some(c) && kinds(c.kind));
        assert(adjacent(p, q));
    }
}

/// A cell hangs in the air exactly when some cell lies lower, none lies right below it, and it is
/// not a turret or armour plate beside something that bears loads.
pub proof fn cells_hang_on_nothing(cells: Seq<(IVec3, VehicleCell)>, i: int)
    requires
        0 <= i < cells.len(),
        cells[i].0.z > i32::MIN,
    ensures
        floats(cells)(i) <==> {
            &&& exists|k: int| 0 <= k < cells.len() && (#[trigger] cells[k]).0.z < cells[i].0.z
            &&& forall|k: int|
                0 <= k < cells.len() ==> {
                    let q = (#[trigger] cells[k]).0;
                    q.x != cells[i].0.x || q.y != cells[i].0.y || q.z != cells[i].0.z - 1
                }
            &&& !((cells[i].1.kind == VehiclePartKind::Turret || cells[i].1.kind
                == VehiclePartKind::ArmorPlate) && has_beside(
                cells,
                cells[i].0,
                |k: VehiclePartKind|
                    k == VehiclePartKind::Frame || k == VehiclePartKind::Deck || k
                        == VehiclePartKind::Wall || k == VehiclePartKind::Axle || k
                        == VehiclePartKind::Engine || k == VehiclePartKind::Track,
            ))
        },
{
    bounding_box_is_box(cells);
    let kinds = |k: VehiclePartKind|
        k == VehiclePartKind::Frame || k == VehiclePartKind::Deck || k == VehiclePartKind::Wall || k
            == VehiclePartKind::Axle || k == VehiclePartKind::Engine || k == VehiclePartKind::Track;
    touching_is_beside(cells, cells[i].0, Beside::LoadBearing, kinds);
    assert(cells[i].0.z >= bounding_box(cells).0.z);
    let under = below(cells[i].0);
    if occupied(cells, under) {
        let k = choose|k: int| 0 <= k < cells.len() && (#[trigger] cells[k]).0 == under;
        assert(cells[k].0.z == cells[i].0.z - 1);
    }
    if exists|k: int|
        0 <= k < cells.len() && (#[trigger] cells[k]).0.x == cells[i].0.x && cells[k].0.y
            == cells[i].0.y && cells[k].0.z == cells[i].0.z - 1 {
        let k = choose|k: int|
            0 <= k < cells.len() && (#[trigger] cells[k]).0.x == cells[i].0.x && cells[k].0.y
                == cells[i].0.y && cells[k].0.z == cells[i].0.z - 1;
        assert(cells[k].0 == under);
    }
    if exists|k: int| 0 <= k < cells.len() && (#[trigger] cells[k]).0.z < cells[i].0.z {
        let k = choose|k: int| 0 <= k < cells.len() && (#[trigger] cells[k]).0.z < cells[i].0.z;
        assert(cells[k].0.z >= bounding_box(cells).0.z);
    }
}

/// A wheel is loose exactly when no axle shares a face with it.
pub proof fn wheels_need_an_axle(cells: Seq<(IVec3, VehicleCell)>, i: int)
    requires
        0 <= i < cells.len(),
    ensures
        loose_wheel(cells)(i) <==> cells[i].1.kind == VehiclePartKind::Wheel && !has_beside(
            cells,
            cells[i].0,
            |k: VehiclePartKind| k == VehiclePartKind::Axle,
        ),
{
    let kinds = |k: VehiclePartKind| k == VehiclePartKind::Axle;
    touching_is_beside(cells, cells[i].0, Beside::Axle, kinds);
}

/// A bay on the edge of the body, or beside a deck or frame, can be reached; so can one beside a
/// bay that can; a bay that stands alone inside the body, beside neither, cannot.
pub proof fn bays_open_to_the_outside(cells: Seq<(IVec3, VehicleCell)>, p: IVec3, q: IVec3)
    requires
        cells.len() > 0,
        bays(cells).contains(p),
    ensures
        ({
            let (lo, hi) = bounding_box(cells);
            let deck = |k: VehiclePartKind|
                k == VehiclePartKind::Deck || k == VehiclePartKind::Frame;
            let edge = p.x == lo.x || p.x == hi.x || p.y == lo.y || p.y == hi.y;
            &&& open_bays(cells).contains(p) <==> edge || has_beside(cells, p, deck)
            &&& edge || has_beside(cells, p, deck) ==> reachable(bays(cells), open_bays(cells), p)
            &&& beside(q, p) && reachable(bays(cells), open_bays(cells), q) ==> reachable(
                bays(cells),
                open_bays(cells),
                p,
            )
            &&& !edge && !has_beside(cells, p, deck) && (forall|n: IVec3| #[trigger]
                beside(n, p) ==> !bays(cells).contains(n)) ==> !reachable(
                bays(cells),
                open_bays(cells),
                p,
            )
        }),
{
    let b = bays(cells);
    let o = open_bays(cells);
    let deck = |k: VehiclePartKind| k == VehiclePartKind::Deck || k == VehiclePartKind::Frame;
    touching_is_beside(cells, p, Beside::DeckOrFrame, deck);
    let f = |i: int| open_bay(cells, b[i]);
    let mk = |i: int| b[i];
    collect_contains(b.len() as int, f, mk, p);
    let k = choose|k: int| 0 <= k < b.len() && b[k] == p;
    assert(mk(k) == p);
    if o.contains(p) {
        let i = choose|i: int| 0 <= i < b.len() && f(i) && #[trigger] mk(i) == p;
        assert(open_bay(cells, b[i]));
        let walk = seq![p];
        assert(is_walk(b, walk));
        assert(walk.last() == p && walk[0] == p);
    }
    if open_bay(cells, p) {
        assert(f(k));
    }
    if beside(q, p) && reachable(b, o, q) {
        let walk = choose|walk: Seq<IVec3>|
            #[trigger] is_walk(b, walk) && o.contains(walk[0]) && walk.last() == q;
        let longer = walk.push(p);
        assert(is_walk(b, longer)) by {
            assert forall|i: int| 0 <= i < longer.len() implies b.contains(#[trigger] longer[i]) by {
                if i < walk.len() {
                    assert(longer[i] == walk[i]);
                }
            }
            assert forall|i: int, j: int|
                0 <= i && j == i + 1 && j < longer.len() implies adjacent(
                #[trigger] longer[i],
                #[trigger] longer[j],
            ) by {
                if j < walk.len() {
                    assert(longer[i] == walk[i] && longer[j] == walk[j]);
                } else {
                    assert(longer[i] == q && longer[j] == p);
                }
            }
        }
        assert(longer[0] == walk[0] && longer.last() == p);
    }
    if !open_bay(cells, p) && (forall|n: IVec3| #[trigger] beside(n, p) ==> !b.contains(n))
        && reachable(b, o, p) {
        let walk = choose|walk: Seq<IVec3>|
            #[trigger] is_walk(b, walk) && o.contains(walk[0]) && walk.last() == p;
        if walk.len() == 1 {
            assert(o.contains(p));
        } else {
            let n = walk[walk.len() - 2];
            assert(adjacent(walk[walk.len() - 2], walk[walk.len() - 1]));
            assert(beside(n, p));
            assert(b.contains(n));
        }
        assert(false);
    }
}

/// A body of one piece has no cell apart: every cell but the first shares a face with another, and
/// a body of one cell is of one piece.
pub proof fn lone_cells_are_not_connected(cells: Seq<(IVec3, VehicleCell)>, i: int)
    requires
        0 <= i < cells.len(),
    ensures
        cells.len() == 1 ==> connected(cells),
        cells[i].0 != cells[0].0 && (forall|k: int|
            0 <= k < cells.len() ==> !beside((#[trigger] cells[k]).0, cells[i].0)) ==> !connected(
            cells,
        ),
{
    let places = positions(cells);
    let seeds = seq![cells[0].0];
    if cells.len() == 1 {
        assert forall|k: int| 0 <= k < cells.len() implies reachable(
            places,
            seeds,
            (#[trigger] cells[k]).0,
        ) by {
            let walk = seq![cells[0].0];
            assert(places[0] == cells[0].0);
            assert(is_walk(places, walk));
            assert(seeds[0] == walk[0]);
            assert(seeds.contains(walk[0]) && walk.last() == cells[k].0);
        }
    }
    if cells[i].0 != cells[0].0 && (forall|k: int|
        0 <= k < cells.len() ==> !beside((#[trigger] cells[k]).0, cells[i].0)) && connected(cells) {
        assert(reachable(places, seeds, cells[i].0));
        let walk = choose|walk: Seq<IVec3>|
            #[trigger] is_walk(places, walk) && seeds.contains(walk[0]) && walk.last()
                == cells[i].0;
        let m = walk.len() - 2;
        assert(walk[0] == cells[0].0);
        assert(walk.len() > 1);
        assert(adjacent(walk[m], walk[m + 1]));
        assert(places.contains(walk[m]));
        let k = choose|k: int| 0 <= k < places.len() && places[k] == walk[m];
        assert(beside(cells[k].0, cells[i].0));
        assert(false);
    }
}

/// A body passes only if it has cells, all within ten by eight by six, one that steers, harness for
/// its team unless an engine drives it, an engine that is strong enough if it has one, gear that
/// carries it, and, for war, a seat. It fails for each of these that is lacking.
pub proof fn bodies_are_fit_to_drive(
    grid: VehicleGrid,
    purpose: VehiclePurpose,
    required_animals: u8,
    data: VehicleData,
    figures: Seq<CellFigures>,
    engine_too_weak: bool,
)
    ensures
        ({
            let cells = grid.cells@;
            let passes = grid_errors(
                grid,
                purpose,
                required_animals,
                data,
                figures,
                engine_too_weak,
            ).len() == 0;
            let some = |kind: VehiclePartKind|
                exists|i: int| 0 <= i < cells.len() && (#[trigger] cells[i]).1.kind == kind;
            let harness = sum(
                cells.len() as int,
                |i: int|
                    if cells[i].1.kind == VehiclePartKind::Hitch {
                        1int
                    } else if cells[i].1.kind == VehiclePartKind::Yoke {
                        2int
                    } else {
                        0int
                    },
            );
            &&& passes ==> cells.len() > 0
            &&& passes ==> forall|i: int|
                0 <= i < cells.len() ==> {
                    let p = (#[trigger] cells[i]).0;
                    0 <= p.x < 10 && 0 <= p.y < 8 && 0 <= p.z < 6
                }
            &&& passes ==> some(VehiclePartKind::CrewSeat) || some(VehiclePartKind::Hitch) || some(
                VehiclePartKind::Yoke,
            )
            &&& passes && required_animals > 0 ==> some(VehiclePartKind::Engine) || harness
                >= required_animals
            &&& passes && engine_too_weak ==> !some(VehiclePartKind::Engine)
            &&& passes ==> !overloaded(figures)
            &&& passes && purpose == VehiclePurpose::War ==> some(VehiclePartKind::CrewSeat)
            &&& passes ==> connected(cells)
        }),
{
    sound_bodies_pass(grid, purpose, required_animals, data, figures, engine_too_weak);
    let cells = grid.cells@;
    let h = |i: int|
        if cells[i].1.kind == VehiclePartKind::Hitch {
            1int
        } else if cells[i].1.kind == VehiclePartKind::Yoke {
            2int
        } else {
            0int
        };
    sum_agrees(cells.len() as int, h, harness_of(cells));
    if has_control(cells) {
        let i = choose|i: int| 0 <= i < cells.len() && (#[trigger] cells[i]).1.kind.controls();
        assert(cells[i].1.kind == VehiclePartKind::CrewSeat || cells[i].1.kind
            == VehiclePartKind::Hitch || cells[i].1.kind == VehiclePartKind::Yoke);
    }
}

/// A body that meets every rule passes, whatever else it is made of: cells within ten by eight by
/// six, of one piece, none hanging, no loose wheel, no blocked bay, sound modules, one that steers,
/// enough harness or a strong engine, gear that carries it, and for war a seat.
pub proof fn fit_bodies_pass(
    grid: VehicleGrid,
    purpose: VehiclePurpose,
    required_animals: u8,
    data: VehicleData,
    figures: Seq<CellFigures>,
    engine_too_weak: bool,
    steers: int,
)
    requires
        ({
            let cells = grid.cells@;
            &&& 0 <= steers < cells.len()
            &&& cells[steers].1.kind == VehiclePartKind::CrewSeat
            &&& forall|i: int|
                0 <= i < cells.len() ==> {
                    let p = (#[trigger] cells[i]).0;
                    0 <= p.x < 10 && 0 <= p.y < 8 && 0 <= p.z < 6
                }
            &&& connected(cells)
            &&& forall|i: int| 0 <= i < cells.len() ==> !(#[trigger] floats(cells)(i))
            &&& forall|i: int| 0 <= i < cells.len() ==> !(#[trigger] loose_wheel(cells)(i))
            &&& forall|i: int| 0 <= i < bays(cells).len() ==> !(#[trigger] blocked_bay(cells)(i))
            &&& grid.modules@.len() == 0
            &&& required_animals == 0 || exists|i: int|
                0 <= i < cells.len() && (#[trigger] cells[i]).1.kind == VehiclePartKind::Engine
            &&& !engine_too_weak
            &&& !overloaded(figures)
        }),
    ensures
        grid_errors(grid, purpose, required_animals, data, figures, engine_too_weak).len() == 0,
{
    sound_bodies_pass(grid, purpose, required_animals, data, figures, engine_too_weak);
    let cells = grid.cells@;
    assert(cells[steers].1.kind.controls());
}

/// A module is in place when each of its cells is on the grid and is its own; it is out of bounds
/// where there is no cell or one of no module, and overlaps where the cell is another module's.
pub proof fn modules_own_their_cells(
    cells: Seq<(IVec3, VehicleCell)>,
    id: VehicleModuleId,
    k: int,
)
    requires
        0 <= k < cells.len(),
        forall|j: int| 0 <= j < k ==> (#[trigger] cells[j]).0 != cells[k].0,
        0 <= cells[k].0.x < 10 && 0 <= cells[k].0.y < 8 && 0 <= cells[k].0.z < 6,
    ensures
        ({
            let e = module_cell_error(cells, id, cells[k].0);
            &&& cells[k].1.module_id == Some(id) ==> e is None
            &&& cells[k].1.module_id is None ==> e == Some(DesignError::ModuleOutOfBounds(id))
            &&& cells[k].1.module_id is Some && cells[k].1.module_id != Some(id) ==> e == Some(
                DesignError::ModuleOverlap(id),
            )
        }),
{
    cell_at_first(cells, cells[k].0, k);
}

/// A module that must rest on something rests on too little when some cell of it is above the
/// bottom and fewer of those than asked for have a cell right below. One that fires forward must
/// have a cell on the front row.
pub proof fn modules_rest_and_face_forward(
    cells: Seq<(IVec3, VehicleCell)>,
    m: VehicleModuleInstance,
    required: u8,
    arc: FiringArc,
    i: int,
)
    requires
        cells.len() > 0,
        0 <= i < m.cells@.len(),
    ensures
        required == 0 ==> !under_supported(cells, m, required),
        (forall|k: int|
            0 <= k < m.cells@.len() ==> (#[trigger] m.cells@[k]).z <= bounding_box(cells).0.z)
            ==> !under_supported(cells, m, required),
        required > 0 && m.cells@[i].z > bounding_box(cells).0.z && (forall|k: int|
            0 <= k < m.cells@.len() ==> !occupied(cells, below(#[trigger] m.cells@[k])))
            ==> under_supported(cells, m, required),
        arc != FiringArc::Front90 ==> !faces_inward(cells, m, arc),
        m.cells@[i].y == bounding_box(cells).1.y ==> !faces_inward(cells, m, arc),
        arc == FiringArc::Front90 && (forall|k: int|
            0 <= k < m.cells@.len() ==> (#[trigger] m.cells@[k]).y < bounding_box(cells).1.y)
            ==> faces_inward(cells, m, arc),
{
    let p = stands(cells, m);
    if forall|k: int|
        0 <= k < m.cells@.len() ==> !occupied(cells, below(#[trigger] m.cells@[k])) {
        assert forall|k: int| 0 <= k < m.cells@.len() implies !#[trigger] p(k) by {
            assert(!occupied(cells, below(m.cells@[k])));
        }
        count_bounds(m.cells@.len() as int, p);
    }
}

/// A body is built within ten cells across, eight along and six up, counted from the corner.
pub proof fn bodies_fit_the_bench(p: IVec3)
    ensures
        in_grid(p) <==> 0 <= p.x <= 9 && 0 <= p.y <= 7 && 0 <= p.z <= 5,
{
}

} // verus!
