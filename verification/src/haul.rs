//! The haul itself: board, load, drive, deliver.

use vstd::prelude::*;
use crate::assembly::{after_draw, draw_stock, stored, Shelf, StoredStack};
use crate::design::VehicleDesign;
use crate::footprint::{cover_fits, covered, footprint_reaches, footprint_ready, reaches_spec};
use crate::freight::{bounded_units, capacity_units_bounded, Good, HaulPosting};
use crate::geometry::{cheb, min, tile_distance, IVec3};
use crate::grid::VehicleCell;
use crate::inventory::{
    adding_changes_one_quantity, quantity, taking_changes_one_quantity, with_added, with_taken,
    VehicleInventory,
};
use crate::parts::{Entity, ResourceId, VehicleState};
use crate::seqs::{capped_sum, sum, sum_grows};
use crate::vehicle::{Vehicle, VehicleDraft};

verus! {

/// What a building still asks for of one resource.
#[derive(Clone, Copy, Debug, PartialEq, Eq, Structural)]
pub struct BuildDeposit {
    pub resource_id: ResourceId,
    pub needed: u8,
    pub deposited: u8,
}

/// The open amount of each deposit slot for a resource.
pub open spec fn gap(deposits: Seq<BuildDeposit>, rid: ResourceId) -> spec_fn(int) -> int {
    |i: int|
        if deposits[i].resource_id == rid && deposits[i].needed > deposits[i].deposited {
            deposits[i].needed - deposits[i].deposited
        } else {
            0
        }
}

/// All that is still needed of a resource.
pub open spec fn open_need(deposits: Seq<BuildDeposit>, rid: ResourceId) -> int {
    sum(deposits.len() as int, gap(deposits, rid))
}

/// What a building still needs of a resource, at most `u32::MAX`.
pub fn blueprint_remaining_need(deposits: &Vec<BuildDeposit>, rid: ResourceId) -> (n: u32)
    ensures
        n == min(open_need(deposits@, rid), u32::MAX as int),
{
    let ghost f = gap(deposits@, rid);
    let mut total: u32 = 0;
    let mut i: usize = 0;
    while i < deposits.len()
        invariant
            i <= deposits.len(),
            f == gap(deposits@, rid),
            total == capped_sum(i as int, f, u32::MAX as int),
        decreases deposits.len() - i,
    {
        let d = deposits[i];
        if d.resource_id == rid {
            let still: u8 = d.needed.saturating_sub(d.deposited);
            total = total.saturating_add(still as u32);
        }
        i += 1;
    }
    total
}

/// How much of a load goes into a slot when slots are filled in order.
pub open spec fn put_in(deposits: Seq<BuildDeposit>, rid: ResourceId, load: int, i: int) -> int {
    let left = load - sum(i, gap(deposits, rid));
    if left <= 0 {
        0
    } else {
        min(gap(deposits, rid)(i), left)
    }
}

/// The slots after a load was put in.
pub open spec fn filled(deposits: Seq<BuildDeposit>, rid: ResourceId, load: int) -> Seq<
    BuildDeposit,
> {
    Seq::new(
        deposits.len(),
        |i: int|
            BuildDeposit {
                deposited: (deposits[i].deposited + put_in(deposits, rid, load, i)) as u8,
                ..deposits[i]
            },
    )
}

/// Puts a load of one resource into the slots of a building, in order; returns how much went in.
pub fn deposit_load(deposits: &mut Vec<BuildDeposit>, rid: ResourceId, carried: u32) -> (deposited:
    u32)
    ensures
        final(deposits)@ == filled(old(deposits)@, rid, carried as int),
        deposited == min(carried as int, open_need(old(deposits)@, rid)),
{
    let ghost start = deposits@;
    let ghost f = gap(start, rid);
    let ghost end = filled(start, rid, carried as int);
    let mut remaining: u32 = carried;
    let mut i: usize = 0;
    while i < deposits.len()
        invariant
            i <= deposits.len(),
            f == gap(start, rid),
            end == filled(start, rid, carried as int),
            deposits@.len() == start.len(),
            forall|j: int| 0 <= j < i ==> deposits@[j] == #[trigger] end[j],
            forall|j: int| i <= j < start.len() ==> deposits@[j] == #[trigger] start[j],
            sum(i as int, f) >= 0,
            remaining == (if sum(i as int, f) < carried {
                carried - sum(i as int, f)
            } else {
                0
            }),
        decreases deposits.len() - i,
    {
        let d = deposits[i];
        assert(d == start[i as int]);
        if d.resource_id == rid && d.needed > d.deposited {
            let still: u8 = d.needed - d.deposited;
            let take: u8 = if (still as u32) < remaining {
                still
            } else {
                remaining as u8
            };
            deposits.set(
                i,
                BuildDeposit {
                    resource_id: d.resource_id,
                    needed: d.needed,
                    deposited: d.deposited + take,
                },
            );
            remaining = remaining - take as u32;
        }
        assert(deposits@[i as int] == end[i as int]);
        i += 1;
    }
    assert(deposits@ =~= end);
    carried - remaining
}

/// Depositing lowers the open need by exactly what went in, never overfills a slot, and leaves
/// other resources alone.
pub proof fn deposits_fill_the_need(
    deposits: Seq<BuildDeposit>,
    rid: ResourceId,
    load: u32,
    other: ResourceId,
)
    ensures
        open_need(filled(deposits, rid, load as int), rid) == open_need(deposits, rid) - min(
            load as int,
            open_need(deposits, rid),
        ),
        other != rid ==> open_need(filled(deposits, rid, load as int), other) == open_need(
            deposits,
            other,
        ),
        forall|i: int|
            0 <= i < deposits.len() && deposits[i].deposited <= deposits[i].needed ==> (
            #[trigger] filled(deposits, rid, load as int)[i]).deposited <= deposits[i].needed,
{
    filling(deposits, rid, load as int, deposits.len() as int);
    let after = filled(deposits, rid, load as int);
    let g = gap(deposits, other);
    let h = gap(after, other);
    assert forall|i: int| 0 <= i < deposits.len() implies put_in(deposits, rid, load as int, i)
        <= #[trigger] gap(deposits, rid)(i) by {}
    if other != rid {
        assert forall|i: int| 0 <= i < deposits.len() implies #[trigger] h(i) == g(i) by {
            assert(gap(deposits, rid)(i) >= 0);
            filling(deposits, rid, load as int, i);
        }
        crate::seqs::sum_agrees(deposits.len() as int, h, g);
    }
    assert forall|i: int|
        0 <= i < deposits.len() && deposits[i].deposited <= deposits[i].needed implies (
    #[trigger] after[i]).deposited <= deposits[i].needed by {
        assert(gap(deposits, rid)(i) >= 0);
    }
}

proof fn filling(deposits: Seq<BuildDeposit>, rid: ResourceId, load: int, n: int)
    requires
        0 <= n <= deposits.len(),
        load >= 0,
    ensures
        sum(n, gap(deposits, rid)) >= 0,
        sum(n, gap(filled(deposits, rid, load), rid)) == sum(n, gap(deposits, rid)) - min(
            load,
            sum(n, gap(deposits, rid)),
        ),
    decreases n,
{
    if n > 0 {
        filling(deposits, rid, load, n - 1);
        let f = gap(deposits, rid);
        let g = gap(filled(deposits, rid, load), rid);
        assert(f(n - 1) >= 0);
        assert(g(n - 1) == f(n - 1) - put_in(deposits, rid, load, n - 1));
    }
}

/// `i` is the index of the tile nearest to `from`; of equals the first.
pub open spec fn is_nearest(from: (i32, i32), tiles: Seq<(i32, i32)>, i: int) -> bool {
    &&& 0 <= i < tiles.len()
    &&& forall|j: int|
        0 <= j < i ==> tile_distance(#[trigger] tiles[j], from) > tile_distance(tiles[i], from)
    &&& forall|j: int|
        i < j < tiles.len() ==> tile_distance(#[trigger] tiles[j], from) >= tile_distance(
            tiles[i],
            from,
        )
}

/// The tile nearest to a place.
pub open spec fn nearest(from: (i32, i32), tiles: Seq<(i32, i32)>) -> Option<(i32, i32)> {
    if exists|i: int| is_nearest(from, tiles, i) {
        Some(tiles[choose|i: int| is_nearest(from, tiles, i)])
    } else {
        None
    }
}

/// The tile of a list that is nearest to `from`.
pub fn nearest_tile(from: (i32, i32), tiles: &Vec<(i32, i32)>) -> (r: Option<(i32, i32)>)
    ensures
        r == nearest(from, tiles@),
        r is Some <==> tiles@.len() > 0,
{
    if tiles.len() == 0 {
        return None;
    }
    let mut best: usize = 0;
    let mut d: u32 = cheb(tiles[0], from);
    let mut i: usize = 1;
    while i < tiles.len()
        invariant
            1 <= i <= tiles.len(),
            best < i,
            d == tile_distance(tiles@[best as int], from),
            forall|j: int| 0 <= j < best ==> tile_distance(#[trigger] tiles@[j], from) > d,
            forall|j: int| best < j < i ==> tile_distance(#[trigger] tiles@[j], from) >= d,
        decreases tiles.len() - i,
    {
        let here: u32 = cheb(tiles[i], from);
        if here < d {
            proof {
                assert forall|j: int| 0 <= j < i implies tile_distance(#[trigger] tiles@[j], from)
                    > here by {
                    if j == best {
                    }
                }
            }
            best = i;
            d = here;
        }
        i += 1;
    }
    proof {
        assert(is_nearest(from, tiles@, best as int));
        let k = choose|k: int| is_nearest(from, tiles@, k);
        if k < best {
            assert(tile_distance(tiles@[k], from) > tile_distance(tiles@[best as int], from));
        } else if best < k {
            assert(tile_distance(tiles@[best as int], from) > tile_distance(tiles@[k], from));
        }
    }
    Some(tiles[best])
}

/// What the hauling worker finds.
#[derive(Clone, Copy, Debug)]
pub struct HaulView {
    /// The worker is awake and its turn has come.
    pub due: bool,
    /// The task names a vehicle, a building and a resource.
    pub task_known: bool,
    pub claims_haul: bool,
    pub boarded: bool,
    /// The worker has walked to the vehicle.
    pub at_vehicle: bool,
    pub under_way: bool,
    pub loaded: bool,
    /// Where the building takes deliveries, if it stands.
    pub deliver_at: Option<(i32, i32)>,
}

/// What the hauling worker does next.
#[derive(Clone, Copy, Debug)]
pub enum HaulMove {
    /// Drop the task.
    Cancel,
    /// The vehicle is gone.
    Lost,
    /// The claim is no longer a haul.
    Revoked,
    Wait,
    Board,
    /// Give the haul up.
    Abort,
    /// Drive to this tile.
    DriveTo((i32, i32)),
    /// Load at the storage tile.
    LoadAt((i32, i32)),
    /// The building is gone: drop the load and give up.
    SpillAndAbort,
    Deposit,
}

/// The next move of a haul. A vehicle that is not given has vanished.
pub open spec fn next_move(
    view: HaulView,
    design: Option<&VehicleDesign>,
    vehicle: Option<&Vehicle>,
    storage: Seq<(i32, i32)>,
) -> HaulMove {
    if !view.due {
        HaulMove::Wait
    } else if !view.task_known {
        HaulMove::Cancel
    } else if vehicle is None {
        HaulMove::Lost
    } else if !view.claims_haul {
        HaulMove::Revoked
    } else if !view.boarded {
        if view.at_vehicle {
            HaulMove::Board
        } else {
            HaulMove::Wait
        }
    } else if view.under_way {
        HaulMove::Wait
    } else {
        let v = vehicle->0;
        match design {
            None => HaulMove::Abort,
            Some(d) => {
                let cells = d.grid.cells@;
                if !view.loaded {
                    match nearest(v.anchor_tile, storage) {
                        None => HaulMove::Abort,
                        Some(src) => if reaches_spec(
                            cells,
                            v.anchor_tile,
                            v.heading as int,
                            src,
                        ) {
                            HaulMove::LoadAt(src)
                        } else {
                            HaulMove::DriveTo(src)
                        },
                    }
                } else {
                    match view.deliver_at {
                        None => HaulMove::SpillAndAbort,
                        Some(t) => if reaches_spec(
                            cells,
                            v.anchor_tile,
                            v.heading as int,
                            t,
                        ) {
                            HaulMove::Deposit
                        } else {
                            HaulMove::DriveTo(t)
                        },
                    }
                }
            },
        }
    }
}

/// Decides the next move of a haul.
pub fn haul_step(
    view: &HaulView,
    design: Option<&VehicleDesign>,
    vehicle: Option<&Vehicle>,
    storage: &Vec<(i32, i32)>,
) -> (m: HaulMove)
    requires
        vehicle matches Some(v) ==> design matches Some(d) ==> footprint_ready(d.grid.cells@)
            && cover_fits(d.grid.cells@, v.anchor_tile, v.heading as int),
    ensures
        m == next_move(*view, design, vehicle, storage@),
{
    if !view.due {
        return HaulMove::Wait;
    }
    if !view.task_known {
        return HaulMove::Cancel;
    }
    let v: &Vehicle = match vehicle {
        Some(v) => v,
        None => {
            return HaulMove::Lost;
        },
    };
    if !view.claims_haul {
        return HaulMove::Revoked;
    }
    if !view.boarded {
        return if view.at_vehicle {
            HaulMove::Board
        } else {
            HaulMove::Wait
        };
    }
    if view.under_way {
        return HaulMove::Wait;
    }
    match design {
        None => HaulMove::Abort,
        Some(d) => {
            if !view.loaded {
                match nearest_tile(v.anchor_tile, storage) {
                    None => HaulMove::Abort,
                    Some(src) => {
                        if footprint_reaches(d, v.anchor_tile, v.heading, src) {
                            HaulMove::LoadAt(src)
                        } else {
                            HaulMove::DriveTo(src)
                        }
                    },
                }
            } else {
                match view.deliver_at {
                    None => HaulMove::SpillAndAbort,
                    Some(t) => {
                        if footprint_reaches(d, v.anchor_tile, v.heading, t) {
                            HaulMove::Deposit
                        } else {
                            HaulMove::DriveTo(t)
                        }
                    },
                }
            }
        },
    }
}

/// How a haul ends for the worker.
#[derive(Clone, Copy, Debug, PartialEq, Eq, Structural)]
pub struct HaulEnding {
    /// The vehicle is parked and its team released.
    pub repark: bool,
    pub unboard: bool,
    pub drop_claim: bool,
    /// The task counts as done; else it is cancelled.
    pub finished: bool,
    /// The worker is put down on the vehicle's tile.
    pub set_down: bool,
}

/// How a move ends the haul, if it does.
pub open spec fn ending(m: HaulMove, boarded: bool) -> Option<HaulEnding> {
    match m {
        HaulMove::Cancel => Some(
            HaulEnding {
                repark: false,
                unboard: false,
                drop_claim: false,
                finished: false,
                set_down: false,
            },
        ),
        HaulMove::Lost => Some(
            HaulEnding {
                repark: false,
                unboard: boarded,
                drop_claim: true,
                finished: false,
                set_down: false,
            },
        ),
        HaulMove::Revoked => Some(
            HaulEnding {
                repark: true,
                unboard: boarded,
                drop_claim: false,
                finished: false,
                set_down: false,
            },
        ),
        HaulMove::Abort | HaulMove::SpillAndAbort => Some(
            HaulEnding {
                repark: true,
                unboard: true,
                drop_claim: true,
                finished: false,
                set_down: false,
            },
        ),
        _ => None,
    }
}

/// How a move ends the haul.
pub fn haul_ending(m: HaulMove, boarded: bool) -> (e: Option<HaulEnding>)
    ensures
        e == ending(m, boarded),
{
    match m {
        HaulMove::Cancel => Some(
            HaulEnding {
                repark: false,
                unboard: false,
                drop_claim: false,
                finished: false,
                set_down: false,
            },
        ),
        HaulMove::Lost => Some(
            HaulEnding {
                repark: false,
                unboard: boarded,
                drop_claim: true,
                finished: false,
                set_down: false,
            },
        ),
        HaulMove::Revoked => Some(
            HaulEnding {
                repark: true,
                unboard: boarded,
                drop_claim: false,
                finished: false,
                set_down: false,
            },
        ),
        HaulMove::Abort => Some(
            HaulEnding {
                repark: true,
                unboard: true,
                drop_claim: true,
                finished: false,
                set_down: false,
            },
        ),
        HaulMove::SpillAndAbort => Some(
            HaulEnding {
                repark: true,
                unboard: true,
                drop_claim: true,
                finished: false,
                set_down: false,
            },
        ),
        _ => None,
    }
}

/// A vehicle out of its haul: without hauler, and parked unless it lies on its side.
pub open spec fn reparked(v: Vehicle) -> Vehicle {
    Vehicle {
        hauler: None,
        state: if v.state == VehicleState::Overturned {
            v.state
        } else {
            VehicleState::Parked
        },
        ..v
    }
}

/// Takes a vehicle out of its haul; returns the animals that are released.
pub fn repark_vehicle(v: &mut Vehicle, draft: &mut VehicleDraft) -> (released: Vec<Entity>)
    ensures
        *final(v) == reparked(*old(v)),
        released@ == old(draft).hitched@,
        final(draft).hitched@.len() == 0,
        final(draft).required_animals == old(draft).required_animals,
{
    if v.state != VehicleState::Overturned {
        v.state = VehicleState::Parked;
    }
    v.hauler = None;
    let mut released: Vec<Entity> = Vec::new();
    let ghost all = draft.hitched@;
    let mut i: usize = 0;
    while i < draft.hitched.len()
        invariant
            i <= draft.hitched.len(),
            draft.hitched@ == all,
            released@ == all.take(i as int),
        decreases draft.hitched.len() - i,
    {
        released.push(draft.hitched[i]);
        i += 1;
        assert(released@ =~= all.take(i as int));
    }
    assert(all.take(i as int) =~= all);
    draft.hitched.clear();
    released
}

/// A worker takes the seat of a vehicle and sets it moving.
pub fn board_vehicle(v: &mut Vehicle, worker: Entity)
    ensures
        *final(v) == (Vehicle {
            hauler: Some(worker),
            state: VehicleState::Moving,
            ..*old(v)
        }),
{
    v.hauler = Some(worker);
    v.state = VehicleState::Moving;
}

/// What came of a stop at the storage tile.
#[derive(Clone, Copy, Debug, PartialEq, Eq, Structural)]
pub enum LoadOutcome {
    /// The building needs no more: the haul is done.
    NothingNeeded,
    /// The storage has none: the haul is given up.
    NothingStored,
    Loaded(u32),
}

/// The end of a haul that is done; after a delivery the worker is put down.
pub open spec fn done_well(set_down: bool) -> HaulEnding {
    HaulEnding { repark: true, unboard: true, drop_claim: true, finished: true, set_down }
}

/// How a stop at the storage tile ends the haul, if it does.
pub open spec fn ending_of_load(o: LoadOutcome) -> Option<HaulEnding> {
    match o {
        LoadOutcome::NothingNeeded => Some(done_well(false)),
        LoadOutcome::NothingStored => ending(HaulMove::Abort, true),
        LoadOutcome::Loaded(_) => None,
    }
}

/// How a stop at the storage tile ends the haul. With a load it goes on.
pub fn load_ending(o: LoadOutcome) -> (e: Option<HaulEnding>)
    ensures
        e == ending_of_load(o),
{
    match o {
        LoadOutcome::NothingNeeded => Some(
            HaulEnding {
                repark: true,
                unboard: true,
                drop_claim: true,
                finished: true,
                set_down: false,
            },
        ),
        LoadOutcome::NothingStored => haul_ending(HaulMove::Abort, true),
        LoadOutcome::Loaded(_) => None,
    }
}

/// A job is done once as much as it asks for is delivered, or once its posting is gone.
pub open spec fn job_done_by(posting: Option<HaulPosting>, deposited: int) -> bool {
    posting matches Some(p) ==> p.delivered + deposited >= p.target
}

/// Whether a delivery completes a job.
pub fn job_is_done(posting: Option<HaulPosting>, deposited: u32) -> (b: bool)
    ensures
        b == job_done_by(posting, deposited as int),
{
    match posting {
        Some(p) => p.delivered as u64 + deposited as u64 >= p.target as u64,
        None => true,
    }
}

/// How a delivery ends the haul: it does once nothing is left to be delivered for the job, else
/// the vehicle goes for the next load.
pub fn delivery_ending(v: &mut Vehicle, job_done: bool) -> (e: Option<HaulEnding>)
    ensures
        job_done ==> e == Some(done_well(true)) && *final(v) == *old(v),
        !job_done ==> e is None && *final(v) == (Vehicle {
            state: VehicleState::Moving,
            ..*old(v)
        }),
{
    if job_done {
        Some(
            HaulEnding {
                repark: true,
                unboard: true,
                drop_claim: true,
                finished: true,
                set_down: true,
            },
        )
    } else {
        v.state = VehicleState::Moving;
        None
    }
}

/// How much a vehicle tries to load.
pub open spec fn wanted_load(
    need: int,
    payload_g: int,
    volume_ml: int,
    goods: Seq<Good>,
    rid: ResourceId,
) -> int {
    min(need, bounded_units(payload_g, volume_ml, goods, rid))
}

/// Loads what the building needs and the vehicle can carry from the stacks on a storage tile.
pub fn load_cargo(
    v: &mut Vehicle,
    inv: &mut VehicleInventory,
    stacks: &mut Vec<StoredStack>,
    at: (i32, i32),
    rid: ResourceId,
    need: u32,
    payload_g: u32,
    volume_ml: u32,
    goods: &Vec<Good>,
) -> (r: LoadOutcome)
    ensures
        ({
            let want = wanted_load(need as int, payload_g as int, volume_ml as int, goods@, rid);
            let shelf = Shelf::Tile(at.0, at.1);
            let got = min(want, stored(old(stacks)@, shelf, rid));
            if need == 0 {
                &&& r == LoadOutcome::NothingNeeded
                &&& final(stacks)@ == old(stacks)@
                &&& final(inv).items@ == old(inv).items@
                &&& *final(v) == *old(v)
            } else {
                &&& final(stacks)@ == after_draw(old(stacks)@, shelf, rid, want)
                &&& if got == 0 {
                    &&& r == LoadOutcome::NothingStored
                    &&& final(inv).items@ == old(inv).items@
                    &&& *final(v) == *old(v)
                } else {
                    &&& r == LoadOutcome::Loaded(got as u32)
                    &&& final(inv).items@ == with_added(old(inv).items@, rid, got as u32)
                    &&& *final(v) == (Vehicle { state: VehicleState::Moving, ..*old(v) })
                }
            }
        }),
{
    if need == 0 {
        return LoadOutcome::NothingNeeded;
    }
    let room: u32 = capacity_units_bounded(payload_g, volume_ml, goods, rid);
    let want: u32 = if need < room {
        need
    } else {
        room
    };
    let got: u32 = draw_stock(stacks, Shelf::Tile(at.0, at.1), rid, want);
    if got == 0 {
        return LoadOutcome::NothingStored;
    }
    inv.add(rid, got);
    v.state = VehicleState::Moving;
    LoadOutcome::Loaded(got)
}

/// What came of a delivery.
#[derive(Clone, Copy, Debug, PartialEq, Eq, Structural)]
pub struct Delivery {
    /// What the building took.
    pub deposited: u32,
    /// What is left over and dropped beside the vehicle.
    pub residual: u32,
}

/// Unloads the hauled resource into a building; what it does not take is left over.
pub fn deliver_cargo(
    inv: &mut VehicleInventory,
    deposits: &mut Vec<BuildDeposit>,
    rid: ResourceId,
) -> (r: Delivery)
    ensures
        ({
            let carried = quantity(old(inv).items@, rid);
            &&& final(deposits)@ == filled(old(deposits)@, rid, carried)
            &&& final(inv).items@ == with_taken(old(inv).items@, rid, carried as u32)
            &&& r.deposited == min(carried, open_need(old(deposits)@, rid))
            &&& r.residual == carried - r.deposited
        }),
{
    let carried: u32 = inv.qty_of(rid);
    let deposited: u32 = deposit_load(deposits, rid, carried);
    let ghost need = open_need(old(deposits)@, rid);
    inv.take(rid, carried);
    Delivery { deposited, residual: carried - deposited }
}

/// Hauling neither makes nor loses goods: what leaves the storage is what the cargo gains, and
/// what leaves the cargo is what the building gains and what is left over.
pub proof fn hauling_conserves_goods(
    items: Seq<(ResourceId, u32)>,
    stacks: Seq<StoredStack>,
    deposits: Seq<BuildDeposit>,
    shelf: Shelf,
    rid: ResourceId,
    want: u32,
)
    requires
        quantity(items, rid) + want <= u32::MAX,
    ensures
        ({
            let got = min(want as int, stored(stacks, shelf, rid));
            let loaded = with_added(items, rid, got as u32);
            &&& stored(after_draw(stacks, shelf, rid, want as int), shelf, rid)
                + quantity(loaded, rid) == stored(stacks, shelf, rid) + quantity(items, rid)
        }),
        ({
            let carried = quantity(items, rid);
            let deposited = min(carried, open_need(deposits, rid));
            &&& quantity(with_taken(items, rid, carried as u32), rid) == 0
            &&& open_need(deposits, rid) - open_need(filled(deposits, rid, carried), rid)
                == deposited
            &&& 0 <= deposited <= carried
        }),
{
    crate::assembly::draws_conserve_stock(stacks, shelf, rid, want, shelf, rid);
    let f = crate::assembly::holding(stacks, shelf, rid);
    assert forall|i: int| 0 <= i < stacks.len() implies #[trigger] f(i) >= 0 by {}
    sum_grows(stacks.len() as int, stacks.len() as int, f);
    let got = min(want as int, stored(stacks, shelf, rid));
    adding_changes_one_quantity(items, rid, got as u32, rid);
    let carried = quantity(items, rid);
    quantity_fits(items, rid);
    taking_changes_one_quantity(items, rid, carried as u32, rid);
    deposits_fill_the_need(deposits, rid, carried as u32, rid);
    let g = gap(deposits, rid);
    assert forall|i: int| 0 <= i < deposits.len() implies #[trigger] g(i) >= 0 by {}
    sum_grows(deposits.len() as int, deposits.len() as int, g);
}

proof fn quantity_fits(items: Seq<(ResourceId, u32)>, rid: ResourceId)
    ensures
        0 <= quantity(items, rid) <= u32::MAX,
{
}

/// What a hauler does next follows from where the haul stands: without their turn they wait,
/// without a vehicle the haul is lost, without a claim it is revoked; they board what they have
/// walked to; under way they wait; and once they stand, an empty vehicle makes for the nearest
/// storage tile and loads when it touches it, a loaded one makes for the building and delivers when
/// it touches it.
pub proof fn haulers_fetch_and_deliver(
    view: HaulView,
    design: VehicleDesign,
    v: Vehicle,
    storage: Seq<(i32, i32)>,
    k: int,
)
    requires
        view.due,
        view.task_known,
        view.claims_haul,
        view.boarded,
        !view.under_way,
        0 <= k < storage.len(),
    ensures
        ({
            let m = next_move(view, Some(&design), Some(&v), storage);
            let touches = |t: (i32, i32)|
                exists|s: (i32, i32)| #[trigger]
                    covered(design.grid.cells@, v.anchor_tile, v.heading as int).contains(s) && -1
                        <= s.0 - t.0 <= 1 && -1 <= s.1 - t.1 <= 1;
            &&& !view.loaded ==> m is LoadAt || m is DriveTo
            &&& !view.loaded && m is LoadAt ==> touches(m->LoadAt_0)
            &&& !view.loaded && m is DriveTo ==> !touches(m->DriveTo_0)
            &&& !view.loaded ==> {
                let t = if m is LoadAt {
                    m->LoadAt_0
                } else {
                    m->DriveTo_0
                };
                storage.contains(t) && tile_distance(t, v.anchor_tile) <= tile_distance(
                    storage[k],
                    v.anchor_tile,
                )
            }
            &&& view.loaded ==> match view.deliver_at {
                Some(t) => if touches(t) {
                    m is Deposit
                } else {
                    m == HaulMove::DriveTo(t)
                },
                None => m is SpillAndAbort,
            }
        }),
{
    let cells = design.grid.cells@;
    let list = covered(cells, v.anchor_tile, v.heading as int);
    nearest_is_near(v.anchor_tile, storage, k);
    let src = nearest(v.anchor_tile, storage)->0;
    reach_is_touch(cells, v.anchor_tile, v.heading as int, src);
    if view.deliver_at is Some {
        reach_is_touch(cells, v.anchor_tile, v.heading as int, view.deliver_at->0);
    }
}

proof fn reach_is_touch(
    cells: Seq<(IVec3, VehicleCell)>,
    anchor: (i32, i32),
    heading: int,
    t: (i32, i32),
)
    ensures
        reaches_spec(cells, anchor, heading, t) <==> exists|s: (i32, i32)| #[trigger]
            covered(cells, anchor, heading).contains(s) && -1 <= s.0 - t.0 <= 1 && -1 <= s.1 - t.1
                <= 1,
{
    let list = covered(cells, anchor, heading);
    if reaches_spec(cells, anchor, heading, t) {
        let i = choose|i: int|
            0 <= i < list.len() && tile_distance(#[trigger] list[i], t) <= 1;
        assert(list.contains(list[i]));
    }
    if exists|s: (i32, i32)| #[trigger] list.contains(s) && -1 <= s.0 - t.0 <= 1 && -1 <= s.1 - t.1
        <= 1 {
        let s = choose|s: (i32, i32)| #[trigger] list.contains(s) && -1 <= s.0 - t.0 <= 1 && -1
            <= s.1 - t.1 <= 1;
        let i = choose|i: int| 0 <= i < list.len() && list[i] == s;
        assert(tile_distance(list[i], t) <= 1);
    }
}

/// The nearest of some tiles is one of them, and none of them is nearer.
pub proof fn nearest_is_near(from: (i32, i32), tiles: Seq<(i32, i32)>, k: int)
    requires
        0 <= k < tiles.len(),
    ensures
        nearest(from, tiles) matches Some(t) && tiles.contains(t) && tile_distance(t, from)
            <= tile_distance(tiles[k], from),
{
    some_nearest(from, tiles, tiles.len() as int);
    let i = choose|i: int| is_nearest(from, tiles, i);
    assert(is_nearest(from, tiles, i)) by {
        let j = choose|j: int| nearest_among(from, tiles, tiles.len() as int, j);
        assert(is_nearest(from, tiles, j));
    }
    assert(tiles[k] == tiles[k]);
}

spec fn nearest_among(from: (i32, i32), tiles: Seq<(i32, i32)>, n: int, i: int) -> bool {
    &&& 0 <= i < n
    &&& forall|j: int|
        0 <= j < i ==> tile_distance(#[trigger] tiles[j], from) > tile_distance(tiles[i], from)
    &&& forall|j: int|
        i < j < n ==> tile_distance(#[trigger] tiles[j], from) >= tile_distance(tiles[i], from)
}

proof fn some_nearest(from: (i32, i32), tiles: Seq<(i32, i32)>, n: int)
    requires
        1 <= n <= tiles.len(),
    ensures
        exists|i: int| nearest_among(from, tiles, n, i),
    decreases n,
{
    if n == 1 {
        assert(nearest_among(from, tiles, 1, 0));
    } else {
        let m = n - 1;
        some_nearest(from, tiles, m);
        let b = choose|i: int| nearest_among(from, tiles, m, i);
        if tile_distance(tiles[m], from) < tile_distance(tiles[b], from) {
            assert forall|j: int| 0 <= j < m implies tile_distance(#[trigger] tiles[j], from)
                > tile_distance(tiles[m], from) by {
                if j < b || j > b {
                    assert(tile_distance(tiles[j], from) >= tile_distance(tiles[b], from));
                }
            }
            assert(nearest_among(from, tiles, n, m));
        } else {
            assert(nearest_among(from, tiles, n, b));
        }
    }
}

/// A haul that cannot go on is called off step by step: not one's turn, wait; no such task, cancel;
/// no vehicle, lost; no claim, revoked; not aboard, board only beside the vehicle; under way, wait;
/// an unknown design, give up.
pub proof fn hauls_are_called_off_in_order(
    view: HaulView,
    design: Option<&VehicleDesign>,
    vehicle: Option<&Vehicle>,
    storage: Seq<(i32, i32)>,
)
    ensures
        ({
            let m = next_move(view, design, vehicle, storage);
            &&& !view.due ==> m is Wait
            &&& view.due && !view.task_known <==> m is Cancel
            &&& view.due && view.task_known && vehicle is None <==> m is Lost
            &&& view.due && view.task_known && vehicle is Some && !view.claims_haul <==> m
                is Revoked
            &&& m is Board <==> view.due && view.task_known && vehicle is Some && view.claims_haul
                && !view.boarded && view.at_vehicle
            &&& m is LoadAt || m is Deposit || m is DriveTo || m is SpillAndAbort || m is Abort
                ==> view.due && view.task_known && view.claims_haul && view.boarded
                && !view.under_way && vehicle is Some
            &&& view.due && view.task_known && vehicle is Some && view.claims_haul && view.boarded
                && !view.under_way && (design is None || (!view.loaded && storage.len() == 0))
                ==> m is Abort
        }),
{
    if storage.len() == 0 && vehicle is Some {
        assert(nearest(vehicle->0.anchor_tile, storage) is None);
    }
}

/// How a haul ends: a cancelled one leaves all as it is; a lost one frees the claim; a revoked one
/// parks the vehicle but leaves the claim; one that is given up parks, unboards and frees the
/// claim. None of these counts as done. A delivery that completes the job does all of it and counts
/// as done.
pub proof fn endings_tidy_up(m: HaulMove, boarded: bool, set_down: bool, left: u32)
    ensures
        ending(m, boarded) is Some <==> m is Cancel || m is Lost || m is Revoked || m is Abort || m
            is SpillAndAbort,
        ending(m, boarded) matches Some(e) ==> {
            &&& !e.finished && !e.set_down
            &&& e.repark <==> m is Revoked || m is Abort || m is SpillAndAbort
            &&& e.drop_claim <==> m is Lost || m is Abort || m is SpillAndAbort
            &&& e.unboard <==> (boarded && (m is Lost || m is Revoked)) || m is Abort || m
                is SpillAndAbort
        },
        ({
            let e = done_well(set_down);
            e.finished && e.repark && e.unboard && e.drop_claim && e.set_down == set_down
        }),
        ending_of_load(LoadOutcome::NothingNeeded) matches Some(e) && e.finished && !e.set_down,
        ending_of_load(LoadOutcome::NothingStored) matches Some(e) && !e.finished && e.repark
            && e.unboard && e.drop_claim,
        ending_of_load(LoadOutcome::Loaded(left)) is None,
{
}

/// A vehicle that is parked after a haul has no hauler and stands, unless it lies on its side;
/// nothing else about it changes.
pub proof fn parking_frees_the_vehicle(v: Vehicle)
    ensures
        ({
            let w = reparked(v);
            &&& w.hauler is None
            &&& v.state == VehicleState::Overturned ==> w.state == VehicleState::Overturned
            &&& v.state != VehicleState::Overturned ==> w.state == VehicleState::Parked
            &&& w.anchor_tile == v.anchor_tile && w.z == v.z && w.heading == v.heading
                && w.owner_faction == v.owner_faction && w.design_id == v.design_id && w.purpose
                == v.purpose
        }),
{
}

/// A load is never more than is needed nor more than fits, and is one of the two.
pub proof fn loads_answer_the_need(
    need: int,
    payload_g: int,
    volume_ml: int,
    goods: Seq<Good>,
    rid: ResourceId,
)
    ensures
        ({
            let n = wanted_load(need, payload_g, volume_ml, goods, rid);
            let fits = bounded_units(payload_g, volume_ml, goods, rid);
            n <= need && n <= fits && (n == need || n == fits)
        }),
{
}

/// Earlier lines of a building are filled first: while one still lacks the resource, no later line
/// gets any of it.
pub proof fn earlier_lines_fill_first(
    deposits: Seq<BuildDeposit>,
    rid: ResourceId,
    load: u32,
    i: int,
    j: int,
)
    requires
        0 <= i < j < deposits.len(),
        deposits[i].resource_id == rid,
        filled(deposits, rid, load as int)[i].deposited < deposits[i].needed,
    ensures
        filled(deposits, rid, load as int)[j] == deposits[j],
{
    let g = gap(deposits, rid);
    assert forall|k: int| 0 <= k < deposits.len() implies #[trigger] g(k) >= 0 by {}
    sum_grows(i + 1, j, g);
    sum_grows(0, i, g);
}

/// A job is done when what was brought before and now makes up its target, or when nobody asks for
/// it any more.
pub proof fn jobs_end_at_their_target(p: HaulPosting, deposited: int)
    ensures
        job_done_by(Some(p), deposited) <==> p.target - p.delivered <= deposited,
        job_done_by(None, deposited),
{
}

} // verus!
