//! Orders that a player gives to a vehicle.

use vstd::prelude::*;
use crate::assembly::{
    bill_of, cost_lines, design_bill, holding, lines_fit, stored, Shelf, StoredStack,
};
use crate::catalog::VehicleData;
use crate::combat::{piles, spill};
use crate::design::VehicleDesign;
use crate::footprint::{cover_fits, covered, footprint_ready};
use crate::freight::{
    cargo_weight_g, gather_team, gathered, goods_weigh_what_is_listed, is_puller, slot_weight,
    teams_are_filled_from_those_who_can_pull, unit_weight_g, weight_of, DraftAnimal, Good,
};
use crate::geometry::{cheb, max, min, tile_distance};
use crate::haul::{nearest, nearest_is_near, nearest_tile};
use crate::inventory::{
    adding_changes_one_quantity, has_slot, quantity, slot_for, slot_index, with_added,
    VehicleInventory,
};
use crate::occupancy::{
    disembark_all, landings, landings_are_apart, VehicleOccupancyIndex, DISEMBARK_SEARCH_RADIUS,
};
use crate::parts::{Entity, ResourceId, VehicleState};
use crate::rings::room_around;
use crate::seqs::{
    capped_sum, collect, collect_contains, first_where, sum, sum_agrees, sum_changes_at, sum_grows,
};
use crate::siege::SiegeOrder;
use crate::sorting::{
    every_place_is_taken, follows, order_by_keys, order_of, ordering_is_stable, Key,
};
use crate::terrain::TerrainWindow;
use crate::tiles::{add_number, has_number, no_numbers, numbers, numbers_grow, numbers_in};
use crate::turret::{VehicleFireOrder, FIRE_ORDER_TTL_TICKS};
use crate::vehicle::{
    aboard, eject_all_crew, everyone_aboard_is_counted, gunner_demand, operator_capacity,
    vehicle_gunner_demand,
    vehicle_operator_capacity, Vehicle, VehicleCrew, VehicleDraft,
};

verus! {

/// An order for one vehicle.
#[derive(Clone, Copy, Debug)]
pub enum VehicleOrderKind {
    /// Drive to a tile.
    MoveTo((i32, i32)),
    /// Set an overturned vehicle upright.
    Right,
    /// Fill the cargo from the nearest storage tile.
    Load,
    /// Drop the whole cargo.
    Unload,
    /// Seat idle members of the faction, the nearest as the driver.
    AssignCrew,
    /// Hitch trained animals, up to what the design asks for.
    Hitch,
    /// Release every hitched animal.
    Unhitch,
    /// Break the vehicle up for half of what it cost.
    Deconstruct,
    /// Batter the wall on a tile.
    SiegeWall((i32, i32)),
    /// Put everybody out.
    DisembarkCrew,
    /// Shoot at what is near a tile.
    FireAt((i32, i32)),
}

/// A vehicle with all that belongs to it.
#[derive(Debug)]
pub struct VehicleUnit {
    pub vehicle: Vehicle,
    pub inventory: VehicleInventory,
    pub crew: VehicleCrew,
    pub draft: VehicleDraft,
}

/// A pass that loads stack by stack.
pub struct LoadPass {
    pub items: Seq<(ResourceId, u32)>,
    pub stacks: Seq<StoredStack>,
    /// Grams that still fit.
    pub room: int,
}

/// How many units of a stack go aboard; only what lies on the shelf does.
pub open spec fn units_aboard(pass: LoadPass, shelf: Shelf, goods: Seq<Good>, i: int) -> int {
    if shelf.holds(pass.stacks[i]) {
        min(pass.room / weight_of(goods, pass.stacks[i].resource), pass.stacks[i].qty as int)
    } else {
        0
    }
}

/// A pass after the first `n` stacks: of each on the shelf, as many units as still fit.
pub open spec fn load_pass(start: LoadPass, shelf: Shelf, goods: Seq<Good>, n: int) -> LoadPass
    decreases n,
{
    if n <= 0 {
        start
    } else {
        let before = load_pass(start, shelf, goods, n - 1);
        let s = before.stacks[n - 1];
        let take = units_aboard(before, shelf, goods, n - 1);
        LoadPass {
            items: with_added(before.items, s.resource, take as u32),
            stacks: before.stacks.update(n - 1, StoredStack { qty: (s.qty - take) as u32, ..s }),
            room: before.room - take * weight_of(goods, s.resource),
        }
    }
}

/// The grams that still fit into a cargo.
pub open spec fn room_left(payload_g: int, items: Seq<(ResourceId, u32)>, goods: Seq<Good>) -> int {
    max(
        payload_g - capped_sum(items.len() as int, slot_weight(items, goods), u32::MAX as int),
        0,
    )
}

/// Tops a cargo up from the stacks on a shelf, as far as the payload allows.
pub fn top_up(
    inv: &mut VehicleInventory,
    stacks: &mut Vec<StoredStack>,
    shelf: Shelf,
    payload_g: u32,
    goods: &Vec<Good>,
)
    ensures
        ({
            let start = LoadPass {
                items: old(inv).items@,
                stacks: old(stacks)@,
                room: room_left(payload_g as int, old(inv).items@, goods@),
            };
            let end = load_pass(start, shelf, goods@, old(stacks)@.len() as int);
            final(inv).items@ == end.items && final(stacks)@ == end.stacks
        }),
{
    let mut room: u32 = payload_g.saturating_sub(cargo_weight_g(inv, goods));
    let ghost start = LoadPass { items: inv.items@, stacks: stacks@, room: room as int };
    let mut i: usize = 0;
    while i < stacks.len()
        invariant
            i <= stacks.len(),
            stacks@.len() == start.stacks.len(),
            (LoadPass { items: inv.items@, stacks: stacks@, room: room as int }) == load_pass(
                start,
                shelf,
                goods@,
                i as int,
            ),
        decreases stacks.len() - i,
    {
        let s = stacks[i];
        let unit: u32 = unit_weight_g(goods, s.resource);
        let fits: u32 = room / unit;
        let take: u32 = if !shelf.has(&s) {
            0
        } else if fits < s.qty {
            fits
        } else {
            s.qty
        };
        proof {
            assert(take * unit <= room) by (nonlinear_arith)
                requires
                    take <= fits,
                    fits == room / unit,
                    unit > 0,
            ;
            assert(take * unit >= 0) by (nonlinear_arith);
        }
        inv.add(s.resource, take);
        stacks.set(i, StoredStack { qty: s.qty - take, ..s });
        room = room - take * unit;
        i += 1;
    }
}

/// Loading stays within the room and on the shelf, and a unit on the shelf is left behind only
/// where it would not have fit.
pub proof fn loading_fills_the_room(start: LoadPass, shelf: Shelf, goods: Seq<Good>, n: int)
    requires
        0 <= n <= start.stacks.len(),
        start.room >= 0,
    ensures
        ({
            let end = load_pass(start, shelf, goods, n);
            &&& 0 <= end.room <= start.room
            &&& end.stacks.len() == start.stacks.len()
            &&& forall|i: int|
                0 <= i < n && (#[trigger] end.stacks[i]).qty > 0 && shelf.holds(start.stacks[i])
                    ==> end.room < weight_of(goods, start.stacks[i].resource)
            &&& forall|i: int|
                0 <= i < start.stacks.len() ==> (#[trigger] end.stacks[i]) == (StoredStack {
                    qty: end.stacks[i].qty,
                    ..start.stacks[i]
                })
            &&& forall|i: int|
                0 <= i < start.stacks.len() && !shelf.holds(start.stacks[i])
                    ==> #[trigger] end.stacks[i] == start.stacks[i]
            &&& forall|i: int|
                n <= i < start.stacks.len() ==> #[trigger] end.stacks[i] == start.stacks[i]
        }),
    decreases n,
{
    if n > 0 {
        loading_fills_the_room(start, shelf, goods, n - 1);
        let before = load_pass(start, shelf, goods, n - 1);
        let end = load_pass(start, shelf, goods, n);
        let s = before.stacks[n - 1];
        let unit = weight_of(goods, s.resource);
        let take = units_aboard(before, shelf, goods, n - 1);
        assert(take >= 0 && take * unit >= 0 && take * unit <= before.room) by (nonlinear_arith)
            requires
                take == min(before.room / unit, s.qty as int) || take == 0,
                unit > 0,
                before.room >= 0,
        ;
        if take < s.qty && shelf.holds(s) {
            assert(before.room - take * unit < unit) by (nonlinear_arith)
                requires
                    take == before.room / unit,
                    unit > 0,
                    before.room >= 0,
            ;
        }
        assert(end.stacks[n - 1].qty == s.qty - take);
        assert forall|i: int|
            0 <= i < n && (#[trigger] end.stacks[i]).qty > 0 && shelf.holds(
                start.stacks[i],
            ) implies end.room < weight_of(goods, start.stacks[i].resource) by {
            if i < n - 1 {
                assert(end.stacks[i] == before.stacks[i]);
            }
        }
    }
}

/// Seats as they are being filled.
#[verifier::ext_equal]
pub struct Seating {
    pub driver: Option<Entity>,
    pub gunners: Seq<Entity>,
    pub passengers: Seq<Entity>,
    /// The numbers of the people who were given a seat in this round of orders.
    pub claimed: Set<u64>,
    /// People who go aboard now.
    pub boarded: Seq<Entity>,
}

/// How many seats are taken.
pub open spec fn seated(s: Seating) -> int {
    (if s.driver is Some {
        1int
    } else {
        0
    }) + s.gunners.len() + s.passengers.len()
}

/// The seats after one more person was asked: the driver's first, then the gunners', then any.
pub open spec fn with_member(
    s: Seating,
    person: (Entity, u32),
    faction_id: u32,
    capacity: int,
    gunners: int,
) -> Seating {
    if seated(s) >= capacity || person.1 != faction_id || s.claimed.contains(person.0.0) {
        s
    } else {
        let aboard = Seating {
            claimed: s.claimed.insert(person.0.0),
            boarded: s.boarded.push(person.0),
            ..s
        };
        if s.driver is None {
            Seating { driver: Some(person.0), ..aboard }
        } else if s.gunners.len() < gunners {
            Seating { gunners: s.gunners.push(person.0), ..aboard }
        } else {
            Seating { passengers: s.passengers.push(person.0), ..aboard }
        }
    }
}

/// The seats after the first `n` people were asked.
pub open spec fn seating(
    start: Seating,
    members: Seq<(Entity, u32)>,
    faction_id: u32,
    capacity: int,
    gunners: int,
    n: int,
) -> Seating
    decreases n,
{
    if n <= 0 {
        start
    } else {
        with_member(
            seating(start, members, faction_id, capacity, gunners, n - 1),
            members[n - 1],
            faction_id,
            capacity,
            gunners,
        )
    }
}

/// The seats of a crew before anybody is asked.
pub open spec fn seats_of(crew: VehicleCrew, claimed: Set<u64>) -> Seating {
    Seating {
        driver: crew.driver,
        gunners: crew.gunners@,
        passengers: crew.passengers@,
        claimed,
        boarded: Seq::empty(),
    }
}

/// Seats idle members of the faction in the order of the list; returns who goes aboard.
pub fn assign_crew(
    crew: &mut VehicleCrew,
    members: &Vec<(Entity, u32)>,
    faction_id: u32,
    capacity: usize,
    gunners: usize,
    claimed: &mut ahash::AHashSet<u64>,
) -> (boarded: Vec<Entity>)
    requires
        1 + old(crew).gunners@.len() + old(crew).passengers@.len() <= usize::MAX,
    ensures
        ({
            let end = seating(
                seats_of(*old(crew), numbers_in(*old(claimed))),
                members@,
                faction_id,
                capacity as int,
                gunners as int,
                members@.len() as int,
            );
            &&& final(crew).driver == end.driver
            &&& final(crew).gunners@ == end.gunners
            &&& final(crew).passengers@ == end.passengers
            &&& numbers_in(*final(claimed)) == end.claimed
            &&& boarded@ == end.boarded
        }),
{
    let ghost start = seats_of(*crew, numbers_in(*claimed));
    let mut boarded: Vec<Entity> = Vec::new();
    let mut taken: usize = crew.gunners.len() + crew.passengers.len();
    if crew.driver.is_some() {
        taken = taken + 1;
    }
    let mut i: usize = 0;
    while i < members.len()
        invariant
            i <= members.len(),
            (Seating {
                driver: crew.driver,
                gunners: crew.gunners@,
                passengers: crew.passengers@,
                claimed: numbers_in(*claimed),
                boarded: boarded@,
            }) == seating(start, members@, faction_id, capacity as int, gunners as int, i as int),
            taken == seated(
                seating(start, members@, faction_id, capacity as int, gunners as int, i as int),
            ),
        decreases members.len() - i,
    {
        let (person, of) = members[i];
        if taken < capacity && of == faction_id && !has_number(claimed, person.0) {
            add_number(claimed, person.0);
            boarded.push(person);
            if crew.driver.is_none() {
                crew.driver = Some(person);
            } else if crew.gunners.len() < gunners {
                crew.gunners.push(person);
            } else {
                crew.passengers.push(person);
            }
            taken = taken + 1;
        }
        i += 1;
    }
    boarded
}

/// Seating never fills more seats than there are, takes nobody twice, puts nobody out, and leaves
/// the driver's seat empty only if nobody went aboard.
pub proof fn seating_is_fair(
    start: Seating,
    members: Seq<(Entity, u32)>,
    faction_id: u32,
    capacity: int,
    gunners: int,
    n: int,
)
    requires
        start.boarded.len() == 0,
    ensures
        ({
            let end = seating(start, members, faction_id, capacity, gunners, n);
            &&& seated(end) == seated(start) + end.boarded.len()
            &&& end.boarded.len() > 0 ==> seated(end) <= capacity && end.driver is Some
            &&& start.driver is Some ==> end.driver == start.driver
            &&& end.claimed == start.claimed.union(numbers(end.boarded))
            &&& end.boarded.no_duplicates()
            &&& forall|i: int|
                0 <= i < end.boarded.len() ==> !start.claimed.contains(
                    (#[trigger] end.boarded[i]).0,
                )
            &&& start.gunners.is_prefix_of(end.gunners)
            &&& start.passengers.is_prefix_of(end.passengers)
        }),
    decreases n,
{
    if n > 0 {
        seating_is_fair(start, members, faction_id, capacity, gunners, n - 1);
        let before = seating(start, members, faction_id, capacity, gunners, n - 1);
        let end = seating(start, members, faction_id, capacity, gunners, n);
        if end.boarded.len() > before.boarded.len() {
            let person = members[n - 1].0;
            numbers_grow(before.boarded, person);
            assert(Entity(person.0) == person);
            assert(!numbers(before.boarded).contains(person.0));
        }
        assert(end.claimed =~= start.claimed.union(numbers(end.boarded)));
        assert(start.gunners.is_prefix_of(end.gunners)) by {
            assert(start.gunners =~= end.gunners.subrange(0, start.gunners.len() as int));
        }
        assert(start.passengers.is_prefix_of(end.passengers)) by {
            assert(start.passengers =~= end.passengers.subrange(0, start.passengers.len() as int));
        }
    } else {
        assert(start.boarded =~= Seq::empty());
        assert(start.claimed.union(numbers(start.boarded)) =~= start.claimed);
    }
}

/// Somebody who has nothing to do.
#[derive(Clone, Copy, Debug)]
pub struct IdleMember {
    pub entity: Entity,
    pub faction_id: u32,
    pub tile: (i32, i32),
}

/// How far each person is from a tile, as keys to order by.
pub open spec fn distance_keys(members: Seq<IdleMember>, at: (i32, i32)) -> Seq<Key> {
    Seq::new(members.len(), |i: int| (tile_distance(members[i].tile, at) as i64, 0i64))
}

/// Who is asked, and in what order: the nearest to a tile first, equals in the order of the list.
pub open spec fn nearest_first(members: Seq<IdleMember>, at: (i32, i32)) -> Seq<(Entity, u32)> {
    let order = order_of(distance_keys(members, at));
    Seq::new(
        order.len(),
        |i: int| (members[order[i] as int].entity, members[order[i] as int].faction_id),
    )
}

/// Puts people in the order in which they are asked aboard a vehicle at a tile.
pub fn by_distance(members: &Vec<IdleMember>, at: (i32, i32)) -> (asked: Vec<(Entity, u32)>)
    ensures
        asked@ == nearest_first(members@, at),
{
    let mut keys: Vec<Key> = Vec::new();
    let mut i: usize = 0;
    while i < members.len()
        invariant
            i <= members.len(),
            keys@ == distance_keys(members@, at).take(i as int),
        decreases members.len() - i,
    {
        let d: u32 = cheb(members[i].tile, at);
        keys.push((d as i64, 0));
        i += 1;
        assert(keys@ =~= distance_keys(members@, at).take(i as int));
    }
    assert(keys@ =~= distance_keys(members@, at));
    let order = order_by_keys(&keys);
    proof {
        ordering_is_stable(keys@);
    }
    let mut asked: Vec<(Entity, u32)> = Vec::new();
    let mut k: usize = 0;
    while k < order.len()
        invariant
            k <= order.len(),
            order@ == order_of(distance_keys(members@, at)),
            order@.len() == members@.len(),
            forall|j: int| 0 <= j < order@.len() ==> #[trigger] order@[j] < members@.len(),
            asked@ == nearest_first(members@, at).take(k as int),
        decreases order.len() - k,
    {
        let m = members[order[k]];
        asked.push((m.entity, m.faction_id));
        k += 1;
        assert(asked@ =~= nearest_first(members@, at).take(k as int));
    }
    assert(asked@ =~= nearest_first(members@, at));
    asked
}

/// Everybody is asked once, never somebody farther away before somebody nearer, and of two who are
/// equally far the one who stands first in the list: `order` gives their places in the list.
pub proof fn the_nearest_are_asked_first(members: Seq<IdleMember>, at: (i32, i32))
    requires
        members.len() <= usize::MAX,
    ensures
        exists|order: Seq<usize>|
            {
                &&& order.len() == members.len()
                &&& order.no_duplicates()
                &&& nearest_first(members, at).len() == order.len()
                &&& forall|k: int|
                    0 <= k < order.len() ==> (#[trigger] order[k]) < members.len()
                        && nearest_first(members, at)[k] == (
                        members[order[k] as int].entity,
                        members[order[k] as int].faction_id,
                    )
                &&& forall|a: int, b: int|
                    0 <= a < b < order.len() ==> {
                        let x = tile_distance(members[(#[trigger] order[a]) as int].tile, at);
                        let y = tile_distance(members[(#[trigger] order[b]) as int].tile, at);
                        x < y || (x == y && order[a] < order[b])
                    }
            },
{
    let keys = distance_keys(members, at);
    ordering_is_stable(keys);
    let order = order_of(keys);
    assert forall|a: int, b: int| 0 <= a < b < order.len() implies {
        let x = tile_distance(members[(#[trigger] order[a]) as int].tile, at);
        let y = tile_distance(members[(#[trigger] order[b]) as int].tile, at);
        x < y || (x == y && order[a] < order[b])
    } by {
        assert(follows(keys, order[a], order[b]));
        distance_fits(members[order[a] as int].tile, at);
        distance_fits(members[order[b] as int].tile, at);
    }
}

proof fn distance_fits(a: (i32, i32), b: (i32, i32))
    ensures
        0 <= tile_distance(a, b) <= u32::MAX,
{
}

/// A person who can be given a seat.
pub open spec fn is_free(m: IdleMember, faction_id: u32, claimed: Set<u64>) -> bool {
    m.faction_id == faction_id && !claimed.contains(m.entity.0)
}

/// The first free person of a list drives, if nobody does yet and a seat is left.
proof fn the_first_free_drives(
    start: Seating,
    asked: Seq<(Entity, u32)>,
    faction_id: u32,
    capacity: int,
    gunners: int,
    f: int,
    n: int,
)
    requires
        start.driver is None,
        seated(start) < capacity,
        0 <= f < asked.len(),
        asked[f].1 == faction_id && !start.claimed.contains(asked[f].0.0),
        forall|i: int|
            0 <= i < f ==> (#[trigger] asked[i]).1 != faction_id || start.claimed.contains(
                asked[i].0.0,
            ),
    ensures
        n <= f ==> seating(start, asked, faction_id, capacity, gunners, n) == start,
        n > f ==> seating(start, asked, faction_id, capacity, gunners, n).driver == Some(
            asked[f].0,
        ),
    decreases n,
{
    if n > 0 {
        the_first_free_drives(start, asked, faction_id, capacity, gunners, f, n - 1);
        if n - 1 < f {
            assert(asked[n - 1].1 != faction_id || start.claimed.contains(asked[n - 1].0.0));
        }
    }
}

/// The nearest idle member of the faction becomes the driver, if the vehicle has none and a seat is
/// left: nobody who could have been seated is nearer.
pub proof fn the_nearest_drives(
    start: Seating,
    members: Seq<IdleMember>,
    at: (i32, i32),
    faction_id: u32,
    capacity: int,
    gunners: int,
    who: int,
) -> (driver: int)
    requires
        members.len() <= usize::MAX,
        start.driver is None,
        seated(start) < capacity,
        0 <= who < members.len(),
        is_free(members[who], faction_id, start.claimed),
    ensures
        0 <= driver < members.len(),
        is_free(members[driver], faction_id, start.claimed),
        tile_distance(members[driver].tile, at) <= tile_distance(members[who].tile, at),
        ({
            let asked = nearest_first(members, at);
            seating(start, asked, faction_id, capacity, gunners, asked.len() as int).driver == Some(
                members[driver].entity,
            )
        }),
{
    let keys = distance_keys(members, at);
    let order = order_of(keys);
    let asked = nearest_first(members, at);
    ordering_is_stable(keys);
    let p = every_place_is_taken(order, keys.len() as int, who);
    let free = |c: (Entity, u32)| c.1 == faction_id && !start.claimed.contains(c.0.0);
    assert(free(asked[p]));
    let f = first_up_to(asked, free, p);
    the_first_free_drives(start, asked, faction_id, capacity, gunners, f, asked.len() as int);
    if f < p {
        assert(follows(keys, order[f], order[p]));
        distance_fits(members[order[f] as int].tile, at);
        distance_fits(members[order[p] as int].tile, at);
    }
    order[f] as int
}

proof fn first_up_to<A>(s: Seq<A>, p: spec_fn(A) -> bool, n: int) -> (i: int)
    requires
        0 <= n < s.len(),
        p(s[n]),
    ensures
        i <= n,
        first_where(s, p, i),
    decreases n,
{
    if exists|j: int| 0 <= j < n && p(#[trigger] s[j]) {
        let j = choose|j: int| 0 <= j < n && p(#[trigger] s[j]);
        first_up_to(s, p, j)
    } else {
        n
    }
}

/// Everybody aboard in the order in which they step off: driver, gunners, passengers.
pub open spec fn stepping_off(crew: VehicleCrew) -> Seq<Entity> {
    (match crew.driver {
        Some(d) => seq![d],
        None => Seq::empty(),
    }) + crew.gunners@ + crew.passengers@
}

/// Those who find no place to step off.
pub open spec fn left_aboard(riders: Seq<Entity>, spots: Seq<Option<(i32, i32)>>) -> Seq<Entity> {
    collect(riders.len() as int, |i: int| spots[i] is None, |i: int| riders[i])
}

/// Those who step off, and where.
pub open spec fn stepped_off(riders: Seq<Entity>, spots: Seq<Option<(i32, i32)>>) -> Seq<
    (Entity, (i32, i32)),
> {
    collect(
        riders.len() as int,
        |i: int| spots[i] is Some,
        |i: int| (riders[i], spots[i]->0),
    )
}

/// Those of a list who stay.
pub open spec fn staying(list: Seq<Entity>, still: Seq<Entity>) -> Seq<Entity> {
    collect(list.len() as int, |i: int| still.contains(list[i]), |i: int| list[i])
}

fn keep_only(
    list: &Vec<Entity>,
    still: &ahash::AHashSet<u64>,
    Ghost(left): Ghost<Seq<Entity>>,
) -> (kept: Vec<Entity>)
    requires
        numbers_in(*still) == numbers(left),
    ensures
        kept@ == staying(list@, left),
{
    let ghost p = |i: int| left.contains(list@[i]);
    let ghost mk = |i: int| list@[i];
    let mut kept: Vec<Entity> = Vec::new();
    let mut i: usize = 0;
    while i < list.len()
        invariant
            i <= list.len(),
            p == (|i: int| left.contains(list@[i])),
            numbers_in(*still) == numbers(left),
            mk == (|i: int| list@[i]),
            kept@ == collect(i as int, p, mk),
        decreases list.len() - i,
    {
        assert(Entity(list@[i as int].0) == list@[i as int]);
        if has_number(still, list[i].0) {
            kept.push(list[i]);
        }
        i += 1;
    }
    kept
}

/// The places at which the riders of a unit step off.
pub open spec fn spots_for(
    unit: VehicleUnit,
    design: VehicleDesign,
    terrain: TerrainWindow,
    at: Map<(i32, i32), Entity>,
) -> Seq<Option<(i32, i32)>> {
    let v = unit.vehicle;
    landings(
        terrain,
        at,
        covered(design.grid.cells@, v.anchor_tile, v.heading as int).to_set(),
        v.anchor_tile,
        v.z as int,
        stepping_off(unit.crew).len() as int,
    )
}

/// Everything that a vehicle can be ordered to do has room within machine words.
pub open spec fn unit_fits(unit: VehicleUnit, design: VehicleDesign) -> bool {
    &&& footprint_ready(design.grid.cells@)
    &&& cover_fits(design.grid.cells@, unit.vehicle.anchor_tile, unit.vehicle.heading as int)
    &&& room_around(unit.vehicle.anchor_tile, DISEMBARK_SEARCH_RADIUS as int)
    &&& 1 + unit.crew.gunners@.len() + unit.crew.passengers@.len() <= usize::MAX
}

/// Puts everybody out who finds a place; returns who stepped off where.
pub fn disembark_crew(
    unit: &mut VehicleUnit,
    design: &VehicleDesign,
    terrain: &TerrainWindow,
    occupancy: &VehicleOccupancyIndex,
) -> (off: Vec<(Entity, (i32, i32))>)
    requires
        terrain.wf(),
        unit_fits(*old(unit), *design),
    ensures
        ({
            let riders = stepping_off(old(unit).crew);
            let spots = spots_for(*old(unit), *design, *terrain, occupancy.at());
            let still = left_aboard(riders, spots);
            let crew = old(unit).crew;
            &&& off@ == stepped_off(riders, spots)
            &&& final(unit).vehicle == parked(old(unit).vehicle)
            &&& final(unit).inventory == old(unit).inventory
            &&& final(unit).draft == old(unit).draft
            &&& final(unit).crew.driver == match crew.driver {
                Some(d) => if still.contains(d) {
                    Some(d)
                } else {
                    None
                },
                None => None,
            }
            &&& final(unit).crew.gunners@ == staying(crew.gunners@, still)
            &&& final(unit).crew.passengers@ == staying(crew.passengers@, still)
        }),
{
    let ghost riders = stepping_off(unit.crew);
    let ghost spots = spots_for(*unit, *design, *terrain, occupancy.at());
    let mut list: Vec<Entity> = Vec::new();
    match unit.crew.driver {
        Some(d) => list.push(d),
        None => {},
    }
    let ghost lead = list@;
    let mut i: usize = 0;
    assert(lead + unit.crew.gunners@.take(0) =~= lead);
    while i < unit.crew.gunners.len()
        invariant
            i <= unit.crew.gunners.len(),
            list@ == lead + unit.crew.gunners@.take(i as int),
            *unit == *old(unit),
        decreases unit.crew.gunners.len() - i,
    {
        list.push(unit.crew.gunners[i]);
        i += 1;
        assert(list@ =~= lead + unit.crew.gunners@.take(i as int));
    }
    assert(unit.crew.gunners@.take(i as int) =~= unit.crew.gunners@);
    let ghost two = list@;
    i = 0;
    assert(two + unit.crew.passengers@.take(0) =~= two);
    while i < unit.crew.passengers.len()
        invariant
            i <= unit.crew.passengers.len(),
            list@ == two + unit.crew.passengers@.take(i as int),
            *unit == *old(unit),
        decreases unit.crew.passengers.len() - i,
    {
        list.push(unit.crew.passengers[i]);
        i += 1;
        assert(list@ =~= two + unit.crew.passengers@.take(i as int));
    }
    assert(unit.crew.passengers@.take(i as int) =~= unit.crew.passengers@);
    assert(list@ =~= riders);
    let found = disembark_all(design, &unit.vehicle, list.len(), terrain, occupancy);
    assert(found@ == spots);
    proof {
        crate::occupancy::landings_are_apart(
            *terrain,
            occupancy.at(),
            covered(
                design.grid.cells@,
                unit.vehicle.anchor_tile,
                unit.vehicle.heading as int,
            ).to_set(),
            unit.vehicle.anchor_tile,
            unit.vehicle.z as int,
            list@.len() as int,
        );
    }
    let ghost p = |i: int| spots[i] is None;
    let ghost mk = |i: int| riders[i];
    let ghost q = |i: int| spots[i] is Some;
    let ghost mo = |i: int| (riders[i], spots[i]->0);
    let mut still = no_numbers();
    assert(numbers_in(still) =~= numbers(collect(0, p, mk)));
    let mut off: Vec<(Entity, (i32, i32))> = Vec::new();
    i = 0;
    while i < list.len()
        invariant
            i <= list.len(),
            list@ == riders,
            found@ == spots,
            found@.len() == list@.len(),
            p == (|i: int| spots[i] is None),
            mk == (|i: int| riders[i]),
            q == (|i: int| spots[i] is Some),
            mo == (|i: int| (riders[i], spots[i]->0)),
            numbers_in(still) == numbers(collect(i as int, p, mk)),
            off@ == collect(i as int, q, mo),
            *unit == *old(unit),
        decreases list.len() - i,
    {
        match found[i] {
            Some(t) => off.push((list[i], t)),
            None => {
                proof {
                    numbers_grow(collect(i as int, p, mk), riders[i as int]);
                }
                add_number(&mut still, list[i].0);
            },
        }
        i += 1;
    }
    let ghost left = left_aboard(riders, spots);
    let gunners = keep_only(&unit.crew.gunners, &still, Ghost(left));
    let passengers = keep_only(&unit.crew.passengers, &still, Ghost(left));
    let driver: Option<Entity> = match unit.crew.driver {
        Some(d) => {
            assert(Entity(d.0) == d);
            if has_number(&still, d.0) {
                Some(d)
            } else {
                None
            }
        },
        None => None,
    };
    unit.crew = VehicleCrew { driver, passengers, gunners };
    if unit.vehicle.state != VehicleState::Overturned {
        unit.vehicle.state = VehicleState::Parked;
    }
    off
}

/// A vehicle that stands still; one on its side stays there.
pub open spec fn parked(v: Vehicle) -> Vehicle {
    Vehicle {
        state: if v.state == VehicleState::Overturned {
            v.state
        } else {
            VehicleState::Parked
        },
        ..v
    }
}

/// Half of each line of a bill, rounded down, where anything is left of it.
pub open spec fn refund(bill: Seq<(ResourceId, u32)>) -> Seq<(ResourceId, u32)> {
    collect(
        bill.len() as int,
        |i: int| bill[i].1 / 2 > 0,
        |i: int| (bill[i].0, (bill[i].1 / 2) as u32),
    )
}

/// What breaking a vehicle up gives back of its bill.
pub fn salvage_refund(bill: &Vec<(ResourceId, u32)>) -> (back: Vec<(ResourceId, u32)>)
    ensures
        back@ == refund(bill@),
{
    let ghost p = |i: int| bill@[i].1 / 2 > 0;
    let ghost mk = |i: int| (bill@[i].0, (bill@[i].1 / 2) as u32);
    let mut back: Vec<(ResourceId, u32)> = Vec::new();
    let mut i: usize = 0;
    while i < bill.len()
        invariant
            i <= bill.len(),
            p == (|i: int| bill@[i].1 / 2 > 0),
            mk == (|i: int| (bill@[i].0, (bill@[i].1 / 2) as u32)),
            back@ == collect(i as int, p, mk),
        decreases bill.len() - i,
    {
        let (rid, qty) = bill[i];
        let half: u32 = qty / 2;
        if half > 0 {
            back.push((rid, half));
        }
        i += 1;
    }
    back
}

/// What an order can draw on.
pub struct OrderDesk<'a> {
    pub design: &'a VehicleDesign,
    pub data: &'a VehicleData,
    pub tools: ResourceId,
    pub goods: &'a Vec<Good>,
    pub payload_g: u32,
    /// The storage tiles of the vehicle's faction.
    pub storage: &'a Vec<(i32, i32)>,
    /// The player steers this vehicle.
    pub piloted: bool,
    pub now: u64,
    pub terrain: &'a TerrainWindow,
    pub occupancy: &'a VehicleOccupancyIndex,
    /// Unclaimed tame animals.
    pub animals: &'a Vec<DraftAnimal>,
    pub draft_training: u8,
    pub members: &'a Vec<IdleMember>,
}

/// What is to be done outside the unit.
#[derive(Debug)]
pub enum OrderEffect {
    Nothing,
    /// Plan a route there; a route that is found ends a siege.
    PlanRoute((i32, i32)),
    /// Drop the route.
    Righted,
    /// Drop the route and lay siege.
    Besiege(SiegeOrder),
    /// Goods that lie on the vehicle's tile now.
    Dropped(Vec<(ResourceId, u32)>),
    Boarded(Vec<Entity>),
    Hitched(Vec<Entity>),
    Unhitched(Vec<Entity>),
    /// The vehicle is gone: goods, animals and people are set free.
    Salvaged(Vec<(ResourceId, u32)>, Vec<(ResourceId, u32)>, Vec<Entity>, Vec<Entity>),
    /// Drop the route and the pilot; these people stepped off.
    Disembarked(Vec<(Entity, (i32, i32))>),
    FocusFire(VehicleFireOrder),
}

/// The animals that are added to a team.
pub open spec fn added_team(unit: VehicleUnit, desk: OrderDesk, taken: Set<u64>) -> Seq<Entity> {
    gathered(
        desk.animals@,
        unit.vehicle.owner_faction,
        desk.draft_training,
        taken,
        desk.design.required_animals - unit.draft.hitched@.len(),
    )
}

/// The seats after idle members were asked, those nearest to the vehicle first.
pub open spec fn seats_filled(unit: VehicleUnit, desk: OrderDesk, claimed: Set<u64>) -> Seating {
    let asked = nearest_first(desk.members@, unit.vehicle.anchor_tile);
    seating(
        seats_of(unit.crew, claimed),
        asked,
        unit.vehicle.owner_faction,
        operator_capacity(desk.design.grid.cells@, *desk.data),
        gunner_demand(*desk.design, *desk.data),
        asked.len() as int,
    )
}

/// The cargo and the storage after topping up from the storage tile nearest to the vehicle.
pub open spec fn topped_up(unit: VehicleUnit, desk: OrderDesk, stacks: Seq<StoredStack>) -> LoadPass {
    let start = LoadPass {
        items: unit.inventory.items@,
        stacks,
        room: room_left(desk.payload_g as int, unit.inventory.items@, desk.goods@),
    };
    match nearest(unit.vehicle.anchor_tile, desk.storage@) {
        Some(t) => load_pass(start, Shelf::Tile(t.0, t.1), desk.goods@, stacks.len() as int),
        None => start,
    }
}

/// What an order changes and asks for.
pub open spec fn order_done(
    kind: VehicleOrderKind,
    desk: OrderDesk,
    before: VehicleUnit,
    after: VehicleUnit,
    stacks: (Seq<StoredStack>, Seq<StoredStack>),
    taken: (Set<u64>, Set<u64>),
    claimed: (Set<u64>, Set<u64>),
    effect: OrderEffect,
) -> bool {
    let same_stacks = stacks.1 == stacks.0;
    let same_taken = taken.1 == taken.0;
    let same_claimed = claimed.1 == claimed.0;
    match kind {
        VehicleOrderKind::MoveTo(dest) => {
            let obeys = before.vehicle.hauler is None && before.vehicle.state
                != VehicleState::Overturned && !desk.piloted;
            &&& after == before && same_stacks && same_taken && same_claimed
            &&& effect == if obeys {
                OrderEffect::PlanRoute(dest)
            } else {
                OrderEffect::Nothing
            }
        },
        VehicleOrderKind::Right => {
            let lies = before.vehicle.state == VehicleState::Overturned;
            &&& same_stacks && same_taken && same_claimed
            &&& after.inventory == before.inventory
            &&& after.crew == before.crew
            &&& after.draft == before.draft
            &&& after.vehicle == if lies {
                Vehicle { state: VehicleState::Parked, ..before.vehicle }
            } else {
                before.vehicle
            }
            &&& effect == if lies {
                OrderEffect::Righted
            } else {
                OrderEffect::Nothing
            }
        },
        VehicleOrderKind::Load => {
            let end = topped_up(before, desk, stacks.0);
            &&& same_taken && same_claimed
            &&& after.vehicle == before.vehicle
            &&& after.crew == before.crew
            &&& after.draft == before.draft
            &&& after.inventory.items@ == end.items
            &&& stacks.1 == end.stacks
            &&& effect == OrderEffect::Nothing
        },
        VehicleOrderKind::Unload => {
            &&& same_stacks && same_taken && same_claimed
            &&& after.vehicle == before.vehicle
            &&& after.crew == before.crew
            &&& after.draft == before.draft
            &&& after.inventory.items@.len() == 0
            &&& effect matches OrderEffect::Dropped(list) && list@ == piles(
                before.inventory.items@,
            )
        },
        VehicleOrderKind::AssignCrew => {
            let end = seats_filled(before, desk, claimed.0);
            &&& same_stacks && same_taken
            &&& after.inventory == before.inventory
            &&& after.draft == before.draft
            &&& after.crew.driver == end.driver
            &&& after.crew.gunners@ == end.gunners
            &&& after.crew.passengers@ == end.passengers
            &&& claimed.1 == end.claimed
            &&& after.vehicle == if end.driver is Some {
                parked(before.vehicle)
            } else {
                before.vehicle
            }
            &&& effect matches OrderEffect::Boarded(list) && list@ == end.boarded
        },
        VehicleOrderKind::Hitch => {
            let team = added_team(before, desk, taken.0);
            &&& same_stacks && same_claimed
            &&& after.vehicle == before.vehicle
            &&& after.inventory == before.inventory
            &&& after.crew == before.crew
            &&& after.draft.required_animals == before.draft.required_animals
            &&& after.draft.hitched@ == before.draft.hitched@ + team
            &&& taken.1 == taken.0.union(numbers(team))
            &&& effect matches OrderEffect::Hitched(list) && list@ == team
        },
        VehicleOrderKind::Unhitch => {
            &&& same_stacks && same_taken && same_claimed
            &&& after.vehicle == before.vehicle
            &&& after.inventory == before.inventory
            &&& after.crew == before.crew
            &&& after.draft.required_animals == before.draft.required_animals
            &&& after.draft.hitched@.len() == 0
            &&& effect matches OrderEffect::Unhitched(list) && list@ == before.draft.hitched@
        },
        VehicleOrderKind::Deconstruct => {
            &&& same_stacks && same_taken && same_claimed
            &&& after.vehicle == before.vehicle
            &&& after.inventory.items@.len() == 0
            &&& after.draft.hitched@.len() == 0
            &&& aboard(after.crew).len() == 0
            &&& effect matches OrderEffect::Salvaged(back, cargo, team, riders) && back@ == refund(
                bill_of(*desk.design, *desk.data, desk.tools),
            ) && cargo@ == piles(before.inventory.items@) && team@ == before.draft.hitched@
                && riders@ == aboard(before.crew)
        },
        VehicleOrderKind::SiegeWall(tile) => {
            &&& after == before && same_stacks && same_taken && same_claimed
            &&& effect == OrderEffect::Besiege(
                SiegeOrder { target_tile: tile, last_route_attempt_tick: 0 },
            )
        },
        VehicleOrderKind::DisembarkCrew => {
            let riders = stepping_off(before.crew);
            let spots = spots_for(before, *desk.design, *desk.terrain, desk.occupancy.at());
            let still = left_aboard(riders, spots);
            &&& same_stacks && same_taken && same_claimed
            &&& after.vehicle == parked(before.vehicle)
            &&& after.inventory == before.inventory
            &&& after.draft == before.draft
            &&& after.crew.driver == match before.crew.driver {
                Some(d) => if still.contains(d) {
                    Some(d)
                } else {
                    None
                },
                None => None,
            }
            &&& after.crew.gunners@ == staying(before.crew.gunners@, still)
            &&& after.crew.passengers@ == staying(before.crew.passengers@, still)
            &&& effect matches OrderEffect::Disembarked(list) && list@ == stepped_off(
                riders,
                spots,
            )
        },
        VehicleOrderKind::FireAt(tile) => {
            &&& after == before && same_stacks && same_taken && same_claimed
            &&& effect == OrderEffect::FocusFire(
                VehicleFireOrder {
                    target_tile: tile,
                    expires_tick: min(desk.now + FIRE_ORDER_TTL_TICKS, u64::MAX as int) as u64,
                },
            )
        },
    }
}

/// Applies one order to a vehicle. `stacks` are those on the storage tile nearest to it; `taken`
/// and `claimed` hold the numbers of the animals and people that earlier orders of the same round
/// took.
pub fn apply_order(
    kind: VehicleOrderKind,
    desk: &OrderDesk,
    unit: &mut VehicleUnit,
    stacks: &mut Vec<StoredStack>,
    taken: &mut ahash::AHashSet<u64>,
    claimed: &mut ahash::AHashSet<u64>,
) -> (effect: OrderEffect)
    requires
        desk.terrain.wf(),
        unit_fits(*old(unit), *desk.design),
        lines_fit(cost_lines(*desk.design, *desk.data, desk.tools)),
    ensures
        order_done(
            kind,
            *desk,
            *old(unit),
            *final(unit),
            (old(stacks)@, final(stacks)@),
            (numbers_in(*old(taken)), numbers_in(*final(taken))),
            (numbers_in(*old(claimed)), numbers_in(*final(claimed))),
            effect,
        ),
{
    match kind {
        VehicleOrderKind::MoveTo(dest) => {
            if unit.vehicle.hauler.is_some() || unit.vehicle.state == VehicleState::Overturned
                || desk.piloted {
                OrderEffect::Nothing
            } else {
                OrderEffect::PlanRoute(dest)
            }
        },
        VehicleOrderKind::Right => {
            if unit.vehicle.state == VehicleState::Overturned {
                unit.vehicle.state = VehicleState::Parked;
                OrderEffect::Righted
            } else {
                OrderEffect::Nothing
            }
        },
        VehicleOrderKind::Load => {
            match nearest_tile(unit.vehicle.anchor_tile, desk.storage) {
                Some(t) => {
                    top_up(
                        &mut unit.inventory,
                        stacks,
                        Shelf::Tile(t.0, t.1),
                        desk.payload_g,
                        desk.goods,
                    );
                },
                None => {},
            }
            OrderEffect::Nothing
        },
        VehicleOrderKind::Unload => OrderEffect::Dropped(spill(&mut unit.inventory)),
        VehicleOrderKind::AssignCrew => {
            let capacity: usize = vehicle_operator_capacity(desk.design, desk.data);
            let gunners: usize = vehicle_gunner_demand(desk.design, desk.data);
            let asked = by_distance(desk.members, unit.vehicle.anchor_tile);
            let boarded = assign_crew(
                &mut unit.crew,
                &asked,
                unit.vehicle.owner_faction,
                capacity,
                gunners,
                claimed,
            );
            if unit.vehicle.state != VehicleState::Overturned && unit.crew.driver.is_some() {
                unit.vehicle.state = VehicleState::Parked;
            }
            OrderEffect::Boarded(boarded)
        },
        VehicleOrderKind::Hitch => {
            let have: usize = unit.draft.hitched.len();
            let missing: u8 = if have < desk.design.required_animals as usize {
                desk.design.required_animals - have as u8
            } else {
                0
            };
            let team = gather_team(
                desk.animals,
                unit.vehicle.owner_faction,
                desk.draft_training,
                taken,
                missing,
            );
            let ghost start = unit.draft.hitched@;
            let mut i: usize = 0;
            assert(start + team@.take(0) =~= start);
            while i < team.len()
                invariant
                    i <= team.len(),
                    unit.draft.hitched@ == start + team@.take(i as int),
                    unit.draft.required_animals == old(unit).draft.required_animals,
                    unit.vehicle == old(unit).vehicle,
                    unit.inventory == old(unit).inventory,
                    unit.crew == old(unit).crew,
                decreases team.len() - i,
            {
                unit.draft.hitched.push(team[i]);
                i += 1;
                assert(unit.draft.hitched@ =~= start + team@.take(i as int));
            }
            assert(team@.take(i as int) =~= team@);
            OrderEffect::Hitched(team)
        },
        VehicleOrderKind::Unhitch => OrderEffect::Unhitched(release_team(&mut unit.draft)),
        VehicleOrderKind::Deconstruct => {
            let bill = design_bill(desk.design, desk.data, desk.tools);
            let back = salvage_refund(&bill);
            let cargo = spill(&mut unit.inventory);
            let team = release_team(&mut unit.draft);
            let riders = eject_all_crew(&mut unit.crew);
            OrderEffect::Salvaged(back, cargo, team, riders)
        },
        VehicleOrderKind::SiegeWall(tile) => OrderEffect::Besiege(
            SiegeOrder { target_tile: tile, last_route_attempt_tick: 0 },
        ),
        VehicleOrderKind::DisembarkCrew => {
            let off = disembark_crew(unit, desk.design, desk.terrain, desk.occupancy);
            OrderEffect::Disembarked(off)
        },
        VehicleOrderKind::FireAt(tile) => {
            OrderEffect::FocusFire(
                VehicleFireOrder {
                    target_tile: tile,
                    expires_tick: desk.now.saturating_add(FIRE_ORDER_TTL_TICKS),
                },
            )
        },
    }
}

/// Sets a team free; returns the animals.
fn release_team(draft: &mut VehicleDraft) -> (team: Vec<Entity>)
    ensures
        team@ == old(draft).hitched@,
        final(draft).hitched@.len() == 0,
        final(draft).required_animals == old(draft).required_animals,
{
    let mut team: Vec<Entity> = Vec::new();
    let ghost all = draft.hitched@;
    let mut i: usize = 0;
    while i < draft.hitched.len()
        invariant
            i <= draft.hitched.len(),
            draft.hitched@ == all,
            team@ == all.take(i as int),
        decreases draft.hitched.len() - i,
    {
        team.push(draft.hitched[i]);
        i += 1;
        assert(team@ =~= all.take(i as int));
    }
    assert(all.take(i as int) =~= all);
    draft.hitched.clear();
    team
}

/// A refund never gives back more than half of what was paid.
pub proof fn refunds_are_half(bill: Seq<(ResourceId, u32)>, entry: (ResourceId, u32))
    ensures
        refund(bill).contains(entry) ==> exists|i: int|
            0 <= i < bill.len() && (#[trigger] bill[i]).0 == entry.0 && entry.1 == bill[i].1 / 2
                && entry.1 > 0,
{
    let p = |i: int| bill[i].1 / 2 > 0;
    let mk = |i: int| (bill[i].0, (bill[i].1 / 2) as u32);
    crate::seqs::collect_contains(bill.len() as int, p, mk, entry);
    if refund(bill).contains(entry) {
        let i = choose|i: int| 0 <= i < bill.len() && p(i) && #[trigger] mk(i) == entry;
        assert(bill[i].0 == entry.0);
    }
}

/// Loading moves goods from the shelf into the vehicle: of every resource, what lies there and what
/// is aboard make up the same as before, and nothing is taken from aboard.
pub proof fn loading_moves_goods(
    start: LoadPass,
    shelf: Shelf,
    goods: Seq<Good>,
    n: int,
    rid: ResourceId,
)
    requires
        0 <= n <= start.stacks.len(),
        start.room >= 0,
        quantity(start.items, rid) + stored(start.stacks, shelf, rid) <= u32::MAX,
    ensures
        ({
            let end = load_pass(start, shelf, goods, n);
            &&& quantity(end.items, rid) + stored(end.stacks, shelf, rid) == quantity(
                start.items,
                rid,
            ) + stored(start.stacks, shelf, rid)
            &&& quantity(end.items, rid) >= quantity(start.items, rid)
        }),
    decreases n,
{
    if n > 0 {
        loading_moves_goods(start, shelf, goods, n - 1, rid);
        loading_fills_the_room(start, shelf, goods, n - 1);
        let before = load_pass(start, shelf, goods, n - 1);
        let end = load_pass(start, shelf, goods, n);
        let s = before.stacks[n - 1];
        let take = units_aboard(before, shelf, goods, n - 1);
        let w = weight_of(goods, s.resource);
        goods_weigh_what_is_listed(goods, s.resource, 0);
        assert(before.room / w >= 0) by (nonlinear_arith)
            requires
                before.room >= 0,
                w > 0,
        ;
        assert(0 <= take <= s.qty);
        let f = holding(before.stacks, shelf, rid);
        let g = holding(end.stacks, shelf, rid);
        let m = start.stacks.len() as int;
        assert forall|i: int| 0 <= i < m && i != n - 1 implies #[trigger] f(i) == g(i) by {
            assert(before.stacks[i] == end.stacks[i]);
        }
        sum_changes_at(m, f, g, n - 1);
        assert forall|i: int| 0 <= i < m implies #[trigger] g(i) >= 0 by {}
        sum_grows(0, m, g);
        adding_changes_one_quantity(before.items, s.resource, take as u32, rid);
        adding_changes_one_quantity(before.items, rid, take as u32, rid);
    }
}

/// The weight of one slot.
pub open spec fn slot_grams(items: Seq<(ResourceId, u32)>, goods: Seq<Good>) -> spec_fn(int) -> int {
    |i: int| weight_of(goods, items[i].0) * items[i].1
}

/// What a cargo weighs in all.
pub open spec fn grams(items: Seq<(ResourceId, u32)>, goods: Seq<Good>) -> int {
    sum(items.len() as int, slot_grams(items, goods))
}

proof fn adding_adds_weight(
    items: Seq<(ResourceId, u32)>,
    goods: Seq<Good>,
    rid: ResourceId,
    qty: u32,
)
    ensures
        grams(with_added(items, rid, qty), goods) <= grams(items, goods) + weight_of(goods, rid)
            * qty,
{
    let w = weight_of(goods, rid);
    let after = with_added(items, rid, qty);
    let n = items.len() as int;
    let f = slot_grams(items, goods);
    let g = slot_grams(after, goods);
    goods_weigh_what_is_listed(goods, rid, 0);
    if qty == 0 {
        assert(w * 0 == 0) by (nonlinear_arith);
    } else if has_slot(items, rid) {
        let k = slot_index(items, rid);
        assert(first_where(items, slot_for(rid), k));
        assert(slot_for(rid)(items[k]));
        assert forall|i: int| 0 <= i < n && i != k implies #[trigger] f(i) == g(i) by {
            assert(items[i] == after[i]);
        }
        sum_changes_at(n, f, g, k);
        let a = items[k].1 as int;
        let b = after[k].1 as int;
        assert(w * b <= w * a + w * qty) by (nonlinear_arith)
            requires
                w > 0,
                b <= a + qty,
        ;
        assert(g(k) == w * b && f(k) == w * a);
    } else {
        assert forall|i: int| 0 <= i < n implies #[trigger] f(i) == g(i) by {
            assert(items[i] == after[i]);
        }
        sum_agrees(n, f, g);
        assert(after[n] == (rid, qty));
        assert(g(n) == w * qty);
    }
}

/// Loading uses up the room that it fills: the cargo grows by no more grams than the room shrinks.
pub proof fn loading_never_overloads(start: LoadPass, shelf: Shelf, goods: Seq<Good>, n: int)
    requires
        0 <= n <= start.stacks.len(),
        start.room >= 0,
    ensures
        ({
            let end = load_pass(start, shelf, goods, n);
            &&& grams(end.items, goods) + end.room <= grams(start.items, goods) + start.room
            &&& end.room >= 0
        }),
    decreases n,
{
    if n > 0 {
        loading_never_overloads(start, shelf, goods, n - 1);
        loading_fills_the_room(start, shelf, goods, n - 1);
        loading_fills_the_room(start, shelf, goods, n);
        let before = load_pass(start, shelf, goods, n - 1);
        let s = before.stacks[n - 1];
        let take = units_aboard(before, shelf, goods, n - 1);
        let w = weight_of(goods, s.resource);
        goods_weigh_what_is_listed(goods, s.resource, 0);
        assert(before.room / w >= 0) by (nonlinear_arith)
            requires
                before.room >= 0,
                w > 0,
        ;
        adding_adds_weight(before.items, goods, s.resource, take as u32);
        assert(w * take == take * w) by (nonlinear_arith);
    }
}

/// The room of a vehicle is what its payload leaves beyond the cargo's weight, and none when there
/// is too much aboard already.
pub proof fn room_is_what_the_payload_leaves(
    payload_g: u32,
    items: Seq<(ResourceId, u32)>,
    goods: Seq<Good>,
)
    requires
        grams(items, goods) <= u32::MAX,
    ensures
        grams(items, goods) <= payload_g ==> room_left(payload_g as int, items, goods)
            + grams(items, goods) == payload_g,
        grams(items, goods) > payload_g ==> room_left(payload_g as int, items, goods) == 0,
{
    let f = slot_weight(items, goods);
    let g = slot_grams(items, goods);
    let n = items.len() as int;
    assert forall|i: int| 0 <= i < n implies #[trigger] f(i) == g(i) by {
        slots_weigh_less(items, goods, n, i);
    }
    sum_agrees(n, f, g);
}

proof fn slots_weigh_less(items: Seq<(ResourceId, u32)>, goods: Seq<Good>, n: int, i: int)
    requires
        0 <= i < n <= items.len(),
    ensures
        0 <= slot_grams(items, goods)(i) <= sum(n, slot_grams(items, goods)),
        0 <= sum(n, slot_grams(items, goods)),
    decreases n,
{
    let g = slot_grams(items, goods);
    let last = n - 1;
    goods_weigh_what_is_listed(goods, items[last].0, 0);
    let w = weight_of(goods, items[last].0);
    let q = items[last].1 as int;
    assert(w * q >= 0) by (nonlinear_arith)
        requires
            w > 0,
            q >= 0,
    ;
    assert(g(last) >= 0);
    assert(sum(n, g) == sum(last, g) + g(last));
    assert(sum(0, g) == 0);
    if n > 1 {
        if i < last {
            slots_weigh_less(items, goods, last, i);
        } else {
            slots_weigh_less(items, goods, last, 0);
        }
    }
}

/// Somebody of a faction is among the first `n` who are asked.
pub open spec fn asked_of_faction(
    members: Seq<(Entity, u32)>,
    faction_id: u32,
    n: int,
    e: Entity,
) -> bool {
    exists|k: int| 0 <= k < n && (#[trigger] members[k]).0 == e && members[k].1 == faction_id
}

/// Seats go to the faction's own: whoever goes aboard is one of its members who was asked. The
/// driver's seat is filled first, then gunners up to what the weapons ask for, then passengers; and
/// no member who is free is left out while a seat is.
pub proof fn seats_go_to_the_faction(
    start: Seating,
    members: Seq<(Entity, u32)>,
    faction_id: u32,
    capacity: int,
    gunners: int,
    n: int,
    k: int,
)
    requires
        start.boarded.len() == 0,
        0 <= n <= members.len(),
        0 <= k < n,
    ensures
        ({
            let end = seating(start, members, faction_id, capacity, gunners, n);
            &&& forall|i: int|
                0 <= i < end.boarded.len() ==> asked_of_faction(
                    members,
                    faction_id,
                    n,
                    #[trigger] end.boarded[i],
                )
            &&& end.gunners.len() > start.gunners.len() ==> end.driver is Some
                && end.gunners.len() <= gunners
            &&& end.passengers.len() > start.passengers.len() ==> end.driver is Some
                && end.gunners.len() >= gunners
            &&& members[k].1 == faction_id ==> end.claimed.contains(members[k].0.0) || seated(end)
                >= capacity
            &&& start.driver is None && end.boarded.len() > 0 ==> end.driver == Some(end.boarded[0])
        }),
    decreases n,
{
    let before = seating(start, members, faction_id, capacity, gunners, n - 1);
    let end = seating(start, members, faction_id, capacity, gunners, n);
    let p = members[n - 1];
    if n > 1 {
        let j = if k < n - 1 {
            k
        } else {
            0
        };
        seats_go_to_the_faction(start, members, faction_id, capacity, gunners, n - 1, j);
    }
    seating_is_fair(start, members, faction_id, capacity, gunners, n - 1);
    assert(before.boarded.len() == 0 || n > 1);
    assert forall|i: int| 0 <= i < end.boarded.len() implies asked_of_faction(
        members,
        faction_id,
        n,
        #[trigger] end.boarded[i],
    ) by {
        if i < before.boarded.len() {
            assert(end.boarded[i] == before.boarded[i]);
            let m = choose|m: int|
                0 <= m < n - 1 && (#[trigger] members[m]).0 == end.boarded[i] && members[m].1
                    == faction_id;
            assert(members[m].0 == end.boarded[i]);
        } else {
            assert(members[n - 1].0 == end.boarded[i]);
        }
    }
}

/// An order to drive is obeyed by a vehicle that nobody hauls, that stands upright and that the
/// player does not steer; no other vehicle plans a route. It changes nothing of itself.
pub proof fn moves_need_a_free_hand(
    dest: (i32, i32),
    desk: OrderDesk,
    before: VehicleUnit,
    after: VehicleUnit,
    stacks: (Seq<StoredStack>, Seq<StoredStack>),
    taken: (Set<u64>, Set<u64>),
    claimed: (Set<u64>, Set<u64>),
    effect: OrderEffect,
)
    requires
        order_done(
            VehicleOrderKind::MoveTo(dest),
            desk,
            before,
            after,
            stacks,
            taken,
            claimed,
            effect,
        ),
    ensures
        effect is PlanRoute <==> before.vehicle.hauler is None && before.vehicle.state
            != VehicleState::Overturned && !desk.piloted,
        effect is PlanRoute || effect is Nothing,
        effect matches OrderEffect::PlanRoute(t) ==> t == dest,
        after == before && stacks.1 == stacks.0 && taken.1 == taken.0 && claimed.1 == claimed.0,
{
}

/// Setting a vehicle upright parks one that lies on its side, and does nothing to any other.
pub proof fn only_the_fallen_are_righted(
    desk: OrderDesk,
    before: VehicleUnit,
    after: VehicleUnit,
    stacks: (Seq<StoredStack>, Seq<StoredStack>),
    taken: (Set<u64>, Set<u64>),
    claimed: (Set<u64>, Set<u64>),
    effect: OrderEffect,
)
    requires
        order_done(
            VehicleOrderKind::Right,
            desk,
            before,
            after,
            stacks,
            taken,
            claimed,
            effect,
        ),
    ensures
        after.vehicle.state != VehicleState::Overturned,
        effect is Righted <==> before.vehicle.state == VehicleState::Overturned,
        before.vehicle.state == VehicleState::Overturned ==> after.vehicle.state
            == VehicleState::Parked,
        before.vehicle.state != VehicleState::Overturned ==> after.vehicle == before.vehicle,
        after.vehicle.anchor_tile == before.vehicle.anchor_tile && after.vehicle.hauler
            == before.vehicle.hauler && after.vehicle.heading == before.vehicle.heading,
        after.inventory == before.inventory && after.crew == before.crew && after.draft
            == before.draft,
{
}

/// Unloading drops every slot that holds something and leaves the vehicle empty.
pub proof fn unloading_empties_the_vehicle(
    desk: OrderDesk,
    before: VehicleUnit,
    after: VehicleUnit,
    stacks: (Seq<StoredStack>, Seq<StoredStack>),
    taken: (Set<u64>, Set<u64>),
    claimed: (Set<u64>, Set<u64>),
    effect: OrderEffect,
    i: int,
)
    requires
        order_done(
            VehicleOrderKind::Unload,
            desk,
            before,
            after,
            stacks,
            taken,
            claimed,
            effect,
        ),
        0 <= i < before.inventory.items@.len(),
        before.inventory.items@[i].1 > 0,
    ensures
        effect is Dropped,
        effect->Dropped_0@.contains(before.inventory.items@[i]),
        after.inventory.items@.len() == 0,
        after.vehicle == before.vehicle && after.crew == before.crew && after.draft
            == before.draft && stacks.1 == stacks.0,
{
    piles_hold_full_slots(before.inventory.items@, i);
}

proof fn piles_hold_full_slots(items: Seq<(ResourceId, u32)>, i: int)
    requires
        0 <= i < items.len(),
        items[i].1 > 0,
    ensures
        piles(items).contains(items[i]),
{
    let p = |k: int| items[k].1 > 0;
    let mk = |k: int| items[k];
    collect_contains(items.len() as int, p, mk, items[i]);
    assert(p(i) && mk(i) == items[i]);
}

/// Loading takes from the storage tile that is nearest to the vehicle, and from no other; it never
/// lets the cargo outweigh the payload, or grow at all where it does so already.
pub proof fn loads_come_from_the_nearest_storage(
    desk: OrderDesk,
    before: VehicleUnit,
    after: VehicleUnit,
    stacks: (Seq<StoredStack>, Seq<StoredStack>),
    taken: (Set<u64>, Set<u64>),
    claimed: (Set<u64>, Set<u64>),
    effect: OrderEffect,
    k: int,
    i: int,
)
    requires
        order_done(
            VehicleOrderKind::Load,
            desk,
            before,
            after,
            stacks,
            taken,
            claimed,
            effect,
        ),
        0 <= k < desk.storage@.len(),
        0 <= i < stacks.0.len(),
        stacks.0.len() == stacks.1.len(),
        grams(before.inventory.items@, desk.goods@) <= u32::MAX,
    ensures
        stacks.1[i] != stacks.0[i] ==> {
            let s = stacks.0[i];
            let at = before.vehicle.anchor_tile;
            &&& desk.storage@.contains((s.x, s.y))
            &&& tile_distance((s.x, s.y), at) <= tile_distance(desk.storage@[k], at)
            &&& stacks.1[i].qty < s.qty
            &&& stacks.1[i].resource == s.resource
        },
        grams(before.inventory.items@, desk.goods@) <= desk.payload_g ==> grams(
            after.inventory.items@,
            desk.goods@,
        ) <= desk.payload_g,
        grams(before.inventory.items@, desk.goods@) > desk.payload_g ==> grams(
            after.inventory.items@,
            desk.goods@,
        ) <= grams(before.inventory.items@, desk.goods@),
        after.vehicle == before.vehicle && after.crew == before.crew && after.draft
            == before.draft,
{
    let at = before.vehicle.anchor_tile;
    nearest_is_near(at, desk.storage@, k);
    let t = nearest(at, desk.storage@)->0;
    let start = LoadPass {
        items: before.inventory.items@,
        stacks: stacks.0,
        room: room_left(desk.payload_g as int, before.inventory.items@, desk.goods@),
    };
    let shelf = Shelf::Tile(t.0, t.1);
    let n = stacks.0.len() as int;
    loading_fills_the_room(start, shelf, desk.goods@, n);
    loading_never_overloads(start, shelf, desk.goods@, n);
    loading_only_takes(start, shelf, desk.goods@, n, i);
    room_is_what_the_payload_leaves(desk.payload_g, before.inventory.items@, desk.goods@);
    assert(stacks.1[i] == load_pass(start, shelf, desk.goods@, n).stacks[i]);
}

proof fn loading_only_takes(start: LoadPass, shelf: Shelf, goods: Seq<Good>, n: int, i: int)
    requires
        0 <= n <= start.stacks.len(),
        0 <= i < start.stacks.len(),
        start.room >= 0,
    ensures
        load_pass(start, shelf, goods, n).stacks.len() == start.stacks.len(),
        load_pass(start, shelf, goods, n).stacks[i].qty <= start.stacks[i].qty,
    decreases n,
{
    if n > 0 {
        loading_only_takes(start, shelf, goods, n - 1, i);
        loading_fills_the_room(start, shelf, goods, n - 1);
        let before = load_pass(start, shelf, goods, n - 1);
        let s = before.stacks[n - 1];
        let w = weight_of(goods, s.resource);
        goods_weigh_what_is_listed(goods, s.resource, 0);
        assert(before.room / w >= 0) by (nonlinear_arith)
            requires
                before.room >= 0,
                w > 0,
        ;
    }
}

/// Hitching adds only animals of the owner's faction that are cattle or horses, trained enough and
/// not taken, to those before the vehicle already; it never brings the team beyond what the design
/// asks for, and marks those it hitched as taken.
pub proof fn hitching_fills_the_team(
    desk: OrderDesk,
    before: VehicleUnit,
    after: VehicleUnit,
    stacks: (Seq<StoredStack>, Seq<StoredStack>),
    taken: (Set<u64>, Set<u64>),
    claimed: (Set<u64>, Set<u64>),
    effect: OrderEffect,
    i: int,
)
    requires
        order_done(
            VehicleOrderKind::Hitch,
            desk,
            before,
            after,
            stacks,
            taken,
            claimed,
            effect,
        ),
        desk.animals@.len() > 0,
        before.draft.hitched@.len() <= i < after.draft.hitched@.len(),
    ensures
        is_puller(
            desk.animals@,
            before.vehicle.owner_faction,
            desk.draft_training,
            taken.0,
            after.draft.hitched@[i],
        ),
        after.draft.hitched@.len() <= desk.design.required_animals,
        before.draft.hitched@.is_prefix_of(after.draft.hitched@),
        taken.1.contains(after.draft.hitched@[i].0),
        effect matches OrderEffect::Hitched(list) && list@.contains(after.draft.hitched@[i]),
{
    let team = added_team(before, desk, taken.0);
    let old_team = before.draft.hitched@;
    let n = desk.design.required_animals - old_team.len();
    teams_are_filled_from_those_who_can_pull(
        desk.animals@,
        before.vehicle.owner_faction,
        desk.draft_training,
        taken.0,
        n,
        0,
    );
    let j = i - old_team.len();
    assert(after.draft.hitched@[i] == team[j]);
    assert(team.contains(team[j]));
    assert(n > 0);
    assert(numbers(team).contains(team[j].0)) by {
        assert(team.contains(Entity(team[j].0)));
    }
}

/// Unhitching sets the whole team free.
pub proof fn unhitching_frees_the_team(
    desk: OrderDesk,
    before: VehicleUnit,
    after: VehicleUnit,
    stacks: (Seq<StoredStack>, Seq<StoredStack>),
    taken: (Set<u64>, Set<u64>),
    claimed: (Set<u64>, Set<u64>),
    effect: OrderEffect,
)
    requires
        order_done(
            VehicleOrderKind::Unhitch,
            desk,
            before,
            after,
            stacks,
            taken,
            claimed,
            effect,
        ),
    ensures
        effect matches OrderEffect::Unhitched(list) && list@ == before.draft.hitched@,
        after.draft.hitched@.len() == 0,
        after.vehicle == before.vehicle && after.inventory == before.inventory && after.crew
            == before.crew,
{
}

/// Breaking a vehicle up gives back half of each part of its price, rounded down, and sets free all
/// that it carried: cargo, team and crew.
pub proof fn wreckers_give_back_half(
    desk: OrderDesk,
    before: VehicleUnit,
    after: VehicleUnit,
    stacks: (Seq<StoredStack>, Seq<StoredStack>),
    taken: (Set<u64>, Set<u64>),
    claimed: (Set<u64>, Set<u64>),
    effect: OrderEffect,
    i: int,
    rider: Entity,
)
    requires
        order_done(
            VehicleOrderKind::Deconstruct,
            desk,
            before,
            after,
            stacks,
            taken,
            claimed,
            effect,
        ),
    ensures
        effect is Salvaged,
        ({
            let bill = bill_of(*desk.design, *desk.data, desk.tools);
            0 <= i < bill.len() && bill[i].1 >= 2 ==> exists|j: int|
                0 <= j < effect->Salvaged_0@.len() && (#[trigger] effect->Salvaged_0@[j]).0
                    == bill[i].0 && effect->Salvaged_0@[j].1 == bill[i].1 / 2
        }),
        0 <= i < before.inventory.items@.len() && before.inventory.items@[i].1 > 0
            ==> effect->Salvaged_1@.contains(before.inventory.items@[i]),
        effect->Salvaged_2@ == before.draft.hitched@,
        before.crew.driver == Some(rider) || before.crew.passengers@.contains(rider)
            || before.crew.gunners@.contains(rider) ==> effect->Salvaged_3@.contains(rider),
        after.inventory.items@.len() == 0 && after.draft.hitched@.len() == 0,
        after.crew.driver is None && after.crew.passengers@.len() == 0 && after.crew.gunners@.len()
            == 0,
{
    let bill = bill_of(*desk.design, *desk.data, desk.tools);
    if 0 <= i < bill.len() && bill[i].1 >= 2 {
        let p = |k: int| bill[k].1 / 2 > 0;
        let mk = |k: int| (bill[k].0, (bill[k].1 / 2) as u32);
        collect_contains(bill.len() as int, p, mk, mk(i));
        assert(p(i));
        let back = effect->Salvaged_0@;
        assert(back.contains(mk(i)));
        let j = choose|j: int| 0 <= j < back.len() && back[j] == mk(i);
        assert(back[j].0 == bill[i].0 && back[j].1 == bill[i].1 / 2);
    }
    if 0 <= i < before.inventory.items@.len() && before.inventory.items@[i].1 > 0 {
        piles_hold_full_slots(before.inventory.items@, i);
    }
    everyone_aboard_is_counted(None, before.crew, rider);
    everyone_aboard_is_counted(None, after.crew, rider);
}

/// Orders against a tile name that tile: a siege begins without an attempt at a way yet, and fire
/// is aimed there for eighty ticks. Neither changes the vehicle.
pub proof fn orders_against_a_tile_name_it(
    tile: (i32, i32),
    desk: OrderDesk,
    before: VehicleUnit,
    after: VehicleUnit,
    stacks: (Seq<StoredStack>, Seq<StoredStack>),
    taken: (Set<u64>, Set<u64>),
    claimed: (Set<u64>, Set<u64>),
    effect: OrderEffect,
)
    requires
        desk.now + 80 <= u64::MAX,
    ensures
        order_done(
            VehicleOrderKind::SiegeWall(tile),
            desk,
            before,
            after,
            stacks,
            taken,
            claimed,
            effect,
        ) ==> after == before && (effect matches OrderEffect::Besiege(o) && o.target_tile == tile
            && o.last_route_attempt_tick == 0),
        order_done(
            VehicleOrderKind::FireAt(tile),
            desk,
            before,
            after,
            stacks,
            taken,
            claimed,
            effect,
        ) ==> after == before && (effect matches OrderEffect::FocusFire(o) && o.target_tile == tile
            && o.expires_tick == desk.now + 80),
{
}

/// A crew that is told to leave leaves nobody unaccounted for: each of them steps off onto a tile or
/// stays in their seat, and the vehicle is parked unless it lies on its side.
pub proof fn crews_step_off_or_stay(
    desk: OrderDesk,
    before: VehicleUnit,
    after: VehicleUnit,
    stacks: (Seq<StoredStack>, Seq<StoredStack>),
    taken: (Set<u64>, Set<u64>),
    claimed: (Set<u64>, Set<u64>),
    effect: OrderEffect,
    rider: Entity,
)
    requires
        order_done(
            VehicleOrderKind::DisembarkCrew,
            desk,
            before,
            after,
            stacks,
            taken,
            claimed,
            effect,
        ),
        room_around(before.vehicle.anchor_tile, 6),
    ensures
        effect is Disembarked,
        before.crew.driver == Some(rider) ==> after.crew.driver == Some(rider) || is_put_off(
            effect->Disembarked_0@,
            rider,
        ),
        before.crew.gunners@.contains(rider) ==> after.crew.gunners@.contains(rider) || is_put_off(
            effect->Disembarked_0@,
            rider,
        ),
        before.crew.passengers@.contains(rider) ==> after.crew.passengers@.contains(rider)
            || is_put_off(effect->Disembarked_0@, rider),
        before.vehicle.state == VehicleState::Overturned ==> after.vehicle == before.vehicle,
        before.vehicle.state != VehicleState::Overturned ==> after.vehicle.state
            == VehicleState::Parked,
        after.inventory == before.inventory && after.draft == before.draft,
{
    let crew = before.crew;
    let riders = stepping_off(crew);
    let spots = spots_for(before, *desk.design, *desk.terrain, desk.occupancy.at());
    let still = left_aboard(riders, spots);
    let list = effect->Disembarked_0@;
    let v = before.vehicle;
    landings_are_apart(
        *desk.terrain,
        desk.occupancy.at(),
        covered(desk.design.grid.cells@, v.anchor_tile, v.heading as int).to_set(),
        v.anchor_tile,
        v.z as int,
        riders.len() as int,
    );
    let lead: Seq<Entity> = match crew.driver {
        Some(d) => seq![d],
        None => Seq::empty(),
    };
    if crew.driver == Some(rider) {
        assert(riders[0] == rider);
        rider_is_accounted_for(riders, spots, 0);
    }
    if crew.gunners@.contains(rider) {
        let k = choose|k: int| 0 <= k < crew.gunners@.len() && crew.gunners@[k] == rider;
        assert(riders[lead.len() + k] == rider);
        rider_is_accounted_for(riders, spots, lead.len() + k);
        stayers_stay(crew.gunners@, still, k);
    }
    if crew.passengers@.contains(rider) {
        let k = choose|k: int| 0 <= k < crew.passengers@.len() && crew.passengers@[k] == rider;
        let i = lead.len() + crew.gunners@.len() + k;
        assert(riders[i] == rider);
        rider_is_accounted_for(riders, spots, i);
        stayers_stay(crew.passengers@, still, k);
    }
}

/// Somebody is among those who stepped off.
pub open spec fn is_put_off(list: Seq<(Entity, (i32, i32))>, e: Entity) -> bool {
    exists|i: int| 0 <= i < list.len() && (#[trigger] list[i]).0 == e
}

proof fn rider_is_accounted_for(
    riders: Seq<Entity>,
    spots: Seq<Option<(i32, i32)>>,
    i: int,
)
    requires
        0 <= i < riders.len(),
    ensures
        spots[i] is None ==> left_aboard(riders, spots).contains(riders[i]),
        spots[i] is Some ==> is_put_off(stepped_off(riders, spots), riders[i]),
{
    let n = riders.len() as int;
    if spots[i] is None {
        let p = |k: int| spots[k] is None;
        let mk = |k: int| riders[k];
        collect_contains(n, p, mk, riders[i]);
        assert(p(i) && mk(i) == riders[i]);
    } else {
        let p = |k: int| spots[k] is Some;
        let mk = |k: int| (riders[k], spots[k]->0);
        collect_contains(n, p, mk, mk(i));
        assert(p(i));
        let list = stepped_off(riders, spots);
        assert(list.contains(mk(i)));
        let j = choose|j: int| 0 <= j < list.len() && list[j] == mk(i);
        assert(list[j].0 == riders[i]);
    }
}

proof fn stayers_stay(list: Seq<Entity>, still: Seq<Entity>, k: int)
    requires
        0 <= k < list.len(),
    ensures
        still.contains(list[k]) ==> staying(list, still).contains(list[k]),
{
    let p = |i: int| still.contains(list[i]);
    let mk = |i: int| list[i];
    collect_contains(list.len() as int, p, mk, list[k]);
    assert(mk(k) == list[k]);
    if still.contains(list[k]) {
        assert(p(k));
    }
}

} // verus!
