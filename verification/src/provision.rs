//! How factions that nobody plays come by yards, vehicles and designs.

use vstd::prelude::*;
use vstd::string::*;
use crate::assembly::{VehicleAssemblyQueue, VehicleYard};
use crate::catalog::VehicleData;
use crate::design::{
    renumbered, validate_design, with_name, VehicleDesign, VehicleDesignRegistry,
};
use crate::geometry::{tile_distance, IVec3};
use crate::grid::{VehicleCell, VehicleGrid, VehicleModuleInstance};
use crate::occupancy::{around, the_nearest_match_is_found};
use crate::parts::{Entity, ResourceId, TechId, VehicleDesignId, VehiclePartKind};
use crate::rings::{rings, rings_between, rings_hold, room_around, Walk};
use crate::seqs::{collect, distinct, distinct_keeps_elements, find, find_is_first, find_is_none};
use crate::stats::CellFigures;
use crate::tech::{
    holds_tech, ANIMAL_HUSBANDRY, BRONZE_CASTING, OX_CART, POWERED_TRACTION, SIEGE_ENGINEERING,
    WAR_CHARIOT,
};
use crate::terrain::{TerrainWindow, TileKind};
use crate::text::joined;
use crate::tiles::{add_number, entities_at, entity_at, has_number, no_numbers, numbers_in};
use crate::validate::{grid_errors, grid_interior};

verus! {

/// Members that a faction must have before a yard pays.
pub const YARD_MIN_MEMBERS: u32 = 10;

/// A yard lies at least this far from home.
pub const YARD_MIN_DISTANCE: u32 = 8;

/// A yard lies at most this far from home.
pub const YARD_MAX_DISTANCE: u32 = 14;

/// A faction as far as its provision with vehicles goes.
#[derive(Debug)]
pub struct FactionFacts {
    pub id: u32,
    /// The faction is a part of another.
    pub has_parent: bool,
    pub member_count: u32,
    /// The faction moves its camp about.
    pub mobile: bool,
    pub techs: Vec<TechId>,
    pub home_tile: (i32, i32),
}

/// Ground on which a yard can be built.
pub open spec fn buildable(kind: TileKind) -> bool {
    kind == TileKind::Grass || kind == TileKind::Scrub || kind == TileKind::Cropland
}

/// A tile takes a yard: open ground, and nothing planned on it.
pub open spec fn takes_yard(
    terrain: TerrainWindow,
    planned: Map<(i32, i32), Entity>,
) -> spec_fn((i32, i32)) -> bool {
    |t: (i32, i32)|
        match terrain.kind(t.0 as int, t.1 as int) {
            Some(k) => buildable(k) && !planned.dom().contains(t),
            None => false,
        }
}

/// Where a faction builds its yard: the first suitable tile, ring by ring around home.
pub open spec fn yard_site(
    terrain: TerrainWindow,
    planned: Map<(i32, i32), Entity>,
    home: (i32, i32),
) -> Option<(i32, i32)> {
    find(
        around(home, rings(YARD_MIN_DISTANCE as int, YARD_MAX_DISTANCE as int, Walk::Rows)),
        takes_yard(terrain, planned),
    )
}

/// A faction gets a yard: settled, large enough, knows how to keep animals, and has none yet.
pub open spec fn wants_yard(f: FactionFacts, owners: Seq<u32>, pending: Seq<u32>) -> bool {
    &&& !f.has_parent
    &&& f.member_count >= YARD_MIN_MEMBERS
    &&& !f.mobile
    &&& f.techs@.contains(ANIMAL_HUSBANDRY)
    &&& !owners.contains(f.id)
    &&& !pending.contains(f.id)
}

/// A yard to be planned.
#[derive(Clone, Copy, Debug)]
pub struct YardPlan {
    pub faction_id: u32,
    pub tile: (i32, i32),
}

/// Who owns each yard.
pub open spec fn owners_of(yards: Seq<VehicleYard>) -> Seq<u32> {
    Seq::new(yards.len(), |i: int| yards[i].faction_id)
}

fn holds_id(list: &Vec<u32>, id: u32) -> (b: bool)
    ensures
        b == list@.contains(id),
{
    let mut i: usize = 0;
    while i < list.len()
        invariant
            i <= list.len(),
            forall|j: int| 0 <= j < i ==> list@[j] != id,
        decreases list.len() - i,
    {
        if list[i] == id {
            assert(list@[i as int] == id);
            return true;
        }
        i += 1;
    }
    false
}

/// A set holds exactly the factions of a list.
pub open spec fn holds_factions(s: ahash::AHashSet<u64>, list: Seq<u32>) -> bool {
    forall|id: u32| #[trigger] numbers_in(s).contains(id as u64) <==> list.contains(id)
}

proof fn one_more_faction(before: Set<u64>, list: Seq<u32>, id: u32)
    requires
        forall|f: u32| #[trigger] before.contains(f as u64) <==> list.contains(f),
    ensures
        forall|f: u32| #[trigger]
            before.insert(id as u64).contains(f as u64) <==> list.push(id).contains(f),
{
    assert forall|f: u32| #[trigger]
        before.insert(id as u64).contains(f as u64) <==> list.push(id).contains(f) by {
        let all = list.push(id);
        assert(before.contains(f as u64) <==> list.contains(f));
        if list.contains(f) {
            let k = choose|k: int| 0 <= k < list.len() && list[k] == f;
            assert(all[k] == f);
        }
        assert(all[list.len() as int] == id);
    }
}

/// The factions that own a yard.
fn yard_owners(yards: &Vec<VehicleYard>) -> (s: ahash::AHashSet<u64>)
    ensures
        holds_factions(s, owners_of(yards@)),
{
    let ghost owners = owners_of(yards@);
    let mut s = no_numbers();
    let mut i: usize = 0;
    while i < yards.len()
        invariant
            i <= yards.len(),
            owners == owners_of(yards@),
            holds_factions(s, owners.take(i as int)),
        decreases yards.len() - i,
    {
        let id: u32 = yards[i].faction_id;
        proof {
            one_more_faction(numbers_in(s), owners.take(i as int), id);
            assert(owners.take(i + 1) =~= owners.take(i as int).push(id));
        }
        add_number(&mut s, id as u64);
        i += 1;
    }
    assert(owners.take(i as int) =~= owners);
    s
}

/// The tile on which a faction builds its yard.
pub fn find_yard_site(
    terrain: &TerrainWindow,
    planned: &ahash::AHashMap<(i32, i32), Entity>,
    home: (i32, i32),
) -> (r: Option<(i32, i32)>)
    requires
        terrain.wf(),
        room_around(home, YARD_MAX_DISTANCE as int),
    ensures
        r == yard_site(*terrain, entities_at(*planned), home),
{
    let offsets = rings_between(YARD_MIN_DISTANCE, YARD_MAX_DISTANCE, Walk::Rows);
    let ghost p = takes_yard(*terrain, entities_at(*planned));
    let ghost all = around(home, offsets@);
    let mut i: usize = 0;
    while i < offsets.len()
        invariant
            i <= offsets.len(),
            terrain.wf(),
            room_around(home, YARD_MAX_DISTANCE as int),
            offsets@ == rings(YARD_MIN_DISTANCE as int, YARD_MAX_DISTANCE as int, Walk::Rows),
            all == around(home, offsets@),
            p == takes_yard(*terrain, entities_at(*planned)),
            forall|j: int| 0 <= j < i ==> !p(#[trigger] all[j]),
        decreases offsets.len() - i,
    {
        let o = offsets[i];
        proof {
            rings_hold(YARD_MIN_DISTANCE as int, YARD_MAX_DISTANCE as int, Walk::Rows, o);
            assert(offsets@.contains(o)) by {
                assert(offsets@[i as int] == o);
            }
        }
        let t: (i32, i32) = (home.0 + o.0, home.1 + o.1);
        assert(all[i as int] == t);
        let open: bool = match terrain.tile_kind_at(t.0, t.1) {
            Some(k) => match k {
                TileKind::Grass | TileKind::Scrub | TileKind::Cropland => true,
                _ => false,
            },
            None => false,
        };
        if open && entity_at(planned, t).is_none() {
            proof {
                find_is_first(all, p, i as int);
            }
            return Some(t);
        }
        assert(!p(all[i as int]));
        i += 1;
    }
    proof {
        find_is_none(all, p);
    }
    None
}

/// The yards that are planned today.
pub open spec fn yards_planned(
    factions: Seq<FactionFacts>,
    owners: Seq<u32>,
    pending: Seq<u32>,
    terrain: TerrainWindow,
    planned: Map<(i32, i32), Entity>,
) -> Seq<YardPlan> {
    collect(
        factions.len() as int,
        |i: int|
            wants_yard(factions[i], owners, pending) && yard_site(
                terrain,
                planned,
                factions[i].home_tile,
            ) is Some,
        |i: int|
            YardPlan {
                faction_id: factions[i].id,
                tile: yard_site(terrain, planned, factions[i].home_tile)->0,
            },
    )
}

/// Plans yards, once a day. `pending` are the factions whose yard is planned already; `planned`
/// holds every building site.
pub fn vehicle_yard_intent_emitter_system(
    tick: u64,
    ticks_per_day: u64,
    factions: &Vec<FactionFacts>,
    yards: &Vec<VehicleYard>,
    pending: &Vec<u32>,
    terrain: &TerrainWindow,
    planned: &ahash::AHashMap<(i32, i32), Entity>,
) -> (plans: Vec<YardPlan>)
    requires
        ticks_per_day > 0,
        terrain.wf(),
        forall|i: int|
            0 <= i < factions@.len() ==> room_around(
                (#[trigger] factions@[i]).home_tile,
                YARD_MAX_DISTANCE as int,
            ),
    ensures
        plans@ == (if tick % ticks_per_day == 0 {
            yards_planned(
                factions@,
                owners_of(yards@),
                pending@,
                *terrain,
                entities_at(*planned),
            )
        } else {
            Seq::empty()
        }),
{
    let mut plans: Vec<YardPlan> = Vec::new();
    if tick % ticks_per_day != 0 {
        return plans;
    }
    let have_yard = yard_owners(yards);
    let ghost at = entities_at(*planned);
    let ghost owners = owners_of(yards@);
    let ghost p = |i: int|
        wants_yard(factions@[i], owners, pending@) && yard_site(
            *terrain,
            at,
            factions@[i].home_tile,
        ) is Some;
    let ghost mk = |i: int|
        YardPlan {
            faction_id: factions@[i].id,
            tile: yard_site(*terrain, at, factions@[i].home_tile)->0,
        };
    let mut i: usize = 0;
    while i < factions.len()
        invariant
            i <= factions.len(),
            terrain.wf(),
            forall|i: int|
                0 <= i < factions@.len() ==> room_around(
                    (#[trigger] factions@[i]).home_tile,
                    YARD_MAX_DISTANCE as int,
                ),
            at == entities_at(*planned),
            owners == owners_of(yards@),
            holds_factions(have_yard, owners),
            p == (|i: int|
                wants_yard(factions@[i], owners, pending@) && yard_site(
                    *terrain,
                    at,
                    factions@[i].home_tile,
                ) is Some),
            mk == (|i: int|
                YardPlan {
                    faction_id: factions@[i].id,
                    tile: yard_site(*terrain, at, factions@[i].home_tile)->0,
                }),
            plans@ == collect(i as int, p, mk),
        decreases factions.len() - i,
    {
        let f = &factions[i];
        assert(factions@[i as int] == *f);
        let wants: bool = !f.has_parent && f.member_count >= YARD_MIN_MEMBERS && !f.mobile
            && holds_tech(&f.techs, ANIMAL_HUSBANDRY) && !has_number(
            &have_yard,
            f.id as u64,
        ) && !holds_id(pending, f.id);
        if wants {
            match find_yard_site(terrain, planned, f.home_tile) {
                Some(tile) => plans.push(YardPlan { faction_id: f.id, tile }),
                None => {},
            }
        }
        i += 1;
    }
    plans
}

/// A faction with a yard is given a vehicle: it has none, and none is ordered.
pub open spec fn wants_vehicle(
    id: u32,
    vehicle_owners: Seq<u32>,
    queue: Seq<(u32, VehicleDesignId)>,
) -> bool {
    &&& !vehicle_owners.contains(id)
    &&& forall|i: int| 0 <= i < queue.len() ==> (#[trigger] queue[i]).0 != id
}

/// The orders that are added today.
pub open spec fn handcarts_ordered(
    owners: Seq<u32>,
    vehicle_owners: Seq<u32>,
    queue: Seq<(u32, VehicleDesignId)>,
    handcart: VehicleDesignId,
) -> Seq<(u32, VehicleDesignId)> {
    let d = distinct(owners);
    collect(
        d.len() as int,
        |i: int| wants_vehicle(d[i], vehicle_owners, queue),
        |i: int| (d[i], handcart),
    )
}

/// Orders a handcart, once a day, for each faction that has a yard but no vehicle and none
/// ordered.
pub fn vehicle_ai_queue_system(
    tick: u64,
    ticks_per_day: u64,
    queue: &mut VehicleAssemblyQueue,
    registry: &VehicleDesignRegistry,
    yards: &Vec<VehicleYard>,
    vehicle_owners: &Vec<u32>,
)
    requires
        ticks_per_day > 0,
    ensures
        final(queue).entries@ == (match find(registry.designs@, with_name("Handcart"@)) {
            Some(d) => if tick % ticks_per_day == 0 {
                old(queue).entries@ + handcarts_ordered(
                    owners_of(yards@),
                    vehicle_owners@,
                    old(queue).entries@,
                    d.id,
                )
            } else {
                old(queue).entries@
            },
            None => old(queue).entries@,
        }),
{
    if tick % ticks_per_day != 0 {
        return;
    }
    let handcart: VehicleDesignId = match registry.by_name("Handcart") {
        Some(d) => d.id,
        None => {
            return;
        },
    };
    let ghost owners = owners_of(yards@);
    let mut yard_factions = no_numbers();
    let mut ids: Vec<u32> = Vec::new();
    let mut i: usize = 0;
    assert(owners.take(0) =~= Seq::empty());
    while i < yards.len()
        invariant
            i <= yards.len(),
            owners == owners_of(yards@),
            ids@ == distinct(owners.take(i as int)),
            holds_factions(yard_factions, ids@),
        decreases yards.len() - i,
    {
        let id: u32 = yards[i].faction_id;
        proof {
            let next = owners.take(i + 1);
            assert(next.drop_last() =~= owners.take(i as int));
            assert(next.last() == id);
        }
        if !has_number(&yard_factions, id as u64) {
            proof {
                one_more_faction(numbers_in(yard_factions), ids@, id);
            }
            add_number(&mut yard_factions, id as u64);
            ids.push(id);
        }
        i += 1;
    }
    assert(owners.take(i as int) =~= owners);
    let ghost start = queue.entries@;
    let ghost d = distinct(owners);
    let ghost p = |i: int| wants_vehicle(d[i], vehicle_owners@, start);
    let ghost mk = |i: int| (d[i], handcart);
    let queued: usize = queue.entries.len();
    i = 0;
    assert(start + collect(0, p, mk) =~= start);
    while i < ids.len()
        invariant
            i <= ids.len(),
            ids@ == d,
            queued == start.len(),
            p == (|i: int| wants_vehicle(d[i], vehicle_owners@, start)),
            mk == (|i: int| (d[i], handcart)),
            queue.entries@ == start + collect(i as int, p, mk),
        decreases ids.len() - i,
    {
        let id: u32 = ids[i];
        let mut ordered: bool = false;
        let mut k: usize = 0;
        while k < queued
            invariant
                k <= queued,
                queued == start.len(),
                queue.entries@.len() >= queued,
                forall|j: int| 0 <= j < start.len() ==> queue.entries@[j] == #[trigger] start[j],
                ordered == exists|j: int| 0 <= j < k && (#[trigger] start[j]).0 == id,
            decreases queued - k,
        {
            assert(queue.entries@[k as int] == start[k as int]);
            if queue.entries[k].0 == id {
                ordered = true;
            }
            k += 1;
        }
        let ghost before = queue.entries@;
        if !ordered && !holds_id(vehicle_owners, id) {
            queue.entries.push((id, handcart));
        }
        i += 1;
        assert(queue.entries@ =~= start + collect(i as int, p, mk));
    }
}

/// No faction gets two handcarts ordered, and none that has a vehicle or an order.
pub proof fn handcarts_go_where_they_lack(
    owners: Seq<u32>,
    vehicle_owners: Seq<u32>,
    queue: Seq<(u32, VehicleDesignId)>,
    handcart: VehicleDesignId,
    order: (u32, VehicleDesignId),
)
    ensures
        handcarts_ordered(owners, vehicle_owners, queue, handcart).contains(order) <==> order.1
            == handcart && owners.contains(order.0) && wants_vehicle(
            order.0,
            vehicle_owners,
            queue,
        ),
{
    let d = distinct(owners);
    let p = |i: int| wants_vehicle(d[i], vehicle_owners, queue);
    let mk = |i: int| (d[i], handcart);
    distinct_keeps_elements(owners);
    crate::seqs::collect_contains(d.len() as int, p, mk, order);
    if order.1 == handcart && owners.contains(order.0) && wants_vehicle(
        order.0,
        vehicle_owners,
        queue,
    ) {
        assert(d.contains(order.0));
        let i = choose|i: int| 0 <= i < d.len() && d[i] == order.0;
        assert(mk(i) == order && p(i));
    }
    if handcarts_ordered(owners, vehicle_owners, queue, handcart).contains(order) {
        let i = choose|i: int| 0 <= i < d.len() && p(i) && #[trigger] mk(i) == order;
        assert(d.contains(d[i]));
    }
}

/// The stock design that a faction improves on, by what it has researched.
pub open spec fn proposal_base(techs: Seq<TechId>) -> Seq<char> {
    if techs.contains(POWERED_TRACTION) {
        "Tank"@
    } else if techs.contains(SIEGE_ENGINEERING) {
        "Battering Ram"@
    } else if techs.contains(WAR_CHARIOT) {
        "War Chariot"@
    } else if techs.contains(OX_CART) {
        "Four-Wheel Wagon"@
    } else {
        "Ox Cart"@
    }
}

/// The name of the stock design that a faction improves on.
pub fn proposal_base_name(techs: &Vec<TechId>) -> (name: String)
    ensures
        name@ == proposal_base(techs@),
{
    if holds_tech(techs, POWERED_TRACTION) {
        "Tank".to_owned()
    } else if holds_tech(techs, SIEGE_ENGINEERING) {
        "Battering Ram".to_owned()
    } else if holds_tech(techs, WAR_CHARIOT) {
        "War Chariot".to_owned()
    } else if holds_tech(techs, OX_CART) {
        "Four-Wheel Wagon".to_owned()
    } else {
        "Ox Cart".to_owned()
    }
}

/// A faction made one of the designs.
pub open spec fn has_authored(designs: Seq<VehicleDesign>, id: u32) -> bool {
    exists|i: int| 0 <= i < designs.len() && (#[trigger] designs[i]).author_faction == Some(id)
}

/// A faction proposes a design: its own master, without a design so far, and able to cast bronze.
pub open spec fn proposes(f: FactionFacts, designs: Seq<VehicleDesign>) -> bool {
    &&& !f.has_parent
    &&& !has_authored(designs, f.id)
    &&& f.techs@.contains(ANIMAL_HUSBANDRY)
    &&& f.techs@.contains(BRONZE_CASTING)
}

/// A design to be drawn up: the faction, and the index of the design it improves on.
#[derive(Clone, Copy, Debug, PartialEq, Eq, Structural)]
pub struct ProposalTask {
    pub faction_id: u32,
    pub base: VehicleDesignId,
}

/// The designs that are drawn up this week.
pub open spec fn proposals_due(
    factions: Seq<FactionFacts>,
    registry: VehicleDesignRegistry,
) -> Seq<ProposalTask> {
    collect(
        factions.len() as int,
        |i: int|
            proposes(factions[i], registry.designs@) && find(
                registry.designs@,
                with_name(proposal_base(factions[i].techs@)),
            ) is Some,
        |i: int|
            ProposalTask {
                faction_id: factions[i].id,
                base: find(
                    registry.designs@,
                    with_name(proposal_base(factions[i].techs@)),
                )->0.id,
            },
    )
}

/// Who draws up a design this week, and on which stock design it builds.
pub fn vehicle_ai_design_proposal_system(
    tick: u64,
    ticks_per_day: u64,
    factions: &Vec<FactionFacts>,
    registry: &VehicleDesignRegistry,
) -> (tasks: Vec<ProposalTask>)
    requires
        0 < ticks_per_day <= u64::MAX / 7,
    ensures
        tasks@ == (if tick as int % (7 * ticks_per_day) == 0 {
            proposals_due(factions@, *registry)
        } else {
            Seq::empty()
        }),
{
    let mut tasks: Vec<ProposalTask> = Vec::new();
    if tick % (7 * ticks_per_day) != 0 {
        return tasks;
    }
    let authored = authors(registry);
    let ghost designs = registry.designs@;
    let ghost p = |i: int|
        proposes(factions@[i], designs) && find(
            designs,
            with_name(proposal_base(factions@[i].techs@)),
        ) is Some;
    let ghost mk = |i: int|
        ProposalTask {
            faction_id: factions@[i].id,
            base: find(designs, with_name(proposal_base(factions@[i].techs@)))->0.id,
        };
    let mut i: usize = 0;
    while i < factions.len()
        invariant
            i <= factions.len(),
            designs == registry.designs@,
            forall|id: u32| #[trigger]
                numbers_in(authored).contains(id as u64) <==> has_authored(designs, id),
            p == (|i: int|
                proposes(factions@[i], designs) && find(
                    designs,
                    with_name(proposal_base(factions@[i].techs@)),
                ) is Some),
            mk == (|i: int|
                ProposalTask {
                    faction_id: factions@[i].id,
                    base: find(designs, with_name(proposal_base(factions@[i].techs@)))->0.id,
                }),
            tasks@ == collect(i as int, p, mk),
        decreases factions.len() - i,
    {
        let f = &factions[i];
        if !f.has_parent && !has_number(&authored, f.id as u64) && holds_tech(
            &f.techs,
            ANIMAL_HUSBANDRY,
        ) && holds_tech(&f.techs, BRONZE_CASTING) {
            let name = proposal_base_name(&f.techs);
            match registry.by_name(name.as_str()) {
                Some(d) => tasks.push(ProposalTask { faction_id: f.id, base: d.id }),
                None => {},
            }
        }
        i += 1;
    }
    tasks
}

/// The factions that made one of the designs.
fn authors(registry: &VehicleDesignRegistry) -> (s: ahash::AHashSet<u64>)
    ensures
        forall|id: u32| #[trigger]
            numbers_in(s).contains(id as u64) <==> has_authored(registry.designs@, id),
{
    let ghost designs = registry.designs@;
    let mut s = no_numbers();
    let mut i: usize = 0;
    while i < registry.designs.len()
        invariant
            i <= registry.designs.len(),
            designs == registry.designs@,
            forall|id: u32| #[trigger]
                numbers_in(s).contains(id as u64) <==> has_authored(designs.take(i as int), id),
        decreases registry.designs.len() - i,
    {
        let ghost was = numbers_in(s);
        let ghost before = designs.take(i as int);
        let author: Option<u32> = registry.designs[i].author_faction;
        if let Some(f) = author {
            add_number(&mut s, f as u64);
        }
        i += 1;
        proof {
            let after = designs.take(i as int);
            assert forall|id: u32| #[trigger]
                numbers_in(s).contains(id as u64) <==> has_authored(after, id) by {
                assert(was.contains(id as u64) <==> has_authored(before, id));
                if has_authored(before, id) {
                    let k = choose|k: int|
                        0 <= k < before.len() && (#[trigger] before[k]).author_faction == Some(id);
                    assert(after[k] == before[k]);
                }
                if has_authored(after, id) {
                    let k = choose|k: int|
                        0 <= k < after.len() && (#[trigger] after[k]).author_faction == Some(id);
                    if k < before.len() {
                        assert(before[k] == after[k]);
                    }
                }
                assert(after[before.len() as int].author_faction == author);
            }
        }
    }
    assert(designs.take(i as int) =~= designs);
    s
}

/// A cell with metal in it, if it is running gear.
pub open spec fn reinforced_cell(c: VehicleCell, metal: ResourceId, durability: u16) -> VehicleCell {
    if c.kind == VehiclePartKind::Wheel || c.kind == VehiclePartKind::Axle {
        VehicleCell { material: metal, durability, ..c }
    } else {
        c
    }
}

/// The cells of a body with metal wheels and axles.
pub open spec fn reinforced_cells(
    cells: Seq<(IVec3, VehicleCell)>,
    metal: ResourceId,
    durability: Seq<u16>,
) -> Seq<(IVec3, VehicleCell)> {
    Seq::new(
        cells.len(),
        |i: int| (cells[i].0, reinforced_cell(cells[i].1, metal, durability[i])),
    )
}

/// Two modules are alike.
pub open spec fn same_module(a: VehicleModuleInstance, b: VehicleModuleInstance) -> bool {
    a.id == b.id && a.def == b.def && a.cells@ == b.cells@ && a.facing == b.facing
}

/// A design with metal wheels and axles, made by a faction. `durability` gives for each cell what
/// it would stand as a metal one.
pub fn reinforced_design(
    base: &VehicleDesign,
    faction_id: u32,
    metal: ResourceId,
    durability: &Vec<u16>,
) -> (d: VehicleDesign)
    requires
        durability@.len() == base.grid.cells@.len(),
    ensures
        d.id == VehicleDesignId(0),
        d.name@ == "Reinforced "@ + base.name@,
        d.grid.cells@ == reinforced_cells(base.grid.cells@, metal, durability@),
        d.grid.modules@.len() == base.grid.modules@.len(),
        forall|i: int|
            0 <= i < base.grid.modules@.len() ==> same_module(
                #[trigger] d.grid.modules@[i],
                base.grid.modules@[i],
            ),
        d.allowed_purpose == base.allowed_purpose,
        d.required_animals == base.required_animals,
        d.tech_gates@ == base.tech_gates@,
        d.author_faction == Some(faction_id),
        !d.from_user_file,
        d.revision == 0,
{
    let mut cells: Vec<(IVec3, VehicleCell)> = Vec::new();
    let ghost all = reinforced_cells(base.grid.cells@, metal, durability@);
    let mut i: usize = 0;
    while i < base.grid.cells.len()
        invariant
            i <= base.grid.cells.len(),
            durability@.len() == base.grid.cells@.len(),
            all == reinforced_cells(base.grid.cells@, metal, durability@),
            cells@ == all.take(i as int),
        decreases base.grid.cells.len() - i,
    {
        let (pos, c) = base.grid.cells[i];
        let gear: bool = match c.kind {
            VehiclePartKind::Wheel | VehiclePartKind::Axle => true,
            _ => false,
        };
        if gear {
            cells.push(
                (
                    pos,
                    VehicleCell {
                        kind: c.kind,
                        material: metal,
                        durability: durability[i],
                        variant: c.variant,
                        module_id: c.module_id,
                    },
                ),
            );
        } else {
            cells.push((pos, c));
        }
        i += 1;
        assert(cells@ =~= all.take(i as int));
    }
    assert(all.take(i as int) =~= all);
    let mut modules: Vec<VehicleModuleInstance> = Vec::new();
    i = 0;
    while i < base.grid.modules.len()
        invariant
            i <= base.grid.modules.len(),
            modules@.len() == i,
            forall|k: int|
                0 <= k < i ==> same_module(#[trigger] modules@[k], base.grid.modules@[k]),
        decreases base.grid.modules.len() - i,
    {
        let m = &base.grid.modules[i];
        let mut places: Vec<IVec3> = Vec::new();
        let mut k: usize = 0;
        while k < m.cells.len()
            invariant
                k <= m.cells.len(),
                places@ == m.cells@.take(k as int),
            decreases m.cells.len() - k,
        {
            places.push(m.cells[k]);
            k += 1;
            assert(places@ =~= m.cells@.take(k as int));
        }
        assert(m.cells@.take(k as int) =~= m.cells@);
        modules.push(
            VehicleModuleInstance { id: m.id, def: m.def, cells: places, facing: m.facing },
        );
        i += 1;
    }
    let mut gates: Vec<TechId> = Vec::new();
    i = 0;
    while i < base.tech_gates.len()
        invariant
            i <= base.tech_gates.len(),
            gates@ == base.tech_gates@.take(i as int),
        decreases base.tech_gates.len() - i,
    {
        gates.push(base.tech_gates[i]);
        i += 1;
        assert(gates@ =~= base.tech_gates@.take(i as int));
    }
    assert(base.tech_gates@.take(i as int) =~= base.tech_gates@);
    VehicleDesign {
        id: VehicleDesignId(0),
        name: joined("Reinforced ", base.name.as_str()),
        grid: VehicleGrid { cells, modules },
        allowed_purpose: base.allowed_purpose,
        required_animals: base.required_animals,
        tech_gates: gates,
        author_faction: Some(faction_id),
        from_user_file: false,
        revision: 0,
    }
}

/// Takes a proposed design into the registry if it is sound. `figures` are those of its cells.
pub fn adopt_proposal(
    registry: &mut VehicleDesignRegistry,
    proposal: VehicleDesign,
    data: &VehicleData,
    figures: &Vec<CellFigures>,
    engine_too_weak: bool,
) -> (id: Option<VehicleDesignId>)
    requires
        old(registry).next_id < u32::MAX,
        grid_interior(proposal.grid),
        figures@.len() <= u32::MAX,
    ensures
        ({
            let faults = grid_errors(
                proposal.grid,
                proposal.allowed_purpose,
                proposal.required_animals,
                *data,
                figures@,
                engine_too_weak,
            );
            match id {
                Some(id) => {
                    &&& faults.len() == 0
                    &&& id.0 == old(registry).next_id
                    &&& final(registry).next_id == old(registry).next_id + 1
                    &&& final(registry).designs@ == old(registry).designs@.push(
                        renumbered(proposal, id),
                    )
                },
                None => faults.len() > 0 && *final(registry) == *old(registry),
            }
        }),
        old(registry).wf() ==> final(registry).wf(),
{
    match validate_design(&proposal, data, figures, engine_too_weak) {
        Ok(_) => Some(registry.insert(proposal)),
        Err(_) => None,
    }
}

/// A faction proposes at most once: after its design is in the registry it has none due.
pub proof fn one_proposal_each(registry: VehicleDesignRegistry, f: FactionFacts, d: VehicleDesign)
    requires
        d.author_faction == Some(f.id),
    ensures
        !proposes(f, registry.designs@.push(d)),
{
    assert(registry.designs@.push(d)[registry.designs@.len() as int].author_faction == Some(f.id));
}

/// A faction builds its first yard when it stands alone, has ten members at least, stays in one
/// place and keeps animals, and has neither a yard nor one in hand.
pub proof fn settled_herders_build_yards(f: FactionFacts, owners: Seq<u32>, pending: Seq<u32>)
    ensures
        wants_yard(f, owners, pending) <==> {
            &&& f.member_count >= 10
            &&& !f.has_parent
            &&& !f.mobile
            &&& exists|i: int| 0 <= i < f.techs@.len() && f.techs@[i] == ANIMAL_HUSBANDRY
            &&& forall|i: int| 0 <= i < owners.len() ==> owners[i] != f.id
            &&& forall|i: int| 0 <= i < pending.len() ==> pending[i] != f.id
        },
{
    if wants_yard(f, owners, pending) {
        assert forall|i: int| 0 <= i < owners.len() implies owners[i] != f.id by {
            assert(owners.contains(owners[i]));
        }
        assert forall|i: int| 0 <= i < pending.len() implies pending[i] != f.id by {
            assert(pending.contains(pending[i]));
        }
    }
}

/// A yard is planned on grass, scrub or cropland, eight to fourteen tiles from home, where nothing
/// is planned yet, on the nearest such tile; and not at all if there is none.
pub proof fn yards_lie_near_home(
    terrain: TerrainWindow,
    planned: Map<(i32, i32), Entity>,
    home: (i32, i32),
    other: (i32, i32),
)
    requires
        room_around(home, 14),
    ensures
        ({
            let good = |t: (i32, i32)|
                (terrain.kind(t.0 as int, t.1 as int) == Some(TileKind::Grass) || terrain.kind(
                    t.0 as int,
                    t.1 as int,
                ) == Some(TileKind::Scrub) || terrain.kind(t.0 as int, t.1 as int) == Some(
                    TileKind::Cropland,
                )) && !planned.dom().contains(t);
            match yard_site(terrain, planned, home) {
                Some(t) => good(t) && 8 <= tile_distance(t, home) <= 14 && (good(other) && 8
                    <= tile_distance(other, home) ==> tile_distance(t, home) <= tile_distance(
                    other,
                    home,
                )),
                None => good(other) ==> tile_distance(other, home) < 8 || tile_distance(
                    other,
                    home,
                ) > 14,
            }
        }),
{
    the_nearest_match_is_found(home, 8, 14, Walk::Rows, takes_yard(terrain, planned), other);
}

/// A faction is given a cart when it owns no vehicle and has none on order.
pub proof fn carts_go_to_those_without(
    id: u32,
    vehicle_owners: Seq<u32>,
    queue: Seq<(u32, VehicleDesignId)>,
)
    ensures
        wants_vehicle(id, vehicle_owners, queue) <==> (forall|i: int|
            0 <= i < vehicle_owners.len() ==> vehicle_owners[i] != id) && (forall|i: int|
            0 <= i < queue.len() ==> (#[trigger] queue[i]).0 != id),
{
    if wants_vehicle(id, vehicle_owners, queue) {
        assert forall|i: int| 0 <= i < vehicle_owners.len() implies vehicle_owners[i] != id by {
            assert(vehicle_owners.contains(vehicle_owners[i]));
        }
    }
}

/// A faction improves on the best that it knows how to build: a tank before a ram, a ram before a
/// chariot, a chariot before a wagon, and an ox cart when it knows none of these.
pub proof fn the_best_known_is_improved(techs: Seq<TechId>)
    ensures
        techs.contains(POWERED_TRACTION) ==> proposal_base(techs) == "Tank"@,
        !techs.contains(POWERED_TRACTION) && techs.contains(SIEGE_ENGINEERING) ==> proposal_base(
            techs,
        ) == "Battering Ram"@,
        !techs.contains(POWERED_TRACTION) && !techs.contains(SIEGE_ENGINEERING) && techs.contains(
            WAR_CHARIOT,
        ) ==> proposal_base(techs) == "War Chariot"@,
        !techs.contains(POWERED_TRACTION) && !techs.contains(SIEGE_ENGINEERING) && !techs.contains(
            WAR_CHARIOT,
        ) ==> proposal_base(techs) == (if techs.contains(OX_CART) {
            "Four-Wheel Wagon"@
        } else {
            "Ox Cart"@
        }),
{
}

/// A faction proposes a design when it stands alone, keeps animals and casts bronze, and has
/// authored none so far.
pub proof fn bronze_casters_propose(f: FactionFacts, designs: Seq<VehicleDesign>, k: int)
    ensures
        proposes(f, designs) ==> !f.has_parent && f.techs@.contains(ANIMAL_HUSBANDRY)
            && f.techs@.contains(BRONZE_CASTING),
        proposes(f, designs) && 0 <= k < designs.len() ==> designs[k].author_faction != Some(f.id),
        !f.has_parent && f.techs@.contains(ANIMAL_HUSBANDRY) && f.techs@.contains(BRONZE_CASTING)
            && (forall|i: int|
            0 <= i < designs.len() ==> (#[trigger] designs[i]).author_faction != Some(f.id))
            ==> proposes(f, designs),
{
}

/// Reinforcing gives wheels and axles the new metal and its durability; every other cell, and every
/// place, kind and module, stays.
pub proof fn only_running_gear_is_reinforced(
    cells: Seq<(IVec3, VehicleCell)>,
    metal: ResourceId,
    durability: Seq<u16>,
    i: int,
)
    requires
        0 <= i < cells.len(),
    ensures
        ({
            let a = cells[i];
            let b = reinforced_cells(cells, metal, durability)[i];
            let gear = a.1.kind == VehiclePartKind::Wheel || a.1.kind == VehiclePartKind::Axle;
            &&& reinforced_cells(cells, metal, durability).len() == cells.len()
            &&& b.0 == a.0 && b.1.kind == a.1.kind && b.1.module_id == a.1.module_id
            &&& gear ==> b.1.material == metal && b.1.durability == durability[i]
            &&& !gear ==> b == a
        }),
{
}

/// Every faction that wants a yard and has a place for one gets a plan there, and no other does.
pub proof fn yards_are_planned_for_those_who_want_them(
    factions: Seq<FactionFacts>,
    owners: Seq<u32>,
    pending: Seq<u32>,
    terrain: TerrainWindow,
    planned: Map<(i32, i32), Entity>,
    plan: YardPlan,
)
    ensures
        yards_planned(factions, owners, pending, terrain, planned).contains(plan) <==> exists|
            i: int,
        |
            0 <= i < factions.len() && wants_yard(#[trigger] factions[i], owners, pending)
                && plan.faction_id == factions[i].id && yard_site(
                terrain,
                planned,
                factions[i].home_tile,
            ) == Some(plan.tile),
{
    let n = factions.len() as int;
    let p = |i: int|
        wants_yard(factions[i], owners, pending) && yard_site(
            terrain,
            planned,
            factions[i].home_tile,
        ) is Some;
    let mk = |i: int|
        YardPlan {
            faction_id: factions[i].id,
            tile: yard_site(terrain, planned, factions[i].home_tile)->0,
        };
    crate::seqs::collect_contains(n, p, mk, plan);
    if yards_planned(factions, owners, pending, terrain, planned).contains(plan) {
        let i = choose|i: int| 0 <= i < n && p(i) && #[trigger] mk(i) == plan;
        assert(wants_yard(factions[i], owners, pending));
    }
    if exists|i: int|
        0 <= i < factions.len() && wants_yard(#[trigger] factions[i], owners, pending)
            && plan.faction_id == factions[i].id && yard_site(
            terrain,
            planned,
            factions[i].home_tile,
        ) == Some(plan.tile) {
        let i = choose|i: int|
            0 <= i < factions.len() && wants_yard(#[trigger] factions[i], owners, pending)
                && plan.faction_id == factions[i].id && yard_site(
                terrain,
                planned,
                factions[i].home_tile,
            ) == Some(plan.tile);
        assert(p(i) && mk(i) == plan);
    }
}

/// A faction's proposal improves on the registered design that it would build, by its own name; a
/// faction that proposes none has none, and so has one whose base is not registered.
pub proof fn proposals_improve_registered_designs(
    factions: Seq<FactionFacts>,
    registry: VehicleDesignRegistry,
    task: ProposalTask,
)
    ensures
        proposals_due(factions, registry).contains(task) <==> exists|i: int|
            0 <= i < factions.len() && proposes(#[trigger] factions[i], registry.designs@)
                && task.faction_id == factions[i].id && (find(
                registry.designs@,
                with_name(proposal_base(factions[i].techs@)),
            ) matches Some(d) && d.id == task.base),
{
    let n = factions.len() as int;
    let p = |i: int|
        proposes(factions[i], registry.designs@) && find(
            registry.designs@,
            with_name(proposal_base(factions[i].techs@)),
        ) is Some;
    let mk = |i: int|
        ProposalTask {
            faction_id: factions[i].id,
            base: find(
                registry.designs@,
                with_name(proposal_base(factions[i].techs@)),
            )->0.id,
        };
    crate::seqs::collect_contains(n, p, mk, task);
    if proposals_due(factions, registry).contains(task) {
        let i = choose|i: int| 0 <= i < n && p(i) && #[trigger] mk(i) == task;
        assert(proposes(factions[i], registry.designs@));
    }
    if exists|i: int|
        0 <= i < factions.len() && proposes(#[trigger] factions[i], registry.designs@)
            && task.faction_id == factions[i].id && (find(
            registry.designs@,
            with_name(proposal_base(factions[i].techs@)),
        ) matches Some(d) && d.id == task.base) {
        let i = choose|i: int|
            0 <= i < factions.len() && proposes(#[trigger] factions[i], registry.designs@)
                && task.faction_id == factions[i].id && (find(
                registry.designs@,
                with_name(proposal_base(factions[i].techs@)),
            ) matches Some(d) && d.id == task.base);
        assert(p(i) && mk(i) == task);
    }
}

} // verus!
