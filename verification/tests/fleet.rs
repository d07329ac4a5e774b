use civgame::assembly::{
    consume_faction_storage, design_bill, faction_knows, faction_storage_stock, first_yard,
    sweep_stacks,
    vehicle_assembly_system, FactionTechs, Shelf, StoredStack, VehicleAssemblyQueue,
    VehicleYard, VehicleYardMap,
};
use civgame::catalog::{MaterialProfile, PartDef, PartVariantDef, VehicleData, VehicleModuleDef};
use civgame::combat::{
    can_reach, expose_one, melee_damage, resolve_hit, spill, vehicle_combat_system, Attack, Attacker, Target,
};
use civgame::design::{VehicleDesign, VehicleDesignRegistry};
use civgame::drive::{
    find_debug_spawn_site, first_route, spawn_ghost_draft_for, cleanup_debug_ghost_draft_system, plan_manual_step,
    route_goals, ManualDriveState, ManualIntent,
};
use civgame::footprint::{footprint_reaches, footprint_tiles};
use civgame::freight::{
    capacity_units_bounded, cargo_weight_g, draft_claim_expiry, htn_vehicle_haul_dispatch_system,
    pick_idle_draft_animal, unit_weight_g, DomesticSpecies, DraftAnimal, FreightVehicle, Good,
    HaulPosting, HaulWorker,
};
use civgame::geometry::{IVec2, IVec3};
use civgame::grid::{VehicleCell, VehicleGrid, VehicleModuleInstance};
use civgame::haul::{
    blueprint_remaining_need, board_vehicle, deliver_cargo, delivery_ending, deposit_load,
    haul_ending, haul_step, job_is_done, load_cargo, load_ending, nearest_tile, repark_vehicle,
    BuildDeposit, Delivery, HaulMove, HaulView, LoadOutcome,
};
use civgame::health::{apply_vehicle_cell_damage, hit_cell_for_roll, VehicleHealth};
use civgame::inventory::VehicleInventory;
use civgame::manual_drive::{manual_drive_input_system, DriveEffect, DriveKeys, DriveView};
use civgame::motion::{
    overturn, reach_pose, recover_haul, route_step, throw_landing, RouteStep,
    VEHICLE_RECOVERY_CADENCE,
};
use civgame::occupancy::{
    disembark_all, is_cell_open, vehicle_occupancy_sync_system, VehicleOccupancyIndex,
};
use civgame::orders::{
    apply_order, assign_crew, by_distance, salvage_refund, top_up, IdleMember, OrderDesk,
    OrderEffect, VehicleOrderKind, VehicleUnit,
};
use civgame::parts::{
    Entity, FiringArc, ResourceId, VehicleDesignId, VehicleDisableFlags, VehicleModuleDefId,
    VehicleModuleId, VehiclePartKind, VehiclePartVariantId, VehiclePurpose, VehicleState, CARGO, MOVEMENT, STEERING,
};
use civgame::provision::{
    adopt_proposal, find_yard_site, proposal_base_name, reinforced_design,
    vehicle_ai_design_proposal_system, vehicle_ai_queue_system, vehicle_yard_intent_emitter_system,
    FactionFacts,
};
use civgame::siege::{
    design_siege_damage, find_passable_adjacent_to_wall, siege_step, SiegeAction, SiegeOrder,
    SiegeView,
};
use civgame::stats::{derive_stats, plain_body_figures, to_single};
use civgame::tech::{tech_name_from_id, ANIMAL_HUSBANDRY, BRONZE_CASTING, OX_CART, SIEGE_ENGINEERING};
use civgame::terrain::{is_road_like, TerrainWindow, TileInfo, TileKind};
use civgame::turret::{
    acquire_weapon_target, fire_filter, vehicle_fire, Aim, Candidate, TargetingFilter,
    VehicleFireOrder, FIRE_ORDER_RADIUS, TURRET_FIRE_COOLDOWN_TICKS,
};
use civgame::validate::{validate_grid, DesignError};
use civgame::vehicle::{
    available_weapon_operators, design_has_any_ranged_weapon, eject_all_crew, riders_of, spawn_vehicle_at,
    vehicle_gunner_demand, vehicle_operator_capacity, Vehicle, VehicleCrew, VehicleDraft,
    VehicleNode, VehiclePathFollow,
};

const WOOD: ResourceId = ResourceId(1);
const STONE: ResourceId = ResourceId(2);
const IRON: ResourceId = ResourceId(3);
const TOOLS: ResourceId = ResourceId(6);

fn part(kind: VehiclePartKind, base_mass_g: u32) -> PartDef {
    PartDef {
        kind,
        base_mass_g,
        cargo_volume_g: 0,
        cargo_volume_ml: 0,
        crew_capacity: 0,
        tech_gates: Vec::new(),
        engine_power_g: 0,
        traction_pct: 0,
        mounted_weapon_range: 0,
        mounted_weapon_damage: 0,
    }
}

fn ram_def() -> VehicleModuleDef {
    VehicleModuleDef {
        id: VehicleModuleDefId(0),
        label: "ram".to_string(),
        description: String::new(),
        part_kind: VehiclePartKind::WeaponMount,
        footprint: vec![IVec3::new(0, 0, 0)],
        allowed_rotations: vec![0],
        muzzle_offset: IVec2::new(0, 1),
        crew_required: 1,
        gunner_required: 1,
        firing_arc: FiringArc::NoArc,
        range: 0,
        damage: 0,
        siege_damage: 30,
        cooldown_ticks: 60,
        required_support: 0,
        tech_gates: vec![SIEGE_ENGINEERING],
        extra_bill: vec![(IRON, 4)],
    }
}

fn data() -> VehicleData {
    let mut bay = part(VehiclePartKind::CargoBay, 1_500);
    bay.cargo_volume_g = 60_000;
    bay.cargo_volume_ml = 80_000;
    let mut seat = part(VehiclePartKind::CrewSeat, 1_000);
    seat.crew_capacity = 2;
    let mut turret = part(VehiclePartKind::Turret, 2_000);
    turret.mounted_weapon_range = 8;
    turret.mounted_weapon_damage = 12;
    let profile = |resource: ResourceId, density_pct: u32, strength: u16| MaterialProfile {
        resource,
        density_pct,
        strength,
        friction: 30,
        traction: 40,
        durability: 80,
    };
    VehicleData {
        materials: vec![profile(WOOD, 60, 40), profile(STONE, 250, 30), profile(IRON, 780, 95)],
        parts: vec![
            part(VehiclePartKind::Frame, 2_000),
            part(VehiclePartKind::Wheel, 4_000),
            part(VehiclePartKind::Axle, 3_000),
            part(VehiclePartKind::Hitch, 1_000),
            part(VehiclePartKind::WeaponMount, 1_000),
            bay,
            seat,
            turret,
        ],
        variants: Vec::new(),
        modules: vec![ram_def()],
        wood: WOOD,
    }
}

fn grid_of(cells: &[(i32, i32, i32, VehiclePartKind)]) -> VehicleGrid {
    VehicleGrid {
        cells: cells
            .iter()
            .map(|&(x, y, z, k)| (IVec3::new(x, y, z), VehicleCell::plain(k, WOOD, 50)))
            .collect(),
        modules: Vec::new(),
    }
}

fn design_of(name: &str, purpose: VehiclePurpose, grid: VehicleGrid) -> VehicleDesign {
    VehicleDesign {
        id: VehicleDesignId(0),
        name: name.to_string(),
        grid,
        allowed_purpose: purpose,
        required_animals: 0,
        tech_gates: Vec::new(),
        author_faction: None,
        from_user_file: false,
        revision: 0,
    }
}

fn handcart() -> VehicleDesign {
    design_of(
        "Handcart",
        VehiclePurpose::Cargo,
        grid_of(&[
            (0, 0, 0, VehiclePartKind::Wheel),
            (1, 0, 0, VehiclePartKind::Wheel),
            (0, 1, 0, VehiclePartKind::Axle),
            (1, 1, 0, VehiclePartKind::Axle),
            (0, 2, 0, VehiclePartKind::Frame),
            (1, 2, 0, VehiclePartKind::CargoBay),
            (0, 3, 0, VehiclePartKind::Hitch),
        ]),
    )
}

fn ram() -> VehicleDesign {
    let mut grid = grid_of(&[
        (0, 0, 0, VehiclePartKind::CrewSeat),
        (0, 1, 0, VehiclePartKind::WeaponMount),
    ]);
    grid.cells[1].1.module_id = Some(VehicleModuleId(0));
    grid.modules.push(VehicleModuleInstance {
        id: VehicleModuleId(0),
        def: VehicleModuleDefId(0),
        cells: vec![IVec3::new(0, 1, 0)],
        facing: 0,
    });
    design_of("Battering Ram", VehiclePurpose::War, grid)
}

fn ground(blocked: &[(i32, i32)]) -> TerrainWindow {
    let side: usize = 61;
    let mut tiles = Vec::new();
    for i in 0..side * side {
        let here = ((i % side) as i32 - 30, (i / side) as i32 - 30);
        let shut = blocked.contains(&here);
        tiles.push(TileInfo {
            kind: if shut { TileKind::Wall } else { TileKind::Grass },
            surface_z: 0,
            walkable: !shut,
            clearance: if shut { 0 } else { 8 },
            open: if shut { Vec::new() } else { vec![0, 1, 2, 3, 4] },
        });
    }
    TerrainWindow { min: (-30, -30), width: side, height: side, tiles, z_min: -16, z_max: 15 }
}

fn vehicle_at(tile: (i32, i32)) -> Vehicle {
    Vehicle {
        owner_faction: 1,
        design_id: VehicleDesignId(0),
        purpose: VehiclePurpose::Cargo,
        heading: 0,
        state: VehicleState::Parked,
        anchor_tile: tile,
        z: 0,
        hauler: None,
    }
}

fn stack(entity: u64, faction_id: u32, resource: ResourceId, qty: u32) -> StoredStack {
    StoredStack { entity: Entity(entity), faction_id, x: 0, y: 0, resource, qty }
}

fn goods() -> Vec<Good> {
    vec![
        Good { resource: WOOD, weight_g: 5_000, volume_ml: 8_000 },
        Good { resource: STONE, weight_g: 10_000, volume_ml: 4_000 },
    ]
}

fn crew(driver: Option<u64>, passengers: &[u64], gunners: &[u64]) -> VehicleCrew {
    VehicleCrew {
        driver: driver.map(Entity),
        passengers: passengers.iter().map(|e| Entity(*e)).collect(),
        gunners: gunners.iter().map(|e| Entity(*e)).collect(),
    }
}

#[test]
fn handcart_figures() {
    let d = handcart();
    let data = data();
    let s = derive_stats(&d.grid, &data, &plain_body_figures(&d.grid, &data));
    // Grams: wheels 2400 each, axles 1800 each, frame 1200, bay 900, hitch 600.
    assert_eq!(s.empty_mass_g, 11_100);
    // Wheels 16000, axles 80000, frame 12000.
    assert_eq!(s.support_g, 2 * 16_000 + 2 * 80_000 + 12_000);
    assert_eq!(s.max_payload_g, 60_000);
    assert_eq!(s.max_cargo_volume_ml, 80_000);
    assert_eq!(s.loaded_mass_g, 71_100);
    assert_eq!(s.track_width, 2);
    assert_eq!(s.wheelbase, 4);
    assert_eq!(s.footprint_area, 7);
    assert_eq!(s.wheel_count, 2);
    assert!(!s.is_engine_driven);
    let empty = VehicleGrid { cells: Vec::new(), modules: Vec::new() };
    assert_eq!(derive_stats(&empty, &data, &Vec::new()).empty_mass_g, 0);
}

#[test]
fn large_numbers_lose_their_low_bits() {
    assert_eq!(to_single(16_777_215), 16_777_215);
    assert_eq!(to_single(16_777_217), 16_777_216);
    assert_eq!(to_single(16_777_219), 16_777_220);
    assert_eq!(to_single(123_456_789), 123_456_789.0_f32 as u64);
}

#[test]
fn each_fault_is_reported() {
    let data = data();
    let check = |g: &VehicleGrid, purpose: VehiclePurpose, animals: u8| {
        validate_grid(g, purpose, animals, &data, &plain_body_figures(g, &data), false)
            .err()
            .unwrap_or_default()
    };
    let empty = VehicleGrid { cells: Vec::new(), modules: Vec::new() };
    assert_eq!(check(&empty, VehiclePurpose::Cargo, 0), vec![DesignError::Empty]);
    let wide = grid_of(&[
        (9, 0, 0, VehiclePartKind::Frame),
        (10, 0, 0, VehiclePartKind::Hitch),
    ]);
    assert!(check(&wide, VehiclePurpose::Cargo, 0)
        .contains(&DesignError::OutOfBounds(IVec3::new(10, 0, 0))));
    let d = ram();
    assert!(check(&d.grid, VehiclePurpose::War, 0).iter().all(|e| *e == DesignError::OverloadedAxle));
    let mut off = ram().grid;
    off.modules[0].cells = vec![IVec3::new(5, 5, 0)];
    assert!(check(&off, VehiclePurpose::War, 0)
        .contains(&DesignError::ModuleOutOfBounds(VehicleModuleId(0))));
    let mut foreign = ram().grid;
    foreign.cells[1].1.module_id = Some(VehicleModuleId(9));
    assert!(check(&foreign, VehiclePurpose::War, 0)
        .contains(&DesignError::ModuleOverlap(VehicleModuleId(0))));
    let mut behind = ram().grid;
    behind.cells.push((
        IVec3::new(0, 2, 0),
        VehicleCell::plain(VehiclePartKind::Frame, WOOD, 50),
    ));
    let mut front = data_with_front_arc();
    let r = validate_grid(
        &behind,
        VehiclePurpose::War,
        0,
        &front,
        &plain_body_figures(&behind, &front),
        false,
    );
    assert!(r.unwrap_err().contains(&DesignError::BadModuleFacing(VehicleModuleId(0))));
    front.modules[0].firing_arc = FiringArc::Full360;
    front.modules[0].required_support = 1;
    let mut high = ram().grid;
    high.cells[1].0 = IVec3::new(0, 1, 1);
    high.modules[0].cells = vec![IVec3::new(0, 1, 1)];
    let r = validate_grid(
        &high,
        VehiclePurpose::War,
        0,
        &front,
        &plain_body_figures(&high, &front),
        false,
    );
    assert!(r.unwrap_err().contains(&DesignError::UnsupportedModule(VehicleModuleId(0))));
}

fn data_with_front_arc() -> VehicleData {
    let mut d = data();
    d.modules[0].firing_arc = FiringArc::Front90;
    d
}

#[test]
fn sound_bodies_pass_every_rule() {
    let data = data();
    let g = handcart().grid;
    assert!(validate_grid(&g, VehiclePurpose::Cargo, 1, &data, &plain_body_figures(&g, &data), false)
        .is_ok());
}

#[test]
fn modules_can_be_taken_out() {
    let mut g = ram().grid;
    assert_eq!(g.next_module_id(), VehicleModuleId(1));
    assert!(g.module_at(IVec3::new(0, 1, 0)).is_some());
    g.remove_module(VehicleModuleId(0));
    assert!(g.modules.is_empty());
    assert!(g.module_at(IVec3::new(0, 1, 0)).is_none());
    assert!(g.cells.iter().all(|(_, c)| c.module_id.is_none()));
    assert_eq!(g.next_module_id(), VehicleModuleId(0));
}

#[test]
fn headings_cover_as_many_tiles() {
    let d = handcart();
    for h in 0..4 {
        let tiles = footprint_tiles(&d, (5, 5), h);
        assert_eq!(tiles.len(), 7);
        assert_eq!(tiles.iter().map(|t| t.0).min(), Some(5));
        assert_eq!(tiles.iter().map(|t| t.1).min(), Some(5));
    }
    assert!(footprint_reaches(&d, (5, 5), 0, (4, 4)));
    assert!(!footprint_reaches(&d, (5, 5), 0, (3, 5)));
}

#[test]
fn bills_list_extra_parts() {
    let bill = design_bill(&ram(), &data(), TOOLS);
    assert_eq!(bill.iter().map(|(_, q)| q).sum::<u32>(), 2 + 1 + 4);
    assert!(bill.contains(&(IRON, 4)));
    assert!(bill.contains(&(TOOLS, 1)));
}

#[test]
fn storage_is_drawn_down_in_order() {
    let mut stacks = vec![
        stack(1, 1, WOOD, 3),
        stack(2, 2, WOOD, 50),
        stack(3, 1, STONE, 9),
        stack(4, 1, WOOD, 5),
    ];
    assert_eq!(faction_storage_stock(&stacks, 1, WOOD), 8);
    assert_eq!(consume_faction_storage(&mut stacks, 1, WOOD, 6), 6);
    assert_eq!(faction_storage_stock(&stacks, 1, WOOD), 2);
    assert_eq!(faction_storage_stock(&stacks, 2, WOOD), 50);
    assert_eq!(consume_faction_storage(&mut stacks, 1, WOOD, 6), 2);
    assert_eq!(faction_storage_stock(&stacks, 1, WOOD), 0);
    assert_eq!(faction_storage_stock(&stacks, 1, STONE), 9);
}

#[test]
fn yards_build_what_they_can_pay() {
    let mut registry = VehicleDesignRegistry::new();
    let id = registry.insert(handcart());
    let yards = vec![VehicleYard { faction_id: 1, tile: (4, 4) }];
    let factions = vec![FactionTechs { faction_id: 1, techs: Vec::new() }];
    assert!(faction_knows(&factions, 1, &Vec::new()));
    assert!(!faction_knows(&factions, 1, &vec![OX_CART]));
    assert_eq!(first_yard(&yards, 1).unwrap().tile, (4, 4));
    assert!(first_yard(&yards, 2).is_none());
    let data = data();
    let mut queue = VehicleAssemblyQueue { entries: vec![(1, id), (1, id), (2, id)] };
    let mut stacks = vec![stack(1, 1, WOOD, 10), stack(2, 1, TOOLS, 4), stack(3, 2, WOOD, 70)];
    let built =
        vehicle_assembly_system(1, &mut queue, &registry, &data, TOOLS, &factions, &yards, &mut stacks);
    assert!(built.is_empty(), "only every sixtieth tick");
    let built =
        vehicle_assembly_system(120, &mut queue, &registry, &data, TOOLS, &factions, &yards, &mut stacks);
    assert_eq!(built.len(), 1);
    assert_eq!(built[0].tile, (4, 4));
    assert_eq!(built[0].design_id, id);
    assert_eq!(queue.entries, vec![(1, id)], "unpaid orders wait, orders of nobody are dropped");
    assert_eq!(faction_storage_stock(&stacks, 1, WOOD), 3);
    assert_eq!(faction_storage_stock(&stacks, 1, TOOLS), 0);
    assert_eq!(faction_storage_stock(&stacks, 2, WOOD), 70);
}

#[test]
fn yards_are_indexed_by_tile() {
    let mut map = VehicleYardMap::new();
    let yard = VehicleYard { faction_id: 1, tile: (4, 4) };
    map.on_vehicle_yard_add(Entity(8), yard);
    assert_eq!(map.get((4, 4)), Some(Entity(8)));
    map.on_vehicle_yard_remove(Entity(9), yard);
    assert_eq!(map.get((4, 4)), Some(Entity(8)));
    map.on_vehicle_yard_remove(Entity(8), yard);
    assert_eq!(map.get((4, 4)), None);
}

#[test]
fn loads_are_bounded_by_weight_and_volume() {
    assert_eq!(unit_weight_g(&goods(), STONE), 10_000);
    assert_eq!(capacity_units_bounded(60_000, 80_000, &goods(), WOOD), 10);
    assert_eq!(capacity_units_bounded(60_000, 80_000, &goods(), STONE), 6);
    let mut inv = VehicleInventory::new();
    inv.add(WOOD, 2);
    inv.add(STONE, 3);
    assert_eq!(cargo_weight_g(&inv, &goods()), 40_000);
}

#[test]
fn teams_are_picked_among_trained_animals() {
    let animal = |e: u64, f: u32, species: DomesticSpecies, training: u8| DraftAnimal {
        entity: Entity(e),
        owner_faction: f,
        species,
        training,
    };
    let animals = vec![
        animal(1, 2, DomesticSpecies::Cattle, 200),
        animal(2, 1, DomesticSpecies::Other, 200),
        animal(3, 1, DomesticSpecies::Horse, 10),
        animal(4, 1, DomesticSpecies::Horse, 60),
        animal(5, 1, DomesticSpecies::Cattle, 60),
    ];
    let mut taken: ahash::AHashSet<u64> = ahash::AHashSet::new();
    let first = pick_idle_draft_animal(&animals, 1, 50, &taken).unwrap();
    assert!(first == Entity(4) || first == Entity(5));
    taken.insert(first.0);
    let second = pick_idle_draft_animal(&animals, 1, 50, &taken).unwrap();
    assert_ne!(first, second);
    taken.insert(second.0);
    assert_eq!(pick_idle_draft_animal(&animals, 1, 50, &taken), None);
    assert_eq!(draft_claim_expiry(10, 100), 210);
}

#[test]
fn haulers_are_sent_once() {
    let cart = |e: u64, x: i32| FreightVehicle {
        entity: Entity(e),
        owner_faction: 1,
        anchor_x: x,
        anchor_y: 0,
        state: VehicleState::Parked,
        hauler: None,
        cargo_capable: true,
        required_animals: 0,
    };
    let worker = |e: u64| HaulWorker {
        entity: Entity(e),
        faction_id: 1,
        active: true,
        claims_haul: true,
        wants_haul: true,
        idle: true,
        posting: Some(HaulPosting {
            blueprint: Entity(77),
            resource_id: WOOD,
            delivered: 0,
            target: 30,
        }),
    };
    let mut vehicles = vec![cart(10, 3), cart(11, 4)];
    let mut small = worker(3);
    small.posting = Some(HaulPosting {
        blueprint: Entity(77),
        resource_id: WOOD,
        delivered: 20,
        target: 30,
    });
    let workers = vec![small, worker(1), worker(2), worker(4)];
    let orders = htn_vehicle_haul_dispatch_system(&mut vehicles, &workers, &Vec::new(), 50);
    assert_eq!(orders.sent.len(), 2, "two carts, and a need below twelve sends nobody");
    assert_eq!(orders.sent[0].worker, Entity(1));
    assert_eq!(orders.sent[1].worker, Entity(2));
    assert_ne!(orders.sent[0].vehicle, orders.sent[1].vehicle);
    assert!(orders.hitches.is_empty());
    assert_eq!(vehicles[0].hauler.is_some(), true);
    assert_eq!(vehicles[1].hauler.is_some(), true);
}

fn haul_view() -> HaulView {
    HaulView {
        due: true,
        task_known: true,
        claims_haul: true,
        boarded: true,
        at_vehicle: true,
        under_way: false,
        loaded: false,
        deliver_at: Some((20, 20)),
    }
}

#[test]
fn hauls_go_step_by_step() {
    let d = handcart();
    let v = vehicle_at((0, 0));
    let storage = vec![(10, 10), (-5, 0)];
    let step = |view: &HaulView| haul_step(view, Some(&d), Some(&v), &storage);
    let mut view = haul_view();
    view.task_known = false;
    assert!(matches!(step(&view), HaulMove::Cancel));
    view.due = false;
    assert!(matches!(step(&view), HaulMove::Wait), "a sleeping worker does nothing");
    assert!(matches!(haul_step(&haul_view(), None, None, &storage), HaulMove::Lost));
    let mut view = haul_view();
    view.claims_haul = false;
    assert!(matches!(step(&view), HaulMove::Revoked));
    let mut view = haul_view();
    view.boarded = false;
    assert!(matches!(step(&view), HaulMove::Board));
    view.at_vehicle = false;
    assert!(matches!(step(&view), HaulMove::Wait));
    let mut view = haul_view();
    view.under_way = true;
    assert!(matches!(step(&view), HaulMove::Wait));
    assert!(matches!(step(&haul_view()), HaulMove::DriveTo((-5, 0))));
    let near = vec![(2, 0)];
    assert!(matches!(haul_step(&haul_view(), Some(&d), Some(&v), &near), HaulMove::LoadAt((2, 0))));
    assert!(matches!(haul_step(&haul_view(), Some(&d), Some(&v), &Vec::new()), HaulMove::Abort));
    let mut view = haul_view();
    view.loaded = true;
    assert!(matches!(step(&view), HaulMove::DriveTo((20, 20))));
    view.deliver_at = Some((0, 4));
    assert!(matches!(step(&view), HaulMove::Deposit));
    view.deliver_at = None;
    assert!(matches!(step(&view), HaulMove::SpillAndAbort));
    assert_eq!(haul_ending(HaulMove::Wait, true), None);
    let end = haul_ending(HaulMove::Abort, true).unwrap();
    assert!(!end.finished && end.repark && end.unboard && end.drop_claim);
    let end = haul_ending(HaulMove::Cancel, true).unwrap();
    assert!(!end.finished && !end.repark && !end.unboard && !end.drop_claim);
    assert_eq!(nearest_tile((0, 0), &storage), Some((-5, 0)));
}

#[test]
fn people_are_asked_by_distance() {
    let idle = |e: u64, faction_id: u32, tile: (i32, i32)| IdleMember {
        entity: Entity(e),
        faction_id,
        tile,
    };
    let members = vec![
        idle(1, 1, (10, 0)),
        idle(2, 2, (3, -4)),
        idle(3, 1, (4, 4)),
        idle(4, 1, (0, 1)),
    ];
    assert_eq!(
        by_distance(&members, (0, 0)),
        vec![(Entity(4), 1), (Entity(2), 2), (Entity(3), 1), (Entity(1), 1)],
        "equals keep their order"
    );
    assert!(by_distance(&Vec::new(), (0, 0)).is_empty());
}

#[test]
fn empty_stacks_are_swept() {
    let mut stacks = vec![stack(1, 1, WOOD, 3), stack(2, 1, WOOD, 4), stack(3, 1, STONE, 2)];
    assert_eq!(consume_faction_storage(&mut stacks, 1, WOOD, 5), 5);
    assert_eq!(sweep_stacks(&mut stacks), vec![Entity(1)]);
    assert_eq!(stacks.len(), 2);
    assert_eq!(faction_storage_stock(&stacks, 1, WOOD), 2);
    assert_eq!(faction_storage_stock(&stacks, 1, STONE), 2);
    assert!(sweep_stacks(&mut stacks).is_empty());
}

#[test]
fn jobs_are_done_when_all_is_delivered() {
    let posting = HaulPosting {
        blueprint: Entity(3),
        resource_id: WOOD,
        delivered: 4,
        target: 10,
    };
    assert!(!job_is_done(Some(posting), 5));
    assert!(job_is_done(Some(posting), 6));
    assert!(job_is_done(None, 0), "the posting is gone");
}

#[test]
fn module_numbers_go_past_the_greatest() {
    let numbered = |ids: &[u16]| VehicleGrid {
        cells: Vec::new(),
        modules: ids
            .iter()
            .map(|&n| VehicleModuleInstance {
                id: VehicleModuleId(n),
                def: VehicleModuleDefId(0),
                cells: Vec::new(),
                facing: 0,
            })
            .collect(),
    };
    assert_eq!(numbered(&[4, 2]).next_module_id(), VehicleModuleId(5));
    assert_eq!(numbered(&[0, u16::MAX, 1]).next_module_id(), VehicleModuleId(2));
}

#[test]
fn bills_count_every_resource() {
    let d = handcart();
    let bill = design_bill(&d, &data(), TOOLS);
    let of = |rid: ResourceId| bill.iter().filter(|(r, _)| *r == rid).map(|(_, q)| *q).sum::<u32>();
    let cells = d.grid.cells.iter();
    assert_eq!(of(WOOD) as usize, cells.filter(|(_, c)| c.material == WOOD).count());
    let mut seen: Vec<ResourceId> = bill.iter().map(|(r, _)| *r).collect();
    seen.dedup();
    assert_eq!(seen.len(), bill.len());
    assert!(bill.iter().all(|(_, q)| *q > 0));
}

#[test]
fn loads_and_deliveries_keep_the_goods() {
    let mut v = vehicle_at((0, 0));
    let mut inv = VehicleInventory::new();
    let mut stacks = vec![stack(1, 1, STONE, 20)];
    let mut deposits = vec![
        BuildDeposit { resource_id: STONE, needed: 5, deposited: 2 },
        BuildDeposit { resource_id: WOOD, needed: 9, deposited: 0 },
        BuildDeposit { resource_id: STONE, needed: 2, deposited: 0 },
    ];
    assert_eq!(blueprint_remaining_need(&deposits, STONE), 5);
    let r = load_cargo(&mut v, &mut inv, &mut stacks, (0, 0), STONE, 0, 60_000, 80_000, &goods());
    assert_eq!(r, LoadOutcome::NothingNeeded);
    let r = load_cargo(&mut v, &mut inv, &mut stacks, (0, 0), WOOD, 5, 60_000, 80_000, &goods());
    assert_eq!(r, LoadOutcome::NothingStored);
    let r = load_cargo(&mut v, &mut inv, &mut stacks, (1, 0), STONE, 8, 60_000, 80_000, &goods());
    assert_eq!(r, LoadOutcome::NothingStored, "the stack lies on another tile");
    assert_eq!(load_ending(r), haul_ending(HaulMove::Abort, true));
    let r = load_cargo(&mut v, &mut inv, &mut stacks, (0, 0), STONE, 8, 60_000, 80_000, &goods());
    assert_eq!(load_ending(r), None);
    assert_eq!(r, LoadOutcome::Loaded(6));
    assert_eq!(faction_storage_stock(&stacks, 1, STONE), 14);
    assert_eq!(v.state, VehicleState::Moving);
    let r = deliver_cargo(&mut inv, &mut deposits, STONE);
    assert_eq!(r, Delivery { deposited: 5, residual: 1 });
    assert_eq!(inv.qty_of(STONE), 0);
    assert_eq!(blueprint_remaining_need(&deposits, STONE), 0);
    v.state = VehicleState::Parked;
    let end = delivery_ending(&mut v, true).unwrap();
    assert!(end.finished && end.set_down, "the worker steps off where the vehicle stands");
    let end = load_ending(LoadOutcome::NothingNeeded).unwrap();
    assert!(end.finished && !end.set_down);
    assert_eq!(v.state, VehicleState::Parked);
    assert_eq!(delivery_ending(&mut v, false), None);
    assert_eq!(v.state, VehicleState::Moving);
    assert_eq!(blueprint_remaining_need(&deposits, WOOD), 9);
    assert_eq!(deposit_load(&mut deposits, WOOD, 4), 4);
    assert_eq!(deposits[1].deposited, 4);
}

#[test]
fn boarding_and_parking() {
    let mut v = vehicle_at((0, 0));
    board_vehicle(&mut v, Entity(3));
    assert_eq!(v.hauler, Some(Entity(3)));
    let mut draft = VehicleDraft { hitched: vec![Entity(8)], required_animals: 1 };
    assert_eq!(repark_vehicle(&mut v, &mut draft), vec![Entity(8)]);
    assert_eq!(v.hauler, None);
    assert_eq!(v.state, VehicleState::Parked);
    assert!(draft.hitched.is_empty());
}

#[test]
fn routes_are_followed_to_the_end() {
    let map = ground(&[]);
    let mut v = vehicle_at((0, 0));
    v.state = VehicleState::Moving;
    let node = |x: i32, y: i32, heading: u8| VehicleNode { x, y, z: 0, heading };
    let mut follow = VehiclePathFollow {
        path: vec![node(0, 0, 0), node(0, 1, 0), node(0, 1, 1)],
        cursor: 1,
    };
    assert_eq!(route_step(&v, &follow, false, false), RouteStep::DropRoute);
    assert_eq!(route_step(&v, &follow, false, true), RouteStep::Head(node(0, 1, 0)));
    let jolt = reach_pose(&mut v, &mut follow, &map, 10, 5);
    assert!(!jolt.turned && jolt.overloaded && !jolt.rough_terrain);
    assert_eq!(jolt.z_slope, 0);
    assert_eq!(v.anchor_tile, (0, 1));
    let jolt = reach_pose(&mut v, &mut follow, &map, 5, 5);
    assert!(jolt.turned && !jolt.overloaded);
    assert_eq!(v.heading, 1);
    assert_eq!(route_step(&v, &follow, false, true), RouteStep::Arrived);
}

#[test]
fn overturned_vehicles_lose_everything() {
    let map = ground(&[]);
    let mut v = vehicle_at((0, 0));
    v.hauler = Some(Entity(5));
    let mut inv = VehicleInventory::new();
    inv.add(WOOD, 7);
    let mut draft = VehicleDraft { hitched: vec![Entity(8)], required_animals: 1 };
    let mut people = crew(Some(1), &[2], &[3]);
    let r = overturn(&mut v, &mut inv, &mut draft, &mut people, 2, &map).unwrap();
    assert_eq!(r.spilled, vec![(WOOD, 7)]);
    assert_eq!(r.released, vec![Entity(8)]);
    assert_eq!(r.riders.len(), 3);
    assert_eq!(r.fall_damage, 16);
    assert_eq!(r.hurt, vec![Entity(5), Entity(1), Entity(2), Entity(3)]);
    let (who, tile) = r.thrown.unwrap();
    assert_eq!(who, Entity(5));
    assert_eq!(tile, throw_landing(&map, (0, 0)));
    assert_eq!(v.state, VehicleState::Overturned);
    assert!(inv.is_empty());
    assert!(overturn(&mut v, &mut inv, &mut draft, &mut people, 2, &map).is_none());
}

#[test]
fn lost_haulers_free_the_cart() {
    let mut v = vehicle_at((0, 0));
    v.hauler = Some(Entity(5));
    let mut draft = VehicleDraft { hitched: vec![Entity(8)], required_animals: 1 };
    assert!(recover_haul(1, &mut v, &mut draft, false).is_none());
    assert!(recover_haul(VEHICLE_RECOVERY_CADENCE, &mut v, &mut draft, true).is_none());
    let free = recover_haul(VEHICLE_RECOVERY_CADENCE, &mut v, &mut draft, false).unwrap();
    assert_eq!(free, vec![Entity(8)]);
    assert_eq!(v.hauler, None);
}

#[test]
fn occupied_tiles_name_their_vehicle() {
    let mut registry = VehicleDesignRegistry::new();
    let id = registry.insert(handcart());
    let mut v = vehicle_at((3, 3));
    v.design_id = id;
    let mut index = VehicleOccupancyIndex::new();
    index.register((100, 100), Entity(1));
    vehicle_occupancy_sync_system(&mut index, &registry, &vec![(Entity(9), v)]);
    assert_eq!(index.occupant((100, 100)), None, "the index starts over");
    assert_eq!(index.occupant((3, 3)), Some(Entity(9)));
    assert_eq!(index.occupant((3, 6)), Some(Entity(9)));
    let map = ground(&[(0, 0)]);
    assert!(!is_cell_open(&map, &index, None, (3, 3), 0, 1));
    assert!(is_cell_open(&map, &index, Some(Entity(9)), (3, 3), 0, 1));
    assert!(!is_cell_open(&map, &index, None, (0, 0), 0, 1));
}

#[test]
fn riders_land_apart() {
    let map = ground(&[]);
    let index = VehicleOccupancyIndex::new();
    let d = handcart();
    let v = vehicle_at((0, 0));
    let spots = disembark_all(&d, &v, 4, &map, &index);
    assert_eq!(spots.len(), 4);
    let body = footprint_tiles(&d, (0, 0), 0);
    for (i, s) in spots.iter().enumerate() {
        let tile = s.unwrap();
        assert!(!body.contains(&tile));
        assert!(!spots[..i].contains(s));
    }
}

#[test]
fn steps_by_hand() {
    let d = handcart();
    let v = vehicle_at((0, 0));
    let map = ground(&[]);
    let index = VehicleOccupancyIndex::new();
    let go = |intent: ManualIntent| {
        let p = plan_manual_step(&v, &d, intent, &map, &index, Entity(1)).unwrap();
        (p[1].x, p[1].y, p[1].heading)
    };
    assert_eq!(go(ManualIntent::Forward), (0, 1, 0));
    assert_eq!(go(ManualIntent::TurnCCW), (0, 0, 1));
    assert_eq!(go(ManualIntent::TurnCW), (0, 0, 3));
    assert_eq!(go(ManualIntent::ForwardLeft), (-1, 1, 0));
    assert_eq!(go(ManualIntent::ForwardRight), (1, 1, 0));
}

#[test]
fn keys_drive_the_vehicle() {
    let d = handcart();
    let v = vehicle_at((0, 0));
    let map = ground(&[]);
    let index = VehicleOccupancyIndex::new();
    let view = DriveView {
        vehicle: Some(&v),
        following: false,
        design: Some(&d),
        terrain: &map,
        occupancy: &index,
    };
    let quiet = DriveKeys {
        release: false,
        stop: false,
        forward: false,
        turn_left: false,
        turn_right: false,
        forward_left: false,
        forward_right: false,
    };
    let mut state = ManualDriveState::default();
    assert!(matches!(manual_drive_input_system(&mut state, &view, quiet, false), DriveEffect::Nothing));
    state.active = Some(Entity(4));
    let mut keys = quiet;
    keys.forward = true;
    match manual_drive_input_system(&mut state, &view, keys, false) {
        DriveEffect::Follow(e, path) => {
            assert_eq!(e, Entity(4));
            assert_eq!((path[1].x, path[1].y), (0, 1));
        }
        other => panic!("expected a route, got {other:?}"),
    }
    let mut keys = quiet;
    keys.stop = true;
    assert!(matches!(manual_drive_input_system(&mut state, &view, keys, false), DriveEffect::Nothing));
    let moving = DriveView {
        vehicle: Some(&v),
        following: true,
        design: Some(&d),
        terrain: &map,
        occupancy: &index,
    };
    assert!(matches!(
        manual_drive_input_system(&mut state, &moving, keys, false),
        DriveEffect::Stop(Entity(4))
    ));
    assert_eq!(state.last_status.as_deref(), Some("Manual drive: stopped"));
    let mut keys = quiet;
    keys.release = true;
    assert!(matches!(
        manual_drive_input_system(&mut state, &view, keys, false),
        DriveEffect::Release(Entity(4))
    ));
    assert!(state.active.is_none());
}

#[test]
fn routes_try_the_target_and_its_surroundings() {
    let goals = route_goals((5, 5));
    assert_eq!(goals[0], (5, 5));
    assert!(goals.iter().all(|g| (g.0 - 5).abs() <= 2 && (g.1 - 5).abs() <= 2));
    let node = VehicleNode { x: 1, y: 2, z: 0, heading: 0 };
    let found = vec![None, Some(vec![node, node]), Some(vec![node])];
    let follow = first_route(&found).unwrap();
    assert_eq!(follow.path.len(), 2);
    assert_eq!(follow.cursor, 1);
    assert!(first_route(&vec![None]).is_none());
}

#[test]
fn spawn_sites_prefer_own_yards() {
    let d = handcart();
    let map = ground(&[]);
    let index = VehicleOccupancyIndex::new();
    let yards = vec![
        VehicleYard { faction_id: 2, tile: (9, 9) },
        VehicleYard { faction_id: 1, tile: (-9, -9) },
    ];
    let (tile, _, _) = find_debug_spawn_site(&d, 1, (0, 0), &map, &index, &yards, (5, 5)).unwrap();
    assert!((tile.0 + 9).abs() <= 8 && (tile.1 + 9).abs() <= 8);
    let (tile, _, _) =
        find_debug_spawn_site(&d, 1, (0, 0), &map, &index, &Vec::new(), (5, 5)).unwrap();
    assert!(tile.0.abs() <= 6 && tile.1.abs() <= 6);
}

#[test]
fn ghosts_stand_by_their_vehicle() {
    let team = spawn_ghost_draft_for((3, 3), 2, 70);
    assert_eq!(team.len(), 2);
    assert!(team.iter().all(|g| g.training >= 70));
    let ghosts = vec![(Entity(1), Entity(10)), (Entity(2), Entity(11))];
    assert_eq!(cleanup_debug_ghost_draft_system(&ghosts, &vec![Entity(10)]), vec![Entity(2)]);
}

#[test]
fn people_are_seated_in_turn() {
    let mut people = crew(None, &[], &[]);
    let members = vec![
        (Entity(1), 2),
        (Entity(2), 1),
        (Entity(3), 1),
        (Entity(4), 1),
        (Entity(5), 1),
    ];
    let mut claimed: ahash::AHashSet<u64> = [3].into_iter().collect();
    let aboard = assign_crew(&mut people, &members, 1, 3, 1, &mut claimed);
    assert_eq!(aboard, vec![Entity(2), Entity(4), Entity(5)]);
    assert_eq!(people.driver, Some(Entity(2)));
    assert_eq!(people.gunners, vec![Entity(4)]);
    assert_eq!(people.passengers, vec![Entity(5)]);
    assert_eq!(claimed.len(), 4);
}

#[test]
fn loading_fills_the_room() {
    let mut inv = VehicleInventory::new();
    let mut stacks = vec![stack(1, 1, STONE, 4), stack(2, 1, WOOD, 9)];
    stacks.push(StoredStack {
        entity: Entity(3),
        faction_id: 1,
        x: 5,
        y: 0,
        resource: WOOD,
        qty: 9,
    });
    top_up(&mut inv, &mut stacks, Shelf::Tile(0, 0), 60_000, &goods());
    assert_eq!(stacks[2].qty, 9, "only one tile is emptied");
    assert_eq!(inv.qty_of(STONE), 4);
    assert_eq!(inv.qty_of(WOOD), 4);
    assert_eq!(stacks.iter().find(|s| s.resource == WOOD).map(|s| s.qty), Some(5));
}

#[test]
fn refunds_are_half() {
    assert_eq!(salvage_refund(&vec![(WOOD, 7), (TOOLS, 1), (IRON, 4)]), vec![(WOOD, 3), (IRON, 2)]);
}

#[test]
fn orders_are_carried_out() {
    let mut d = handcart();
    d.required_animals = 1;
    let data = data();
    let map = ground(&[]);
    let index = VehicleOccupancyIndex::new();
    let animals = vec![DraftAnimal {
        entity: Entity(30),
        owner_faction: 1,
        species: DomesticSpecies::Cattle,
        training: 90,
    }];
    let idle = |e: u64, faction_id: u32, tile: (i32, i32)| IdleMember {
        entity: Entity(e),
        faction_id,
        tile,
    };
    let members = vec![
        idle(41, 1, (9, 9)),
        idle(42, 2, (0, 0)),
        idle(43, 1, (-3, 2)),
        idle(44, 1, (3, 0)),
    ];
    let g = goods();
    let storage = vec![(9, 9), (2, 0)];
    let desk = OrderDesk {
        design: &d,
        data: &data,
        tools: TOOLS,
        goods: &g,
        payload_g: 60_000,
        storage: &storage,
        piloted: false,
        now: 100,
        terrain: &map,
        occupancy: &index,
        animals: &animals,
        draft_training: 50,
        members: &members,
    };
    let fresh = || {
        let mut inventory = VehicleInventory::new();
        inventory.add(WOOD, 3);
        VehicleUnit {
            vehicle: vehicle_at((0, 0)),
            inventory,
            crew: crew(Some(1), &[2], &[]),
            draft: VehicleDraft { hitched: Vec::new(), required_animals: 1 },
        }
    };
    let on = |x: i32, y: i32, qty: u32| StoredStack {
        entity: Entity(1),
        faction_id: 1,
        x,
        y,
        resource: STONE,
        qty,
    };
    let mut stacks: Vec<StoredStack> = vec![on(9, 9, 4), on(2, 0, 3)];
    let mut taken: ahash::AHashSet<u64> = ahash::AHashSet::new();
    let mut claimed: ahash::AHashSet<u64> = ahash::AHashSet::new();
    let mut run = |unit: &mut VehicleUnit, kind: VehicleOrderKind| {
        apply_order(kind, &desk, unit, &mut stacks, &mut taken, &mut claimed)
    };
    let mut unit = fresh();
    assert!(matches!(
        run(&mut unit, VehicleOrderKind::MoveTo((7, 7))),
        OrderEffect::PlanRoute((7, 7))
    ));
    assert!(matches!(run(&mut unit, VehicleOrderKind::Load), OrderEffect::Nothing));
    assert_eq!(unit.inventory.qty_of(STONE), 3, "the nearest storage tile is emptied");
    match run(&mut unit, VehicleOrderKind::Unload) {
        OrderEffect::Dropped(list) => assert_eq!(list, vec![(WOOD, 3), (STONE, 3)]),
        other => panic!("expected goods, got {other:?}"),
    }
    assert!(unit.inventory.is_empty());
    match run(&mut unit, VehicleOrderKind::Hitch) {
        OrderEffect::Hitched(list) => assert_eq!(list, vec![Entity(30)]),
        other => panic!("expected a team, got {other:?}"),
    }
    match run(&mut unit, VehicleOrderKind::Unhitch) {
        OrderEffect::Unhitched(list) => assert_eq!(list, vec![Entity(30)]),
        other => panic!("expected a team, got {other:?}"),
    }
    match run(&mut unit, VehicleOrderKind::FireAt((4, 4))) {
        OrderEffect::FocusFire(order) => {
            assert_eq!(order.target_tile, (4, 4));
            assert_eq!(order.expires_tick, 180);
        }
        other => panic!("expected an order, got {other:?}"),
    }
    match run(&mut unit, VehicleOrderKind::DisembarkCrew) {
        OrderEffect::Disembarked(list) => assert_eq!(list.len(), 2),
        other => panic!("expected riders, got {other:?}"),
    }
    let mut unit = fresh();
    unit.crew = crew(None, &[], &[]);
    match run(&mut unit, VehicleOrderKind::AssignCrew) {
        OrderEffect::Boarded(list) => assert_eq!(list[0], Entity(43), "the nearest drives"),
        other => panic!("expected people aboard, got {other:?}"),
    }
    assert_eq!(unit.crew.driver, Some(Entity(43)));
    let mut unit = fresh();
    unit.vehicle.state = VehicleState::Overturned;
    assert!(matches!(run(&mut unit, VehicleOrderKind::Right), OrderEffect::Righted));
    assert_eq!(unit.vehicle.state, VehicleState::Parked);
    let mut unit = fresh();
    match run(&mut unit, VehicleOrderKind::Deconstruct) {
        OrderEffect::Salvaged(refund, cargo, _, riders) => {
            assert!(refund.contains(&(WOOD, 3)) && refund.contains(&(TOOLS, 2)));
            assert_eq!(cargo, vec![(WOOD, 3)]);
            assert_eq!(riders.len(), 2);
        }
        other => panic!("expected salvage, got {other:?}"),
    }
}

#[test]
fn melee_counts_weapon_and_strength() {
    assert_eq!(melee_damage(None, None), 2);
    assert_eq!(melee_damage(Some(5), Some(3)), 10);
    assert_eq!(melee_damage(Some(5), Some(-3)), 7);
    assert!(can_reach(&handcart(), &vehicle_at((0, 0)), (-1, 0)));
    assert!(!can_reach(&handcart(), &vehicle_at((0, 0)), (-2, 0)));
}

fn target_at(id: u64, d: &VehicleDesign, tile: (i32, i32)) -> Target {
    let s = spawn_vehicle_at(1, d, tile, 0, 0);
    Target {
        entity: Entity(id),
        vehicle: s.vehicle,
        health: s.health,
        inventory: s.inventory,
        draft: s.draft,
        crew: s.crew,
        wrecked: false,
    }
}

fn attacker_at(tile: (i32, i32), target: Option<u64>) -> Attacker {
    Attacker {
        target: target.map(Entity),
        dormant: false,
        ready: true,
        tile,
        weapon_bonus: Some(255),
        strength_modifier: Some(3),
    }
}

#[test]
fn attackers_strike_only_what_is_beside_them() {
    let mut designs = VehicleDesignRegistry::new();
    let id = designs.insert(handcart());
    let d = designs.get(id).unwrap();
    let mut fleet = vec![target_at(7, d, (0, 0)), target_at(8, d, (40, 40))];
    let asleep = Attacker { dormant: true, ..attacker_at((-1, 0), Some(7)) };
    let tired = Attacker { ready: false, ..attacker_at((-1, 0), Some(7)) };
    let attackers = vec![
        asleep,
        tired,
        attacker_at((-1, 0), None),
        attacker_at((-1, 0), Some(9)),
        attacker_at((-1, 0), Some(8)),
        attacker_at((-1, 0), Some(7)),
    ];
    let outs = vehicle_combat_system(&attackers, &designs, &mut fleet);
    assert_eq!(outs.len(), 6);
    assert!(outs[..5].iter().all(|o| !o.tires()));
    assert!(matches!(outs[5], Attack::Landed(_, _)) && outs[5].tires());
    let n = d.grid.cells.len();
    assert_eq!(fleet[1].health.intact_cells(), n);
    assert!(fleet[0].health.intact_cells() < n);
}

#[test]
fn wrecks_are_left_alone() {
    let mut designs = VehicleDesignRegistry::new();
    let id = designs.insert(handcart());
    let d = designs.get(id).unwrap();
    let n = d.grid.cells.len();
    let mut fleet = vec![target_at(7, d, (0, 0))];
    let attackers = vec![attacker_at((-1, 0), Some(7)); n + 2];
    let outs = vehicle_combat_system(&attackers, &designs, &mut fleet);
    let landed = outs.iter().filter(|o| o.tires()).count();
    assert_eq!(landed, n);
    assert!(fleet[0].wrecked);
    assert!(matches!(&outs[n - 1], Attack::Landed(_, a) if a.wrecked));
    let mut hollow = target_at(7, d, (0, 0));
    for c in &mut hollow.health.cells {
        c.1 = 0;
    }
    let mut fleet = vec![hollow];
    let outs = vehicle_combat_system(&vec![attackers[0]], &designs, &mut fleet);
    assert!(matches!(outs[0], Attack::Missed) && !fleet[0].wrecked);
}

#[test]
fn wrecked_vehicles_free_everybody() {
    let d = handcart();
    let mut s = target_at(7, &d, (0, 0));
    s.inventory.add(WOOD, 5);
    s.crew = crew(Some(1), &[2], &[3]);
    s.draft.hitched.push(Entity(9));
    let mut freed: Vec<Entity> = Vec::new();
    let mut spilled: Vec<(ResourceId, u32)> = Vec::new();
    let mut wrecked = false;
    for (pos, _) in &d.grid.cells {
        let a = resolve_hit(&mut s, &d, *pos, 9_999);
        freed.extend(a.unboarded);
        spilled.extend(a.spilled);
        wrecked = a.wrecked;
    }
    assert!(wrecked);
    assert_eq!(s.vehicle.state, VehicleState::Overturned);
    assert_eq!(freed.len(), 3);
    assert_eq!(spilled, vec![(WOOD, 5)]);
    assert_eq!(s.health.intact_cells(), 0);
}

#[test]
fn spills_and_exposed_riders() {
    let mut inv = VehicleInventory::new();
    inv.add(WOOD, 5);
    assert_eq!(spill(&mut inv), vec![(WOOD, 5)]);
    assert!(inv.is_empty());
    let mut people = crew(Some(1), &[2], &[]);
    let first = expose_one(&mut people).unwrap();
    let second = expose_one(&mut people).unwrap();
    assert_ne!(first, second);
    assert_eq!(expose_one(&mut people), None);
    let mut people = crew(Some(1), &[2], &[3]);
    assert_eq!(eject_all_crew(&mut people).len(), 3);
    assert!(people.driver.is_none());
}

#[test]
fn damage_never_heals() {
    let d = handcart();
    let mut h = VehicleHealth::from_design(&d);
    let before = h.cells.clone();
    apply_vehicle_cell_damage(&mut h, &d, IVec3::new(0, 0, 0), 20);
    apply_vehicle_cell_damage(&mut h, &d, IVec3::new(8, 8, 8), 20);
    for (a, b) in before.iter().zip(h.cells.iter()) {
        assert!(b.1 <= a.1);
    }
    assert_eq!(h.cell_health(IVec3::new(0, 0, 0)), 30);
    assert_eq!(h.cell_health(IVec3::new(8, 8, 8)), 0);
}

#[test]
fn rolls_pick_low_cells_first() {
    let h = VehicleHealth {
        cells: vec![(IVec3::new(0, 0, 0), 10), (IVec3::new(0, 0, 1), 10)],
        disabled: VehicleDisableFlags(0),
    };
    let hits: Vec<i32> = (0..3).map(|r| hit_cell_for_roll(&h, r).unwrap().z).collect();
    assert_eq!(hits, vec![0, 0, 1]);
    let gone = VehicleHealth {
        cells: vec![(IVec3::new(0, 0, 0), 0)],
        disabled: VehicleDisableFlags(0),
    };
    assert_eq!(hit_cell_for_roll(&gone, 0), None);
}

#[test]
fn flags_are_kept_apart() {
    let mut f = VehicleDisableFlags(0);
    f.set(CARGO);
    assert!(f.has(CARGO) && !f.has(MOVEMENT));
    f.set(MOVEMENT);
    assert!(f.has(CARGO) && f.has(MOVEMENT) && !f.has(STEERING));
}

#[test]
fn riders_are_everyone_once() {
    let mut v = vehicle_at((0, 0));
    v.hauler = Some(Entity(1));
    let people = crew(Some(1), &[2], &[3]);
    let riders = riders_of(&v, &people);
    assert_eq!(riders.len(), 3);
    for e in [Entity(1), Entity(2), Entity(3)] {
        assert_eq!(riders.iter().filter(|r| **r == e).count(), 1);
    }
    assert_eq!(available_weapon_operators(&people), 2);
    assert_eq!(vehicle_gunner_demand(&ram(), &data()), 0, "a ram does not shoot");
    let mut shooting = data();
    shooting.modules[0].range = 6;
    assert_eq!(vehicle_gunner_demand(&ram(), &shooting), 1);
    assert!(vehicle_operator_capacity(&handcart(), &data()) >= 1);
}

fn target(e: u64, tile: (i32, i32), faction: u32) -> Candidate {
    Candidate {
        entity: Entity(e),
        indexed_tile: tile,
        tile,
        faction,
        wreck: false,
        in_sight: true,
    }
}

#[test]
fn shots_only_at_enemies() {
    let aim = Aim {
        origin: (0, 0),
        range: 8,
        facing: None,
        owner_faction: 1,
        filter: TargetingFilter::none(),
    };
    let mut hidden = target(3, (1, 0), 2);
    hidden.in_sight = false;
    let mut wreck = target(4, (1, 1), 2);
    wreck.wreck = true;
    let list = vec![
        target(1, (2, 0), 1),
        target(2, (9, 0), 2),
        hidden,
        wreck,
        target(5, (5, 0), 2),
        target(6, (3, 0), 2),
    ];
    let i = acquire_weapon_target(&aim, &list).unwrap();
    assert_eq!(list[i].entity, Entity(6), "the nearest enemy in sight");
    let focus = Aim {
        filter: TargetingFilter { focus: Some((6, 0)), focus_radius: 1 },
        ..aim
    };
    assert_eq!(list[acquire_weapon_target(&focus, &list).unwrap()].entity, Entity(5));
    let behind = Aim { facing: Some((-1, 0)), ..aim };
    assert_eq!(acquire_weapon_target(&behind, &list), None);
}

#[test]
fn fire_orders_expire() {
    let order = VehicleFireOrder { target_tile: (4, 4), expires_tick: 50 };
    let manned = crew(None, &[2], &[]);
    let (f, _) = fire_filter(Some(order), &manned, 10);
    assert_eq!(f.focus, Some((4, 4)));
    assert_eq!(f.focus_radius, FIRE_ORDER_RADIUS);
    let (f, dropped) = fire_filter(Some(order), &manned, 60);
    assert_eq!(f.focus, None);
    assert!(dropped);
    let (f, dropped) = fire_filter(Some(order), &crew(None, &[], &[]), 60);
    assert_eq!(f.focus, None);
    assert!(!dropped, "nobody is there to drop it");
    assert!(!fire_filter(None, &manned, 60).1);
}

#[test]
fn turrets_wait_between_shots() {
    let d = design_of(
        "Gun",
        VehiclePurpose::War,
        grid_of(&[(0, 0, 0, VehiclePartKind::CrewSeat), (0, 1, 0, VehiclePartKind::Turret)]),
    );
    let data = data();
    let v = vehicle_at((0, 0));
    let h = VehicleHealth::from_design(&d);
    let people = crew(Some(1), &[], &[2]);
    let list = vec![target(5, (5, 0), 2)];
    let mut module_waits: ahash::AHashMap<(u64, u16), u64> = ahash::AHashMap::new();
    let mut cell_waits: ahash::AHashMap<(u64, i32, i32, i32), u64> = ahash::AHashMap::new();
    let mut fire = |now: u64, people: &VehicleCrew| {
        vehicle_fire(
            Entity(9),
            &v,
            &h,
            people,
            &d,
            &data,
            TargetingFilter::none(),
            &list,
            now,
            &mut module_waits,
            &mut cell_waits,
        )
    };
    assert!(fire(100, &crew(None, &[], &[])).is_empty(), "nobody mans it");
    let shots = fire(100, &people);
    assert_eq!(shots.len(), 1);
    assert_eq!(shots[0].target, Entity(5));
    assert_eq!(shots[0].damage, 12);
    assert_eq!(shots[0].dest_tile, (5, 0));
    assert!(fire(101, &people).is_empty());
    assert_eq!(fire(100 + TURRET_FIRE_COOLDOWN_TICKS, &people).len(), 1);
}

#[test]
fn rams_batter_walls() {
    let d = ram();
    let data = data();
    assert_eq!(design_siege_damage(&d, &data), 30);
    assert_eq!(design_siege_damage(&handcart(), &data), 0);
    let map = ground(&[(0, 5)]);
    let index = VehicleOccupancyIndex::new();
    let mut order = SiegeOrder { target_tile: (0, 5), last_route_attempt_tick: 0 };
    let mut ready: ahash::AHashMap<u64, u64> = ahash::AHashMap::new();
    let view = |stands: bool, driver: bool| SiegeView {
        wall_stands: stands,
        design: Some(&d),
        has_driver: driver,
        under_way: false,
        now: 500,
    };
    let far = vehicle_at((0, -5));
    let near = vehicle_at((0, 3));
    let a = siege_step(
        &view(false, true), &data, &near, Entity(1), &map, &index, &mut order, &mut ready,
    );
    assert!(matches!(a, SiegeAction::DropOrder));
    let a =
        siege_step(&view(true, true), &data, &far, Entity(1), &map, &index, &mut order, &mut ready);
    match a {
        SiegeAction::Approach(tile) => {
            assert_eq!(find_passable_adjacent_to_wall((0, 5), 0, Entity(1), &d, &map, &index), Some(tile));
        }
        other => panic!("expected an approach, got {other:?}"),
    }
    let a = siege_step(
        &view(true, true), &data, &near, Entity(1), &map, &index, &mut order, &mut ready,
    );
    assert!(matches!(a, SiegeAction::Strike(30)));
    assert_eq!(ready.get(&1), Some(&560));
    let a = siege_step(
        &view(true, true), &data, &near, Entity(1), &map, &index, &mut order, &mut ready,
    );
    assert!(matches!(a, SiegeAction::Wait));
}

fn facts(id: u32, members: u32, techs: Vec<u16>) -> FactionFacts {
    FactionFacts {
        id,
        has_parent: false,
        member_count: members,
        mobile: false,
        techs,
        home_tile: (0, 0),
    }
}

#[test]
fn large_settlements_plan_a_yard() {
    let map = ground(&[]);
    let planned: ahash::AHashMap<(i32, i32), Entity> = ahash::AHashMap::default();
    let factions = vec![
        facts(1, 20, vec![OX_CART]),
        facts(2, 3, vec![OX_CART]),
        facts(3, 20, Vec::new()),
        facts(4, 20, vec![OX_CART]),
    ];
    let yards = vec![VehicleYard { faction_id: 4, tile: (1, 1) }];
    let plan =
        |tick: u64| vehicle_yard_intent_emitter_system(tick, 100, &factions, &yards, &Vec::new(), &map, &planned);
    assert!(plan(50).is_empty());
    let plans = plan(200);
    assert!(plans.iter().all(|p| p.faction_id != 2 && p.faction_id != 4));
    let site = find_yard_site(&map, &planned, (0, 0)).unwrap();
    let away = site.0.abs().max(site.1.abs());
    assert!((8..=14).contains(&away));
}

#[test]
fn yards_without_carts_order_one() {
    let mut registry = VehicleDesignRegistry::new();
    let id = registry.insert(handcart());
    let yards = vec![
        VehicleYard { faction_id: 1, tile: (1, 1) },
        VehicleYard { faction_id: 2, tile: (2, 2) },
        VehicleYard { faction_id: 3, tile: (3, 3) },
    ];
    let mut queue = VehicleAssemblyQueue { entries: vec![(2, id)] };
    vehicle_ai_queue_system(50, 100, &mut queue, &registry, &yards, &vec![3]);
    assert_eq!(queue.entries.len(), 1);
    vehicle_ai_queue_system(100, 100, &mut queue, &registry, &yards, &vec![3]);
    assert_eq!(queue.entries, vec![(2, id), (1, id)]);
}

#[test]
fn smiths_propose_one_design_each() {
    let mut registry = VehicleDesignRegistry::new();
    let name = proposal_base_name(&vec![BRONZE_CASTING]);
    let mut base = handcart();
    base.name = name.clone();
    let id = registry.insert(base);
    let factions = vec![
        facts(1, 20, vec![ANIMAL_HUSBANDRY, BRONZE_CASTING]),
        facts(2, 20, vec![ANIMAL_HUSBANDRY]),
        facts(3, 20, vec![BRONZE_CASTING]),
    ];
    assert!(vehicle_ai_design_proposal_system(100, 100, &factions, &registry).is_empty());
    let tasks = vehicle_ai_design_proposal_system(700, 100, &factions, &registry);
    assert_eq!(tasks.len(), 1);
    assert_eq!(tasks[0].faction_id, 1);
    assert_eq!(tasks[0].base, id);
    let d = registry.get(id).unwrap();
    let strong = reinforced_design(d, 1, IRON, &vec![99; d.grid.cells.len()]);
    assert_eq!(strong.name, format!("Reinforced {name}"));
    assert_eq!(strong.author_faction, Some(1));
    assert!(strong.grid.cells.iter().any(|(_, c)| c.material == IRON && c.durability == 99));
    let data = data();
    let figures = plain_body_figures(&strong.grid, &data);
    let mut hollow = reinforced_design(d, 1, IRON, &vec![99; d.grid.cells.len()]);
    hollow.grid.cells.clear();
    assert_eq!(adopt_proposal(&mut registry, hollow, &data, &Vec::new(), false), None);
    assert_eq!(registry.designs.len(), 1);
    let own = adopt_proposal(&mut registry, strong, &data, &figures, false).unwrap();
    assert_eq!(registry.get(own).unwrap().author_faction, Some(1));
    assert!(vehicle_ai_design_proposal_system(700, 100, &factions, &registry).is_empty());
}

#[test]
fn tech_names_are_inverse() {
    for id in 0..8 {
        let name = tech_name_from_id(id).unwrap();
        assert_eq!(civgame::tech::tech_id_from_name(&name), Some(id));
    }
    assert_eq!(tech_name_from_id(999), None);
    assert_eq!(civgame::tech::tech_id_from_name("alchemy"), None);
}

#[test]
fn roads_are_told_from_ground() {
    let mut map = ground(&[]);
    map.tiles[30 * 61 + 30].kind = TileKind::Road;
    assert!(is_road_like(&map, (0, 0)));
    assert!(!is_road_like(&map, (1, 0)));
    assert!(map.passable_at(0, 0, 0));
    assert!(!map.passable_at(0, 0, 9));
    assert_eq!(map.tile_kind_at(0, 0), Some(TileKind::Road));
    assert_eq!(map.tile_kind_at(500, 0), None);
}

#[test]
fn catalogues_are_searched_by_kind() {
    let mut data = data();
    assert_eq!(data.material_count(), 3);
    let variant = |id: u16, part_kind: VehiclePartKind| PartVariantDef {
        id: VehiclePartVariantId(id),
        label: format!("variant {id}"),
        description: String::new(),
        part_kind,
        tech_gates: Vec::new(),
    };
    data.variants = vec![
        variant(0, VehiclePartKind::Wheel),
        variant(1, VehiclePartKind::Frame),
        variant(2, VehiclePartKind::Wheel),
    ];
    let wheels = data.variants_for(VehiclePartKind::Wheel);
    let ids: Vec<u16> = wheels.iter().map(|v| v.id.0).collect();
    assert_eq!(ids, vec![0, 2]);
    assert!(data.variants_for(VehiclePartKind::Turret).is_empty());
}

#[test]
fn turrets_are_ranged_weapons_and_rams_are_not() {
    let data = data();
    assert!(!design_has_any_ranged_weapon(&handcart(), &data));
    let mut armed = handcart();
    armed.grid.cells.push((
        IVec3::new(9, 9, 0),
        VehicleCell::plain(VehiclePartKind::Turret, WOOD, 50),
    ));
    assert!(design_has_any_ranged_weapon(&armed, &data));
}
