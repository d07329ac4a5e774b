use civgame::assembly::design_bill;
use civgame::catalog::VehicleData;
use civgame::design::{validate_design, VehicleDesign, VehicleDesignRegistry};
use civgame::drive::{plan_manual_step, ManualDriveState, ManualIntent};
use civgame::footprint::{footprint_tiles, VehicleFootprint};
use civgame::freight::{
    capacity_units, design_is_cargo_capable, design_payload_g, Good,
};
use civgame::geometry::{IVec2, IVec3};
use civgame::grid::{VehicleCell, VehicleGrid, VehicleModuleInstance};
use civgame::health::{apply_vehicle_cell_damage, pick_hit_cell, VehicleHealth};
use civgame::inventory::VehicleInventory;
use civgame::occupancy::VehicleOccupancyIndex;
use civgame::parts::{
    Entity, FiringArc, ResourceId, VehicleDesignId, VehicleDisableFlags, VehicleModuleId,
    VehiclePartKind, VehiclePartVariantId, VehiclePurpose, VehicleState,
};
use civgame::siege::{design_is_siege_capable, design_siege_damage};
use civgame::stats::{derive_stats, plain_body_figures, VehicleStats};
use civgame::tech::{tech_id_from_name, ANIMAL_HUSBANDRY};
use civgame::templates::{
    add_definitions, design_to_template, file_origin, register_template, saved_file_name,
    template_grid, CellText, MaterialText,
    ModuleDefText, PartText, PlacementText, ResourceNames, TemplateText, VariantText,
    VehicleDataFile,
};
use civgame::terrain::{TerrainWindow, TileInfo, TileKind};
use civgame::turret::{heading_vec, target_in_arc};
use civgame::validate::{validate_grid, DesignError};
use civgame::vehicle::{crew_seat_count, Vehicle};

const WOOD: ResourceId = ResourceId(1);
const STONE: ResourceId = ResourceId(2);
const IRON: ResourceId = ResourceId(3);
const COPPER: ResourceId = ResourceId(4);
const SKIN: ResourceId = ResourceId(5);
const TOOLS: ResourceId = ResourceId(6);

fn names() -> ResourceNames {
    let list = [
        ("wood", WOOD),
        ("stone", STONE),
        ("iron", IRON),
        ("copper", COPPER),
        ("skin", SKIN),
        ("tools", TOOLS),
    ];
    ResourceNames {
        entries: list.iter().map(|(k, r)| (k.to_string(), *r)).collect(),
    }
}

fn material(resource: &str, density_pct: u32, strength: u16, traction: u16) -> MaterialText {
    MaterialText {
        resource: resource.to_string(),
        density_pct,
        strength,
        friction: 30,
        traction,
        durability: strength * 2,
    }
}

fn part(kind: VehiclePartKind, base_mass_g: u32) -> PartText {
    PartText {
        kind,
        base_mass_g,
        cargo_volume_g: 0,
        cargo_volume_ml: 0,
        crew_capacity: 0,
        tech_gates: Vec::new(),
        engine_power_g: 0,
        traction_pct: 0,
        mounted_weapon_range: 0,
        mounted_weapon_damage: 0,
    }
}

fn module(label: &str, kind: VehiclePartKind, side: i32) -> ModuleDefText {
    let mut footprint = Vec::new();
    for x in 0..side {
        for y in 0..side {
            footprint.push(IVec3::new(x, y, 0));
        }
    }
    ModuleDefText {
        label: label.to_string(),
        description: String::new(),
        part_kind: kind,
        footprint,
        allowed_rotations: vec![0],
        muzzle_offset: IVec2::new(0, 1),
        crew_required: 1,
        gunner_required: 0,
        firing_arc: FiringArc::NoArc,
        range: 0,
        damage: 0,
        siege_damage: 0,
        cooldown_ticks: 60,
        required_support: 0,
        tech_gates: Vec::new(),
        extra_bill: Vec::new(),
    }
}

fn variant(label: &str, part_kind: VehiclePartKind, gates: &[&str]) -> VariantText {
    VariantText {
        label: label.to_string(),
        description: String::new(),
        part_kind,
        tech_gates: gates.iter().map(|g| g.to_string()).collect(),
    }
}

fn data() -> VehicleData {
    let mut cargo = part(VehiclePartKind::CargoBay, 1_500);
    cargo.cargo_volume_g = 60_000;
    cargo.cargo_volume_ml = 80_000;
    let mut seat = part(VehiclePartKind::CrewSeat, 1_000);
    seat.crew_capacity = 1;
    let mut engine = part(VehiclePartKind::Engine, 2_000);
    engine.engine_power_g = 20_000;
    engine.tech_gates = vec!["powered_traction".to_string()];
    let mut track = part(VehiclePartKind::Track, 3_000);
    track.traction_pct = 15;
    let mut plate = part(VehiclePartKind::ArmorPlate, 2_500);
    plate.tech_gates = vec!["armor_plating".to_string()];
    let mut turret = part(VehiclePartKind::Turret, 2_000);
    turret.mounted_weapon_range = 8;
    turret.mounted_weapon_damage = 12;
    let mut ram = module("ram_1x2", VehiclePartKind::WeaponMount, 1);
    ram.siege_damage = 30;
    ram.tech_gates = vec!["siege_engineering".to_string()];
    let mut ballista = module("ballista_2x2", VehiclePartKind::WeaponMount, 2);
    ballista.firing_arc = FiringArc::Front90;
    ballista.range = 10;
    ballista.damage = 20;
    let mut light_turret = module("light_turret_1x1", VehiclePartKind::Turret, 1);
    light_turret.firing_arc = FiringArc::Full360;
    light_turret.range = 8;
    light_turret.damage = 12;
    light_turret.required_support = 1;
    let mut heavy = module("heavy_turret_3x3", VehiclePartKind::Turret, 3);
    heavy.firing_arc = FiringArc::Full360;
    heavy.range = 12;
    heavy.damage = 30;
    heavy.required_support = 4;
    heavy.extra_bill = vec![("iron".to_string(), 2), ("unobtainium".to_string(), 5)];
    let file = VehicleDataFile {
        materials: vec![
            material("wood", 60, 40, 40),
            material("stone", 250, 30, 35),
            material("iron", 780, 95, 70),
            material("copper", 890, 70, 60),
            material("skin", 40, 5, 20),
            material("unobtainium", 1, 1, 1),
        ],
        parts: vec![
            part(VehiclePartKind::Frame, 2_000),
            part(VehiclePartKind::Deck, 1_500),
            part(VehiclePartKind::Wall, 12_000),
            part(VehiclePartKind::Axle, 3_000),
            part(VehiclePartKind::Wheel, 4_000),
            part(VehiclePartKind::Hitch, 1_000),
            part(VehiclePartKind::Yoke, 1_200),
            cargo,
            seat,
            part(VehiclePartKind::WeaponMount, 2_000),
            engine,
            track,
            plate,
            turret,
        ],
        variants: vec![
            variant("spoked_wheel", VehiclePartKind::Wheel, &[]),
            variant("iron_rim_wheel", VehiclePartKind::Wheel, &["bronze_casting"]),
            variant("solid_wheel", VehiclePartKind::Wheel, &[]),
            variant("light_axle", VehiclePartKind::Axle, &[]),
            variant("heavy_axle", VehiclePartKind::Axle, &[]),
            variant("light_frame", VehiclePartKind::Frame, &[]),
            variant("braced_frame", VehiclePartKind::Frame, &[]),
            variant("slatted_deck", VehiclePartKind::Deck, &[]),
            variant("plank_wall", VehiclePartKind::Wall, &[]),
            variant("deep_bay", VehiclePartKind::CargoBay, &[]),
            variant("padded_seat", VehiclePartKind::CrewSeat, &[]),
            variant("tuned_engine", VehiclePartKind::Engine, &["powered_traction"]),
            variant("wide_track", VehiclePartKind::Track, &[]),
            variant("sloped_plate", VehiclePartKind::ArmorPlate, &["armor_plating"]),
        ],
        modules: vec![ram, ballista, light_turret, heavy],
    };
    let mut data = VehicleData {
        materials: Vec::new(),
        parts: Vec::new(),
        variants: Vec::new(),
        modules: Vec::new(),
        wood: WOOD,
    };
    add_definitions(&mut data, &file, &names());
    data
}

fn at(x: i32, y: i32, z: i32, kind: VehiclePartKind, material: &str) -> CellText {
    CellText {
        pos: IVec3::new(x, y, z),
        kind,
        material: material.to_string(),
        variant: None,
    }
}

fn template(name: &str, purpose: VehiclePurpose, animals: u8, cells: Vec<CellText>) -> TemplateText {
    TemplateText {
        name: name.to_string(),
        purpose,
        required_animals: animals,
        tech_gates: Vec::new(),
        cells,
        modules: Vec::new(),
    }
}

fn templates() -> Vec<TemplateText> {
    let mut handcart = template(
        "Handcart",
        VehiclePurpose::Cargo,
        0,
        vec![
            at(0, 0, 0, VehiclePartKind::Wheel, "wood"),
            at(1, 0, 0, VehiclePartKind::Wheel, "wood"),
            at(0, 1, 0, VehiclePartKind::Axle, "wood"),
            at(1, 1, 0, VehiclePartKind::Axle, "wood"),
            at(0, 2, 0, VehiclePartKind::Frame, "wood"),
            at(1, 2, 0, VehiclePartKind::CargoBay, "wood"),
            at(0, 3, 0, VehiclePartKind::Hitch, "wood"),
        ],
    );
    handcart.cells[0].variant = Some("spoked_wheel".to_string());
    handcart.cells[1].variant = Some("spoked_wheel".to_string());
    let mut wagon_cells = Vec::new();
    for y in 0..4 {
        for x in 0..3 {
            let kind = match (x, y) {
                (0, 0) | (2, 0) | (0, 3) | (2, 3) => VehiclePartKind::Wheel,
                (1, 0) | (1, 3) => VehiclePartKind::Axle,
                (0, 1) => VehiclePartKind::Axle,
                (0, 2) => VehiclePartKind::Hitch,
                _ => VehiclePartKind::CargoBay,
            };
            wagon_cells.push(at(x, y, 0, kind, "wood"));
        }
    }
    let wagon = template("Four-Wheel Wagon", VehiclePurpose::Cargo, 1, wagon_cells);
    let light = template(
        "Light Chariot",
        VehiclePurpose::War,
        1,
        vec![
            at(0, 0, 0, VehiclePartKind::Wheel, "wood"),
            at(1, 0, 0, VehiclePartKind::Axle, "wood"),
            at(2, 0, 0, VehiclePartKind::Wheel, "wood"),
            at(1, 1, 0, VehiclePartKind::CrewSeat, "wood"),
            at(1, 2, 0, VehiclePartKind::Hitch, "wood"),
        ],
    );
    let war = template(
        "War Chariot",
        VehiclePurpose::War,
        1,
        vec![
            at(0, 0, 0, VehiclePartKind::Wheel, "wood"),
            at(1, 0, 0, VehiclePartKind::Axle, "copper"),
            at(2, 0, 0, VehiclePartKind::Axle, "copper"),
            at(3, 0, 0, VehiclePartKind::Wheel, "wood"),
            at(1, 1, 0, VehiclePartKind::CrewSeat, "wood"),
            at(2, 1, 0, VehiclePartKind::WeaponMount, "wood"),
            at(1, 2, 0, VehiclePartKind::Hitch, "wood"),
        ],
    );
    let mut ram = template(
        "Battering Ram",
        VehiclePurpose::War,
        0,
        vec![
            at(0, 0, 0, VehiclePartKind::Wheel, "wood"),
            at(1, 0, 0, VehiclePartKind::Axle, "wood"),
            at(2, 0, 0, VehiclePartKind::Wheel, "wood"),
            at(1, 1, 0, VehiclePartKind::CrewSeat, "wood"),
            at(1, 2, 0, VehiclePartKind::WeaponMount, "wood"),
        ],
    );
    ram.modules.push(PlacementText {
        def: "ram_1x2".to_string(),
        cells: vec![IVec3::new(1, 2, 0)],
        facing: 0,
    });
    let mut ballista = template(
        "Ballista Vehicle",
        VehiclePurpose::War,
        1,
        vec![
            at(0, 0, 0, VehiclePartKind::Wheel, "wood"),
            at(1, 0, 0, VehiclePartKind::Axle, "wood"),
            at(2, 0, 0, VehiclePartKind::Axle, "wood"),
            at(3, 0, 0, VehiclePartKind::Wheel, "wood"),
            at(1, 1, 0, VehiclePartKind::CrewSeat, "wood"),
            at(2, 1, 0, VehiclePartKind::Hitch, "wood"),
            at(1, 2, 0, VehiclePartKind::WeaponMount, "wood"),
            at(1, 3, 0, VehiclePartKind::WeaponMount, "wood"),
            at(2, 2, 0, VehiclePartKind::WeaponMount, "wood"),
            at(2, 3, 0, VehiclePartKind::WeaponMount, "wood"),
        ],
    );
    ballista.modules.push(PlacementText {
        def: "ballista_2x2".to_string(),
        cells: vec![
            IVec3::new(1, 2, 0),
            IVec3::new(1, 3, 0),
            IVec3::new(2, 2, 0),
            IVec3::new(2, 3, 0),
        ],
        facing: 0,
    });
    let mut heavy_cells = Vec::new();
    let mut heavy_turret = Vec::new();
    for x in 0..3 {
        for y in 0..3 {
            let (kind, material) = match (x, y) {
                (1, 0) | (1, 1) => (VehiclePartKind::Engine, "wood"),
                (1, 2) => (VehiclePartKind::CrewSeat, "wood"),
                _ => (VehiclePartKind::Track, "iron"),
            };
            heavy_cells.push(at(x, y, 0, kind, material));
            heavy_turret.push(IVec3::new(x, y, 1));
        }
    }
    for p in &heavy_turret {
        heavy_cells.push(at(p.x, p.y, 1, VehiclePartKind::Turret, "wood"));
    }
    let mut heavy = template("Heavy Tank", VehiclePurpose::War, 0, heavy_cells);
    heavy.modules.push(PlacementText {
        def: "heavy_turret_3x3".to_string(),
        cells: heavy_turret,
        facing: 0,
    });
    let mut tank = template(
        "Tank",
        VehiclePurpose::War,
        0,
        vec![
            at(0, 0, 0, VehiclePartKind::Track, "iron"),
            at(2, 0, 0, VehiclePartKind::Track, "iron"),
            at(0, 1, 0, VehiclePartKind::Track, "iron"),
            at(2, 1, 0, VehiclePartKind::Track, "iron"),
            at(1, 0, 0, VehiclePartKind::Engine, "wood"),
            at(1, 1, 0, VehiclePartKind::CrewSeat, "wood"),
            at(1, 2, 0, VehiclePartKind::ArmorPlate, "wood"),
            at(1, 0, 1, VehiclePartKind::Turret, "wood"),
        ],
    );
    tank.modules.push(PlacementText {
        def: "light_turret_1x1".to_string(),
        cells: vec![IVec3::new(1, 0, 1)],
        facing: 0,
    });
    vec![handcart, wagon, light, war, ram, ballista, tank, heavy]
}

fn load_vehicle_assets() -> (VehicleData, VehicleDesignRegistry) {
    let data = data();
    let mut registry = VehicleDesignRegistry::new();
    for t in templates() {
        let grid = template_grid(&t, &data, &names());
        register_template(&mut registry, &t, grid, &data, false);
    }
    (data, registry)
}

fn cell(kind: VehiclePartKind, material: ResourceId) -> VehicleCell {
    VehicleCell::plain(kind, material, 100)
}

fn grid_from(cells: &[(i32, i32, i32, VehiclePartKind)]) -> VehicleGrid {
    VehicleGrid {
        cells: cells
            .iter()
            .map(|&(x, y, z, k)| (IVec3::new(x, y, z), cell(k, WOOD)))
            .collect(),
        modules: Vec::new(),
    }
}

/// Whether the engine of a body gives less power than its load needs.
fn engine_too_weak(grid: &VehicleGrid, data: &VehicleData, stats: &VehicleStats) -> bool {
    let mut traction = 0.0_f32;
    for (_, c) in &grid.cells {
        if c.kind == VehiclePartKind::Wheel {
            traction += data.material(c.material).map(|m| m.traction as f32).unwrap_or(40.0);
        }
    }
    let tracks = stats.track_traction_pct as f32;
    let quality = if stats.wheel_count > 0 {
        (traction / stats.wheel_count as f32) / 55.0
    } else if stats.track_traction_pct > 0 {
        (tracks / 100.0).clamp(0.5, 1.5)
    } else {
        0.5
    };
    let resist = 1.0 - (tracks / 100.0).min(0.8);
    let needed = stats.loaded_mass_g as f32 * 0.06 * resist / quality.max(0.1);
    (stats.engine_power as f32) < needed
}

fn checked(
    grid: &VehicleGrid,
    purpose: VehiclePurpose,
    animals: u8,
    data: &VehicleData,
) -> Result<(), Vec<DesignError>> {
    let figures = plain_body_figures(grid, data);
    let stats = derive_stats(grid, data, &figures);
    let weak = engine_too_weak(grid, data, &stats);
    validate_grid(grid, purpose, animals, data, &figures, weak)
}

fn checked_design(design: &VehicleDesign, data: &VehicleData) -> Result<(), Vec<DesignError>> {
    let figures = plain_body_figures(&design.grid, data);
    let stats = derive_stats(&design.grid, data, &figures);
    let weak = engine_too_weak(&design.grid, data, &stats);
    validate_design(design, data, &figures, weak)
}

fn stats_of(grid: &VehicleGrid, data: &VehicleData) -> VehicleStats {
    derive_stats(grid, data, &plain_body_figures(grid, data))
}

#[test]
fn stock_templates_all_validate() {
    let (data, registry) = load_vehicle_assets();
    assert!(registry.len() >= 5, "expected 5 stock templates");
    for d in registry.iter() {
        assert!(
            checked_design(d, &data).is_ok(),
            "stock template {:?} failed validation: {:?}",
            d.name,
            checked_design(d, &data)
        );
    }
}

#[test]
fn rejects_disconnected_body() {
    let data = data();
    let g = grid_from(&[
        (0, 0, 0, VehiclePartKind::Frame),
        (0, 1, 0, VehiclePartKind::Hitch),
        // island, two tiles away.
        (3, 3, 0, VehiclePartKind::Frame),
    ]);
    let err = checked(&g, VehiclePurpose::Cargo, 0, &data).unwrap_err();
    assert!(err.contains(&DesignError::Disconnected));
}

#[test]
fn rejects_floating_cell() {
    let data = data();
    let g = grid_from(&[
        (0, 0, 0, VehiclePartKind::Frame),
        (0, 0, 1, VehiclePartKind::Frame),
        (0, 0, 3, VehiclePartKind::Hitch),
    ]);
    let err = checked(&g, VehiclePurpose::Cargo, 0, &data).unwrap_err();
    assert!(err.iter().any(|e| matches!(e, DesignError::FloatingCell(_))));
}

#[test]
fn rejects_unsupported_wheel() {
    let data = data();
    let g = grid_from(&[
        (0, 0, 0, VehiclePartKind::Wheel),
        (1, 0, 0, VehiclePartKind::Frame),
        (2, 0, 0, VehiclePartKind::Hitch),
    ]);
    let err = checked(&g, VehiclePurpose::Cargo, 0, &data).unwrap_err();
    assert!(err.iter().any(|e| matches!(e, DesignError::UnsupportedWheel(_))));
}

#[test]
fn rejects_missing_driver() {
    let data = data();
    let g = grid_from(&[
        (0, 0, 0, VehiclePartKind::Frame),
        (1, 0, 0, VehiclePartKind::Frame),
    ]);
    let err = checked(&g, VehiclePurpose::Cargo, 0, &data).unwrap_err();
    assert!(err.contains(&DesignError::NoControlCell));
}

#[test]
fn rejects_bad_hitch() {
    let data = data();
    let g = grid_from(&[
        (0, 0, 0, VehiclePartKind::Frame),
        (0, 1, 0, VehiclePartKind::Hitch),
    ]);
    let err = checked(&g, VehiclePurpose::Cargo, 2, &data).unwrap_err();
    assert!(err.contains(&DesignError::BadHitch));
}

#[test]
fn rejects_blocked_cargo() {
    let data = data();
    let g = grid_from(&[
        (0, 0, 0, VehiclePartKind::Wall),
        (1, 0, 0, VehiclePartKind::Wall),
        (2, 0, 0, VehiclePartKind::Wall),
        (0, 1, 0, VehiclePartKind::Wall),
        (1, 1, 0, VehiclePartKind::CargoBay),
        (2, 1, 0, VehiclePartKind::Wall),
        (0, 2, 0, VehiclePartKind::Wall),
        (1, 2, 0, VehiclePartKind::Hitch),
        (2, 2, 0, VehiclePartKind::Wall),
    ]);
    let err = checked(&g, VehiclePurpose::Cargo, 0, &data).unwrap_err();
    assert!(err.iter().any(|e| matches!(e, DesignError::BlockedCargo(_))));
}

#[test]
fn rejects_overloaded_axle() {
    let data = data();
    let g = VehicleGrid {
        cells: vec![
            (IVec3::new(0, 0, 0), cell(VehiclePartKind::Wheel, SKIN)),
            (IVec3::new(0, 1, 0), cell(VehiclePartKind::Axle, SKIN)),
            (IVec3::new(0, 2, 0), cell(VehiclePartKind::Wall, STONE)),
            (IVec3::new(1, 2, 0), cell(VehiclePartKind::Wall, STONE)),
            (IVec3::new(2, 2, 0), cell(VehiclePartKind::Wall, STONE)),
            (IVec3::new(0, 3, 0), cell(VehiclePartKind::Hitch, SKIN)),
        ],
        modules: Vec::new(),
    };
    let err = checked(&g, VehiclePurpose::Cargo, 0, &data).unwrap_err();
    assert!(err.contains(&DesignError::OverloadedAxle));
}

#[test]
fn chariot_rule_requires_crew() {
    let data = data();
    let g = grid_from(&[
        (0, 0, 0, VehiclePartKind::Frame),
        (0, 1, 0, VehiclePartKind::Hitch),
    ]);
    let err = checked(&g, VehiclePurpose::War, 1, &data).unwrap_err();
    assert!(err.contains(&DesignError::ChariotRule));
}

#[test]
fn material_swap_moves_mass_and_speed() {
    let data = data();
    let base = |wheel_mat: ResourceId| VehicleGrid {
        cells: vec![
            (IVec3::new(0, 0, 0), cell(VehiclePartKind::Wheel, wheel_mat)),
            (IVec3::new(1, 0, 0), cell(VehiclePartKind::Wheel, wheel_mat)),
            (IVec3::new(0, 1, 0), cell(VehiclePartKind::Axle, WOOD)),
            (IVec3::new(1, 1, 0), cell(VehiclePartKind::Axle, WOOD)),
            (IVec3::new(0, 2, 0), cell(VehiclePartKind::CargoBay, WOOD)),
            (IVec3::new(1, 2, 0), cell(VehiclePartKind::Hitch, WOOD)),
        ],
        modules: Vec::new(),
    };
    let s_wood = stats_of(&base(WOOD), &data);
    let s_iron = stats_of(&base(IRON), &data);
    assert!(s_iron.empty_mass_g > s_wood.empty_mass_g, "iron wheels are denser: heavier");
    assert!(
        s_iron.support_g as f32 - s_iron.loaded_mass_g as f32
            != s_wood.support_g as f32 - s_wood.loaded_mass_g as f32,
        "material swap changes structural margin"
    );
}

#[test]
fn tall_narrow_less_stable_than_wide_low() {
    let data = data();
    let tall = grid_from(&[
        (0, 0, 0, VehiclePartKind::Frame),
        (0, 0, 1, VehiclePartKind::Frame),
        (0, 0, 2, VehiclePartKind::Frame),
        (0, 0, 3, VehiclePartKind::CrewSeat),
    ]);
    let wide = grid_from(&[
        (0, 0, 0, VehiclePartKind::Frame),
        (1, 0, 0, VehiclePartKind::Frame),
        (2, 0, 0, VehiclePartKind::Frame),
        (3, 0, 0, VehiclePartKind::Frame),
        (4, 0, 0, VehiclePartKind::Frame),
        (5, 0, 0, VehiclePartKind::CrewSeat),
    ]);
    let s_tall = stats_of(&tall, &data);
    let s_wide = stats_of(&wide, &data);
    assert!(s_tall.height_z == 4);
    assert!(s_wide.height_z == 1);
    assert_eq!(s_tall.track_width, 1);
    assert_eq!(s_wide.track_width, 6);
}

#[test]
fn footprint_rotation_maps_all_headings() {
    let (_, registry) = load_vehicle_assets();
    let wagon = registry.by_name("Four-Wheel Wagon").unwrap();
    let fp = VehicleFootprint::from_grid(&wagon.grid);
    let n = fp.offsets_by_heading[0].len();
    for h in 0..4 {
        assert_eq!(fp.offsets_by_heading[h].len(), n);
        for o in &fp.offsets_by_heading[h] {
            assert!(o.x >= 0 && o.y >= 0);
        }
    }
    assert_ne!(fp.offsets_by_heading[0], fp.offsets_by_heading[1]);
}

#[test]
fn wagon_carries_more_than_handcart() {
    let (data, registry) = load_vehicle_assets();
    let s_hc = stats_of(&registry.by_name("Handcart").unwrap().grid, &data);
    let s_wagon = stats_of(&registry.by_name("Four-Wheel Wagon").unwrap().grid, &data);
    assert!(s_wagon.max_payload_g > s_hc.max_payload_g);
}

#[test]
fn design_bill_counts_cells_and_tools() {
    let (data, registry) = load_vehicle_assets();
    let handcart = registry.by_name("Handcart").unwrap();
    let bill = design_bill(handcart, &data, TOOLS);
    let wood_qty = bill.iter().find(|(r, _)| *r == WOOD).map(|(_, q)| *q);
    let tool_qty = bill.iter().find(|(r, _)| *r == TOOLS).map(|(_, q)| *q);
    // Handcart: 7 wood cells, 2 wheels + 2 axles: 4 tools.
    assert_eq!(wood_qty, Some(7));
    assert_eq!(tool_qty, Some(4));
}

#[test]
fn war_chariot_bill_includes_copper() {
    let (data, registry) = load_vehicle_assets();
    let war = registry.by_name("War Chariot").unwrap();
    let bill = design_bill(war, &data, TOOLS);
    assert_eq!(bill.iter().find(|(r, _)| *r == COPPER).map(|(_, q)| *q), Some(2));
}

#[test]
fn footprint_tiles_track_anchor_and_heading() {
    let (_, registry) = load_vehicle_assets();
    let wagon = registry.by_name("Four-Wheel Wagon").unwrap();
    let h0 = footprint_tiles(wagon, (10, 10), 0);
    let h1 = footprint_tiles(wagon, (10, 10), 1);
    assert_eq!(h0.len(), h1.len(), "rotation preserves the tile count");
    assert!(h0.iter().all(|&(x, y)| x >= 10 && y >= 10));
    assert_ne!(h0, h1);
}

fn goods() -> Vec<Good> {
    vec![
        Good { resource: WOOD, weight_g: 5_000, volume_ml: 8_000 },
        Good { resource: STONE, weight_g: 10_000, volume_ml: 4_000 },
    ]
}

#[test]
fn capacity_units_is_positive() {
    let (data, registry) = load_vehicle_assets();
    let wagon = registry.by_name("Four-Wheel Wagon").unwrap();
    let figures = plain_body_figures(&wagon.grid, &data);
    let payload = design_payload_g(wagon, &data, &figures);
    assert!(payload > 0, "a cargo wagon must have a non-zero payload");
    assert!(capacity_units(payload, &goods(), WOOD) >= 1);
    assert!(capacity_units(payload, &goods(), STONE) >= 1);
    assert!(design_is_cargo_capable(wagon, &data, &figures));
    let chariot = registry.by_name("War Chariot").unwrap();
    let figures = plain_body_figures(&chariot.grid, &data);
    assert!(
        !design_is_cargo_capable(chariot, &data, &figures),
        "a War-purpose chariot is not a cargo hauler"
    );
}

#[test]
fn inventory_add_take_roundtrip() {
    let mut inv = VehicleInventory::new();
    assert!(inv.is_empty());
    inv.add(STONE, 40);
    assert_eq!(inv.total_qty(), 40);
    assert_eq!(inv.take(STONE, 25), 25);
    assert_eq!(inv.qty_of(STONE), 15);
}

#[test]
fn vehicle_health_mirrors_design_durability() {
    let (_, registry) = load_vehicle_assets();
    let design = registry.by_name("Handcart").unwrap();
    let health = VehicleHealth::from_design(design);
    assert_eq!(health.cells.len(), design.grid.cells.len());
    assert!(health.cells.iter().all(|(_, hp)| *hp > 0));
    assert_eq!(health.intact_cells(), design.grid.cells.len());
    assert!(!health.movement_disabled());
}

#[test]
fn crew_seat_count_matches_template() {
    let (_, registry) = load_vehicle_assets();
    assert_eq!(crew_seat_count(registry.by_name("Handcart").unwrap()), 0);
    assert_eq!(crew_seat_count(registry.by_name("Light Chariot").unwrap()), 1);
}

#[test]
fn destroying_a_wheel_disables_movement() {
    let (_, registry) = load_vehicle_assets();
    let design = registry.by_name("Handcart").unwrap();
    let mut health = VehicleHealth::from_design(design);
    let out = apply_vehicle_cell_damage(&mut health, design, IVec3::new(0, 0, 0), 9_999);
    assert!(out.cell_destroyed && out.movement_disabled);
    assert!(health.movement_disabled());
}

#[test]
fn destroying_cargo_bay_spills_and_hitch_releases() {
    let (_, registry) = load_vehicle_assets();
    let design = registry.by_name("Handcart").unwrap();
    let mut health = VehicleHealth::from_design(design);
    assert!(
        apply_vehicle_cell_damage(&mut health, design, IVec3::new(1, 2, 0), 9_999).spill_cargo
    );
    assert!(
        apply_vehicle_cell_damage(&mut health, design, IVec3::new(0, 3, 0), 9_999).release_animals
    );
}

#[test]
fn destroying_low_frame_forces_overturn() {
    let (_, registry) = load_vehicle_assets();
    let design = registry.by_name("Handcart").unwrap();
    let mut health = VehicleHealth::from_design(design);
    let out = apply_vehicle_cell_damage(&mut health, design, IVec3::new(0, 2, 0), 9_999);
    assert!(out.force_overturn, "a destroyed low support cell overturns");
}

#[test]
fn partial_damage_leaves_cell_standing() {
    let (_, registry) = load_vehicle_assets();
    let design = registry.by_name("Handcart").unwrap();
    let mut health = VehicleHealth::from_design(design);
    let out = apply_vehicle_cell_damage(&mut health, design, IVec3::new(0, 0, 0), 1);
    assert!(!out.cell_destroyed);
    assert!(health.cell_health(IVec3::new(0, 0, 0)) > 0);
}

#[test]
fn hit_location_biases_low_cells() {
    let health = VehicleHealth {
        cells: vec![(IVec3::new(0, 0, 0), 100), (IVec3::new(0, 0, 1), 100)],
        disabled: VehicleDisableFlags(0),
    };
    let mut low = 0;
    for _ in 0..600 {
        if pick_hit_cell(&health).unwrap().z == 0 {
            low += 1;
        }
    }
    assert!(low > 300, "melee should bias the low cell ({low}/600)");
}

#[test]
fn tech_id_from_name_resolves_siege_techs() {
    assert!(tech_id_from_name("siege_engineering").is_some());
    assert!(tech_id_from_name("armor_plating").is_some());
    assert!(tech_id_from_name("powered_traction").is_some());
}

#[test]
fn new_part_defs_load() {
    let data = data();
    for k in [
        VehiclePartKind::Engine,
        VehiclePartKind::Track,
        VehiclePartKind::ArmorPlate,
        VehiclePartKind::Turret,
    ] {
        assert!(data.part(k).is_some(), "part {k:?} missing");
    }
    let frame = data.part(VehiclePartKind::Frame).unwrap();
    assert_eq!(frame.engine_power_g, 0);
    assert!(data.part(VehiclePartKind::Engine).unwrap().engine_power_g > 0);
}

#[test]
fn tank_validates_engine_driven_zero_animals() {
    let (data, registry) = load_vehicle_assets();
    let tank = registry.by_name("Tank").expect("Tank template");
    assert_eq!(tank.required_animals, 0);
    assert!(
        !tank
            .grid
            .cells
            .iter()
            .any(|(_, c)| matches!(c.kind, VehiclePartKind::Hitch | VehiclePartKind::Yoke)),
        "tank has no Hitch/Yoke"
    );
    assert!(
        checked_design(tank, &data).is_ok(),
        "tank failed validation: {:?}",
        checked_design(tank, &data)
    );
    let stats = stats_of(&tank.grid, &data);
    assert!(stats.is_engine_driven);
    assert!(stats.engine_power > 0);
}

#[test]
fn underpowered_engine_is_invalid() {
    let data = data();
    let mut cells: Vec<(IVec3, VehicleCell)> = Vec::new();
    for x in 0..6 {
        for y in 0..3 {
            let k = if (x, y) == (0, 0) {
                VehiclePartKind::Engine
            } else if (x, y) == (1, 0) {
                VehiclePartKind::CrewSeat
            } else {
                VehiclePartKind::Frame
            };
            cells.push((IVec3::new(x, y, 0), cell(k, COPPER)));
        }
    }
    let g = VehicleGrid { cells, modules: Vec::new() };
    let err = checked(&g, VehiclePurpose::War, 0, &data).unwrap_err();
    assert!(
        err.contains(&DesignError::UnderpoweredEngine),
        "an oversized engine-driven slab should be underpowered: {err:?}"
    );
    assert!(
        !err.contains(&DesignError::OverloadedAxle),
        "frames carry the load: only the engine is the problem: {err:?}"
    );
}

#[test]
fn siege_helpers_classify_designs() {
    let (data, registry) = load_vehicle_assets();
    let ram = registry.by_name("Battering Ram").unwrap();
    let tank = registry.by_name("Tank").unwrap();
    let chariot = registry.by_name("War Chariot").unwrap();
    assert!(design_is_siege_capable(ram, &data));
    assert!(design_siege_damage(ram, &data) > 0);
    assert!(!design_is_siege_capable(tank, &data));
    assert!(!design_is_siege_capable(chariot, &data));
}

#[test]
fn variant_and_module_defs_load() {
    let data = data();
    assert!(
        data.variants().len() >= 14,
        "expected the v2 variant set, got {}",
        data.variants().len()
    );
    assert!(data.module_by_label("ballista_2x2").is_some(), "ballista module must parse");
    assert!(data.module_by_label("heavy_turret_3x3").is_some());
    let (_, registry) = load_vehicle_assets();
    let handcart = registry.by_name("Handcart").unwrap();
    assert!(handcart
        .grid
        .cells
        .iter()
        .any(|(_, c)| c.kind == VehiclePartKind::Wheel && c.variant.is_some()));
    assert!(handcart
        .grid
        .cells
        .iter()
        .any(|(_, c)| c.kind == VehiclePartKind::Frame && c.variant.is_none()));
}

#[test]
fn variant_changes_derived_stats() {
    let data = data();
    let spoked = data.variant_by_label("spoked_wheel").unwrap().id;
    let iron_rim = data.variant_by_label("iron_rim_wheel").unwrap().id;
    let make = |v: VehiclePartVariantId| {
        let mut g = grid_from(&[
            (0, 0, 0, VehiclePartKind::Wheel),
            (1, 0, 0, VehiclePartKind::Wheel),
            (0, 1, 0, VehiclePartKind::Axle),
            (1, 1, 0, VehiclePartKind::Axle),
            (0, 2, 0, VehiclePartKind::CargoBay),
            (1, 2, 0, VehiclePartKind::Hitch),
        ]);
        for (_, c) in g.cells.iter_mut() {
            if c.kind == VehiclePartKind::Wheel {
                c.material = WOOD;
                c.variant = Some(v);
            }
        }
        g
    };
    // Each variant weighs its own multiple of the plain part.
    let weigh = |v: Option<VehiclePartVariantId>| match v {
        Some(v) if v == spoked => 0.5_f32,
        Some(v) if v == iron_rim => 1.75,
        _ => 1.0,
    };
    let stats = |g: &VehicleGrid| {
        let mut figures = plain_body_figures(g, &data);
        for (f, (_, c)) in figures.iter_mut().zip(&g.cells) {
            f.mass_g = (f.mass_g as f32 * weigh(c.variant)) as u32;
        }
        derive_stats(g, &data, &figures)
    };
    let s_spoked = stats(&make(spoked));
    let s_iron = stats(&make(iron_rim));
    assert!(
        s_iron.empty_mass_g > s_spoked.empty_mass_g,
        "iron-rim wheels are heavier than spoked"
    );
    assert_eq!(s_iron.empty_mass_g - s_spoked.empty_mass_g, 2 * 3_000);
}

#[test]
fn order_of_cells_makes_no_difference() {
    let (data, registry) = load_vehicle_assets();
    for d in registry.iter() {
        let mut turned = VehicleGrid { cells: d.grid.cells.clone(), modules: Vec::new() };
        turned.cells.reverse();
        turned.cells.rotate_left(2);
        assert_eq!(stats_of(&turned, &data), stats_of(&d.grid, &data), "{:?}", d.name);
        let s = stats_of(&d.grid, &data);
        assert_eq!(s.is_engine_driven, s.engine_power > 0);
    }
}

#[test]
fn denser_wheels_never_weigh_less() {
    let (data, registry) = load_vehicle_assets();
    let cart = registry.by_name("Handcart").unwrap();
    let with_wheels = |rid: ResourceId| {
        let mut g = VehicleGrid { cells: cart.grid.cells.clone(), modules: Vec::new() };
        for (_, c) in g.cells.iter_mut() {
            if c.kind == VehiclePartKind::Wheel {
                c.material = rid;
            }
        }
        stats_of(&g, &data).empty_mass_g
    };
    let by_density = [SKIN, WOOD, STONE, IRON, COPPER];
    for pair in by_density.windows(2) {
        assert!(with_wheels(pair[0]) <= with_wheels(pair[1]));
    }
    assert_eq!(with_wheels(IRON) - with_wheels(WOOD), 2 * (31_200 - 2_400));
}

#[test]
fn support_is_counted_past_eight_bits() {
    let mut data = data();
    let mut file = VehicleDataFile {
        materials: Vec::new(),
        parts: Vec::new(),
        variants: Vec::new(),
        modules: vec![module("platform_16x16", VehiclePartKind::Turret, 16)],
    };
    file.modules[0].required_support = 1;
    add_definitions(&mut data, &file, &names());
    let def = data.module_by_label("platform_16x16").unwrap().id;
    let raised = |base: bool| {
        let mid = VehicleModuleId(0);
        let mut g = grid_from(&[(0, 0, 0, VehiclePartKind::Frame)]);
        let mut places = Vec::new();
        for x in 0..16 {
            for y in 0..16 {
                if base && (x, y) != (0, 0) {
                    g.cells.push((IVec3::new(x, y, 0), cell(VehiclePartKind::Frame, WOOD)));
                }
                let top = VehicleCell {
                    module_id: Some(mid),
                    ..cell(VehiclePartKind::Turret, WOOD)
                };
                // Without a base the platform hangs one level up.
                let p = IVec3::new(x, y, if base { 1 } else { 2 });
                g.cells.push((p, top));
                places.push(p);
            }
        }
        g.modules.push(VehicleModuleInstance { id: mid, def, cells: places, facing: 0 });
        let err = checked(&g, VehiclePurpose::War, 0, &data).unwrap_err();
        err.contains(&DesignError::UnsupportedModule(mid))
    };
    assert!(!raised(true), "all of the 256 cells rest on something");
    assert!(raised(false));
}

#[test]
fn rejects_unsupported_heavy_turret_module() {
    let data = data();
    let mut g = grid_from(&[
        (0, 0, 0, VehiclePartKind::Frame),
        (0, 1, 0, VehiclePartKind::Hitch),
    ]);
    let mid = VehicleModuleId(0);
    for x in 0..3 {
        for y in 0..3 {
            g.cells.push((
                IVec3::new(x + 4, y, 1),
                VehicleCell {
                    kind: VehiclePartKind::Turret,
                    material: WOOD,
                    durability: 100,
                    variant: None,
                    module_id: Some(mid),
                },
            ));
        }
    }
    let def = data.module_by_label("heavy_turret_3x3").unwrap().id;
    g.modules.push(VehicleModuleInstance {
        id: mid,
        def,
        cells: (0..3)
            .flat_map(|x| (0..3).map(move |y| IVec3::new(x + 4, y, 1)))
            .collect(),
        facing: 0,
    });
    let err = checked(&g, VehiclePurpose::War, 0, &data).unwrap_err();
    assert!(
        err.iter().any(|e| matches!(e, DesignError::UnsupportedModule(_)))
            || err.iter().any(|e| matches!(e, DesignError::Disconnected)),
        "an unsupported / disconnected heavy turret must be rejected: {err:?}"
    );
}

#[test]
fn front_arc_excludes_rear_targets() {
    let facing = heading_vec(0);
    assert!(target_in_arc(facing, (0, 0), (0, 5)), "front target hit");
    assert!(target_in_arc(facing, (0, 0), (2, 4)), "front-diagonal hit");
    assert!(!target_in_arc(facing, (0, 0), (0, -5)), "rear target missed");
    assert!(!target_in_arc(facing, (0, 0), (5, 0)), "flank target missed");
    assert!(target_in_arc((2, 1), (0, 0), (3, 0)), "off the axes, ahead");
    assert!(target_in_arc((2, 1), (0, 0), (1, 3)), "off the axes, on the edge");
    assert!(!target_in_arc((2, 1), (0, 0), (0, 3)), "off the axes, aside");
}

#[test]
fn stock_templates_validate_with_modules() {
    let (data, registry) = load_vehicle_assets();
    for d in registry.iter() {
        assert!(
            checked_design(d, &data).is_ok(),
            "stock template {:?} failed validation: {:?}",
            d.name,
            checked_design(d, &data)
        );
    }
    for name in ["Battering Ram", "Ballista Vehicle", "Tank", "Heavy Tank"] {
        let d = registry.by_name(name).unwrap();
        assert!(!d.grid.modules.is_empty(), "{name} should carry a weapon module");
    }
    let d = registry.by_name("Battering Ram").unwrap();
    assert_eq!(d.grid.modules[0].cells, vec![IVec3::new(1, 2, 0)]);
    let mounted = d.grid.get(IVec3::new(1, 2, 0)).unwrap();
    assert_eq!(mounted.module_id, Some(d.grid.modules[0].id));
}

fn test_vehicle() -> Vehicle {
    Vehicle {
        owner_faction: 1,
        design_id: VehicleDesignId(0),
        purpose: VehiclePurpose::Cargo,
        heading: 0,
        state: VehicleState::Parked,
        anchor_tile: (0, 0),
        z: 0,
        hauler: None,
    }
}

fn composed_test_design() -> VehicleDesign {
    VehicleDesign {
        id: VehicleDesignId(99),
        name: "TestDrive".to_string(),
        grid: grid_from(&[
            (0, 0, 0, VehiclePartKind::Frame),
            (0, 0, 1, VehiclePartKind::Wall),
        ]),
        allowed_purpose: VehiclePurpose::Cargo,
        required_animals: 0,
        tech_gates: Vec::new(),
        author_faction: Some(1),
        from_user_file: false,
        revision: 0,
    }
}

/// Flat open ground around the origin.
fn open_ground() -> TerrainWindow {
    let mut tiles = Vec::new();
    for _ in 0..81 {
        tiles.push(TileInfo {
            kind: TileKind::Grass,
            surface_z: 0,
            walkable: true,
            clearance: 8,
            open: vec![0, 1, 2, 3],
        });
    }
    TerrainWindow { min: (-4, -4), width: 9, height: 9, tiles, z_min: -16, z_max: 15 }
}

#[test]
fn plan_manual_step_turn_succeeds_on_clear_origin() {
    let design = composed_test_design();
    let v = test_vehicle();
    let occupancy = VehicleOccupancyIndex::new();
    let p = plan_manual_step(
        &v,
        &design,
        ManualIntent::TurnCCW,
        &open_ground(),
        &occupancy,
        Entity(1),
    )
    .unwrap();
    assert_eq!(p.len(), 2);
    assert_eq!(p[0].heading, 0);
    assert_eq!(p[1].heading, 1);
    assert_eq!((p[1].x, p[1].y), (p[0].x, p[0].y));
}

#[test]
fn plan_manual_step_forward_returns_2_node_path_when_possible() {
    let design = composed_test_design();
    let v = test_vehicle();
    let occupancy = VehicleOccupancyIndex::new();
    let p = plan_manual_step(
        &v,
        &design,
        ManualIntent::Forward,
        &open_ground(),
        &occupancy,
        Entity(1),
    )
    .unwrap();
    assert_eq!(p.len(), 2);
    assert_eq!(p[1].heading, 0);
    assert_eq!((p[1].x - p[0].x, p[1].y - p[0].y), (0, 1));
}

#[test]
fn plan_manual_step_blocked_by_occupancy_returns_none() {
    let design = composed_test_design();
    let v = test_vehicle();
    let mut occupancy = VehicleOccupancyIndex::new();
    let other = Entity(42);
    let self_e = Entity(1);
    occupancy.register((0, 1), other);
    let ground = open_ground();
    let start_ok =
        plan_manual_step(&v, &design, ManualIntent::TurnCCW, &ground, &occupancy, self_e).is_some();
    assert!(start_ok);
    let fwd = plan_manual_step(&v, &design, ManualIntent::Forward, &ground, &occupancy, self_e);
    assert!(fwd.is_none(), "forward step should be blocked by the other-vehicle occupancy");
}

#[test]
fn manual_intent_variants_distinct() {
    assert_ne!(ManualIntent::Forward, ManualIntent::ForwardLeft);
    assert_ne!(ManualIntent::TurnCCW, ManualIntent::TurnCW);
}

#[test]
fn manual_drive_state_default_is_inactive() {
    let s = ManualDriveState::default();
    assert!(s.active.is_none());
    assert!(s.last_status.is_none());
}

#[test]
fn save_custom_design_round_trips_through_the_loader() {
    let data = data();
    let names = names();
    let design = VehicleDesign {
        id: VehicleDesignId(42),
        name: "RoundTrip Cart".to_string(),
        grid: grid_from(&[
            (0, 0, 0, VehiclePartKind::Frame),
            (1, 0, 0, VehiclePartKind::Frame),
            (0, 0, 1, VehiclePartKind::Wall),
        ]),
        allowed_purpose: VehiclePurpose::Cargo,
        required_animals: 1,
        tech_gates: vec![ANIMAL_HUSBANDRY],
        author_faction: Some(1),
        from_user_file: false,
        revision: 0,
    };
    let t = design_to_template(&design, &data, &names).unwrap();
    assert_eq!(t.name, "RoundTrip Cart");
    assert_eq!(t.purpose, VehiclePurpose::Cargo);
    assert_eq!(t.required_animals, 1);
    assert_eq!(t.tech_gates, vec!["animal_husbandry".to_string()]);
    assert_eq!(t.cells.len(), 3);
    assert_eq!(t.cells[0].kind, VehiclePartKind::Frame);
    assert_eq!(t.cells[2].kind, VehiclePartKind::Wall);
    assert_eq!(t.modules.len(), 0);
    let back = template_grid(&t, &data, &names);
    assert_eq!(back.cells.len(), 3);
    assert_eq!(back.cells[2].0, IVec3::new(0, 0, 1));
    assert_eq!(back.cells[2].1.material, WOOD);
    let mut registry = VehicleDesignRegistry::new();
    let id = register_template(&mut registry, &t, back, &data, true);
    let loaded = registry.get(id).unwrap();
    assert_eq!(loaded.name, "RoundTrip Cart");
    assert!(loaded.from_user_file);
    assert_eq!(loaded.tech_gates, vec![ANIMAL_HUSBANDRY]);
}

#[test]
fn files_are_known_by_their_names() {
    assert_eq!(file_origin("core.ron"), Some(false));
    assert_eq!(file_origin("user_my_tank.ron"), Some(true));
    assert_eq!(file_origin("my_user_tank.ron"), Some(false));
    assert_eq!(file_origin("user_tank.ron.bak"), None);
    assert_eq!(file_origin("user_tank"), None);
    assert_eq!(file_origin(".ron"), None, "nothing stands before the extension");
    assert_eq!(file_origin("a.ron"), Some(false));
    assert_eq!(file_origin("tank.RON"), None);
    assert_eq!(file_origin(""), None);
    assert_eq!(saved_file_name("My Tank!!"), "user_my_tank.ron");
    assert_eq!(file_origin(&saved_file_name("My Tank!!")), Some(true));
}
