use civgame::parts::Entity;
use civgame::terrain::{TerrainWindow, TileInfo, TileKind};
use civgame::wild_herd::{
    bloom_step, collect_grassland, herd_health, migrate_herd, nearest_water, next_bucket,
    place_herd_members, seed_wild_herds_system, set_bloomed, set_collapsed, water_within,
    wild_herd_migration_system, BloomStep, HerdCalendar, HerdWorld, Season, WildHerd, WildHerdRegistry,
    WildHerdSpecies, BLOOM_RADIUS_TILES, BLOOM_VISIBLE_CAP, COLLAPSE_RADIUS_TILES,
    HERD_RANGE_HALF, WILD_HERD_AGGREGATE, WILD_HERD_AGGREGATE_CAP, WILD_HERD_BIRTH_PER_SEASON,
    WILD_HERD_COUNT,
};

fn ground(kinds: &[((i32, i32), TileKind)]) -> TerrainWindow {
    let side: usize = 101;
    let mut tiles = Vec::new();
    for i in 0..side * side {
        let here = ((i % side) as i32 - 50, (i / side) as i32 - 50);
        let kind = kinds.iter().find(|(t, _)| *t == here).map(|(_, k)| *k);
        tiles.push(TileInfo {
            kind: kind.unwrap_or(TileKind::Grass),
            surface_z: 0,
            walkable: kind.is_none(),
            clearance: 8,
            open: if kind.is_none() { vec![0] } else { Vec::new() },
        });
    }
    TerrainWindow { min: (-50, -50), width: side, height: side, tiles, z_min: -16, z_max: 15 }
}

fn herd(count: u16) -> WildHerd {
    WildHerd {
        id: 0,
        species: WildHerdSpecies::Horse,
        aggregate_count: count,
        leader_tile: (0, 0),
        range_center: (0, 0),
        bloomed: false,
        members: Vec::new(),
        flee_until_tick: 0,
        last_birthed_tick: 0,
        cluster_id: 0,
    }
}

fn calendar(season: Season) -> HerdCalendar {
    HerdCalendar { season, ticks_per_day: 100, ticks_per_season: 1_000 }
}

#[test]
fn new_worlds_get_herds_once() {
    let mut registry = WildHerdRegistry::new();
    let mut cluster: u32 = 5;
    assert!(!seed_wild_herds_system(&mut registry, &mut cluster, &Vec::new()), "no grassland");
    assert_eq!(cluster, 5);
    let grass = vec![(1, 1), (2, 2), (3, 3), (4, 4)];
    assert!(seed_wild_herds_system(&mut registry, &mut cluster, &grass));
    assert_eq!(registry.herds.len(), WILD_HERD_COUNT as usize);
    assert_eq!(registry.next_id, WILD_HERD_COUNT);
    assert_eq!(cluster, 5 + WILD_HERD_COUNT);
    for h in registry.herds.values() {
        assert!(grass.contains(&h.leader_tile));
        assert_eq!(h.range_center, h.leader_tile);
        assert_eq!(h.aggregate_count, WILD_HERD_AGGREGATE);
        assert!(!h.bloomed && h.members.is_empty());
    }
    assert!(!seed_wild_herds_system(&mut registry, &mut cluster, &grass), "the world has herds");
}

#[test]
fn lost_members_leave_the_herd() {
    let mut registry = WildHerdRegistry::new();
    let mut h = herd(10);
    h.members = vec![Entity(1), Entity(2), Entity(3)];
    registry.herds.insert(4, h);
    registry.remove_member(4, Entity(2));
    assert_eq!(registry.herds[&4].members, vec![Entity(1), Entity(3)]);
    assert_eq!(registry.herds[&4].aggregate_count, 9);
    registry.remove_member(99, Entity(1));
    assert_eq!(registry.herds.len(), 1);
}

#[test]
fn grassland_and_water_are_found() {
    let map = ground(&[((3, 0), TileKind::River), ((0, 0), TileKind::Stone)]);
    let grass = collect_grassland(&map);
    assert!(!grass.contains(&(0, 0)));
    assert!(grass.contains(&(1, 0)));
    assert!(water_within(&map, (0, 0), 4));
    assert!(!water_within(&map, (0, 0), 2));
    assert_eq!(nearest_water(&map, (0, 0), 12), Some((3, 0)));
    assert_eq!(nearest_water(&map, (-40, 0), 12), None);
}

#[test]
fn thirsty_herds_make_for_water() {
    let map = ground(&[((9, 0), TileKind::Lake)]);
    let none: Vec<(i32, i32)> = Vec::new();
    let world = HerdWorld {
        calendar: calendar(Season::Summer),
        terrain: &map,
        threats: &none,
        camps: &none,
    };
    let mut h = herd(50);
    migrate_herd(&mut h, &world, 500);
    assert_eq!(h.leader_tile, (1, 0));
    assert_eq!(h.aggregate_count, 50);
}

#[test]
fn threatened_herds_run() {
    let map = ground(&[]);
    let none: Vec<(i32, i32)> = Vec::new();
    let wolves = vec![(3, 3)];
    let world = HerdWorld {
        calendar: calendar(Season::Summer),
        terrain: &map,
        threats: &wolves,
        camps: &none,
    };
    let mut h = herd(50);
    migrate_herd(&mut h, &world, 500);
    assert!(h.flee_until_tick > 500);
    assert!(h.leader_tile.0 < 0 && h.leader_tile.1 < 0);
}

#[test]
fn foals_are_born_once_a_season() {
    let map = ground(&[]);
    let none: Vec<(i32, i32)> = Vec::new();
    let world = HerdWorld {
        calendar: calendar(Season::Spring),
        terrain: &map,
        threats: &none,
        camps: &none,
    };
    let mut h = herd(50);
    migrate_herd(&mut h, &world, 5_000);
    assert_eq!(h.aggregate_count, 50 + WILD_HERD_BIRTH_PER_SEASON);
    assert_eq!(h.last_birthed_tick, 5_000);
    migrate_herd(&mut h, &world, 5_100);
    assert_eq!(h.aggregate_count, 50 + WILD_HERD_BIRTH_PER_SEASON);
    let mut full = herd(WILD_HERD_AGGREGATE_CAP);
    migrate_herd(&mut full, &world, 5_000);
    assert_eq!(full.aggregate_count, WILD_HERD_AGGREGATE_CAP);
}

#[test]
fn herds_keep_to_their_range() {
    let map = ground(&[]);
    let none: Vec<(i32, i32)> = Vec::new();
    let wolves = vec![(29, 29)];
    let world = HerdWorld {
        calendar: calendar(Season::Summer),
        terrain: &map,
        threats: &wolves,
        camps: &none,
    };
    let mut h = herd(50);
    h.leader_tile = (HERD_RANGE_HALF, HERD_RANGE_HALF);
    migrate_herd(&mut h, &world, 500);
    assert!(h.leader_tile.0 <= HERD_RANGE_HALF && h.leader_tile.1 <= HERD_RANGE_HALF);
}

#[test]
fn herds_move_once_a_day() {
    let map = ground(&[((9, 0), TileKind::Lake)]);
    let none: Vec<(i32, i32)> = Vec::new();
    let world = HerdWorld {
        calendar: calendar(Season::Summer),
        terrain: &map,
        threats: &none,
        camps: &none,
    };
    let mut registry = WildHerdRegistry::new();
    registry.herds.insert(0, herd(50));
    wild_herd_migration_system(&mut registry, &world, 501);
    assert_eq!(registry.herds[&0].leader_tile, (0, 0));
    wild_herd_migration_system(&mut registry, &world, 600);
    assert_eq!(registry.herds[&0].leader_tile, (1, 0));
}

#[test]
fn herds_bloom_near_the_camera() {
    let mut h = herd(100);
    assert_eq!(bloom_step(&h, Some((BLOOM_RADIUS_TILES, 0))), BloomStep::Bloom(BLOOM_VISIBLE_CAP));
    assert_eq!(bloom_step(&h, Some((BLOOM_RADIUS_TILES + 1, 0))), BloomStep::Stay);
    assert_eq!(bloom_step(&h, None), BloomStep::Stay);
    h.aggregate_count = 7;
    assert_eq!(bloom_step(&h, Some((0, 0))), BloomStep::Bloom(7));
    h.bloomed = true;
    assert_eq!(bloom_step(&h, Some((COLLAPSE_RADIUS_TILES, 0))), BloomStep::Stay);
    assert_eq!(bloom_step(&h, Some((COLLAPSE_RADIUS_TILES + 1, 0))), BloomStep::Collapse);
}

#[test]
fn animals_stand_apart_on_open_ground() {
    let map = ground(&[((0, 0), TileKind::River)]);
    let tiles = place_herd_members(&map, (0, 0), 5);
    assert_eq!(tiles.len(), 5);
    assert!(!tiles.contains(&(0, 0)));
    for (i, a) in tiles.iter().enumerate() {
        assert!(a.0.abs() <= 4 && a.1.abs() <= 4);
        assert!(!tiles[..i].contains(a));
    }
}

#[test]
fn blooming_and_collapsing_keeps_the_heads() {
    let mut h = herd(100);
    let animals: Vec<Entity> = (0..60).map(Entity).collect();
    set_bloomed(&mut h, animals.clone());
    assert!(h.bloomed);
    assert_eq!(h.aggregate_count, 40);
    let back = set_collapsed(&mut h, &animals);
    assert_eq!(back.len(), 60);
    assert_eq!(h.aggregate_count, 100);
    assert!(!h.bloomed && h.members.is_empty());
    set_bloomed(&mut h, vec![Entity(1), Entity(2)]);
    let back = set_collapsed(&mut h, &vec![Entity(2)]);
    assert_eq!(back, vec![Entity(2)]);
    assert_eq!(h.aggregate_count, 99, "one animal died while it was in view");
}

#[test]
fn animals_take_turns() {
    let mut counter: u32 = 19;
    assert_eq!(next_bucket(&mut counter), 19);
    assert_eq!(next_bucket(&mut counter), 0);
    assert_eq!(counter, 21);
    assert_eq!(herd_health(WildHerdSpecies::Horse), 40);
    assert_eq!(herd_health(WildHerdSpecies::Cow), 35);
}
