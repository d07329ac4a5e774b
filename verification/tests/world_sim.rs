use civgame::world_sim::{
    agent_exploration_system, apply_deltas, compute_world_sim_batch, next_batch,
    queue_world_sim_result_if_current, raid_goes_ahead, GlobeCell, GlobeGrid, RaidIntent,
    WorldSimCellDelta, WorldSimCellSnapshot, WorldSimCursor, WorldSimResult, WorldSimTaskState,
    MAX_CELL_POPULATION,
};

fn no_tiles() -> ahash::AHashSet<(i32, i32)> {
    ahash::AHashSet::default()
}

fn snapshot(gx: i32, gy: i32, faction_id: u32, population: u16) -> WorldSimCellSnapshot {
    WorldSimCellSnapshot {
        gx,
        gy,
        faction_id,
        population,
        food_bits: 0,
        ample: false,
        starving: false,
    }
}

fn globe(width: i32, height: i32) -> GlobeGrid {
    let cell = GlobeCell { faction_id: 0, population: 0, food_bits: 0, explored: false };
    GlobeGrid { width, height, cells: vec![cell; (width * height) as usize] }
}

#[test]
fn world_sim_compute_returns_only_claimed_cell_deltas() {
    let mut hungry = snapshot(0, 0, 7, 10);
    hungry.starving = true;
    let snapshots = vec![hungry, snapshot(1, 0, 0, 10)];
    let result = compute_world_sim_batch(&snapshots, &no_tiles(), 8, 8, 42);
    assert_eq!(result.generation, 42);
    assert_eq!(result.deltas.len(), 1);
    assert_eq!(result.deltas[0].gx, 0);
    assert_eq!(result.deltas[0].population, 9);
    assert_eq!(result.raids.len(), 1);
    assert_eq!(result.raids[0].target_pos, (0, 1));
}

#[test]
fn stale_world_sim_results_are_not_queued() {
    let mut state = WorldSimTaskState::new();
    let result = WorldSimResult {
        generation: 1,
        snapshot_cells: 1,
        deltas: vec![WorldSimCellDelta {
            gx: 0,
            gy: 0,
            faction_id: 1,
            population: 1,
            food_bits: 2,
        }],
        raids: Vec::new(),
    };
    assert!(!queue_world_sim_result_if_current(&mut state, &result, 2));
    assert!(state.pending_deltas.is_empty());
    assert!(queue_world_sim_result_if_current(&mut state, &result, 1));
    assert_eq!(state.pending_deltas.len(), 1);
}

#[test]
fn people_multiply_up_to_the_limit() {
    let mut rich = snapshot(2, 3, 4, 10);
    rich.ample = true;
    rich.food_bits = 77;
    let mut full = snapshot(3, 3, 4, MAX_CELL_POPULATION);
    full.ample = true;
    let steady = snapshot(4, 3, 4, 5);
    let result = compute_world_sim_batch(&vec![rich, full, steady], &no_tiles(), 8, 8, 1);
    assert_eq!(result.snapshot_cells, 3);
    let counts: Vec<u16> = result.deltas.iter().map(|d| d.population).collect();
    assert_eq!(counts, vec![11, MAX_CELL_POPULATION, 5]);
    assert_eq!(result.deltas[0].food_bits, 77);
    assert_eq!(result.deltas[0].faction_id, 4);
    assert!(result.raids.is_empty());
}

#[test]
fn loaded_neighbours_are_not_raided() {
    let mut hungry = snapshot(0, 0, 7, 10);
    hungry.starving = true;
    let mut loaded = no_tiles();
    loaded.insert((0, 1));
    let result = compute_world_sim_batch(&vec![hungry], &loaded, 8, 8, 1);
    assert_eq!(result.raids.len(), 1);
    assert_eq!(result.raids[0].raider_pos, (0, 0));
    assert_eq!(result.raids[0].target_pos, (1, 0));
    loaded.insert((1, 0));
    let result = compute_world_sim_batch(&vec![hungry], &loaded, 8, 8, 1);
    assert!(result.raids.is_empty());
}

#[test]
fn deltas_are_applied_within_the_budget() {
    let mut state = WorldSimTaskState::new();
    let delta = |gx: i32, faction_id: u32| WorldSimCellDelta {
        gx,
        gy: 0,
        faction_id,
        population: 20,
        food_bits: 5,
    };
    let result = WorldSimResult {
        generation: 3,
        snapshot_cells: 3,
        deltas: vec![delta(0, 1), delta(1, 9), delta(2, 1)],
        raids: vec![RaidIntent { raider_pos: (0, 0), target_pos: (1, 0) }],
    };
    assert!(queue_world_sim_result_if_current(&mut state, &result, 3));
    assert_eq!(state.pending_raids.len(), 1);
    let mut world = globe(3, 1);
    for c in world.cells.iter_mut() {
        c.faction_id = 1;
        c.population = 10;
    }
    apply_deltas(&mut world, &mut state, 2);
    assert_eq!(world.cells[0].population, 20);
    assert_eq!(world.cells[1].population, 10, "the cell changed hands meanwhile");
    assert_eq!(world.cells[2].population, 10, "the budget is spent");
    assert_eq!(state.pending_deltas.len(), 1);
    apply_deltas(&mut world, &mut state, 2);
    assert_eq!(world.cells[2].population, 20);
}

#[test]
fn raids_need_a_stocked_target_of_somebody() {
    assert!(raid_goes_ahead(true, 3));
    assert!(!raid_goes_ahead(true, 0));
    assert!(!raid_goes_ahead(false, 3));
}

#[test]
fn batches_walk_round_the_globe() {
    let mut world = globe(3, 2);
    for c in world.cells.iter_mut() {
        c.faction_id = 1;
        c.population = 4;
    }
    let mut loaded = no_tiles();
    loaded.insert((1, 0));
    let mut cursor = WorldSimCursor { next_index: 0, generation: 0 };
    let first = next_batch(&mut cursor, &world, &loaded, 3);
    assert!(!first.contains(&(1, 0)));
    assert!(first.contains(&(0, 0)));
    let start = cursor.next_index;
    assert!(start < 6);
    let second = next_batch(&mut cursor, &world, &loaded, 3);
    assert!(second.iter().all(|t| !loaded.contains(t)));
}

#[test]
fn visited_cells_are_explored() {
    let mut world = globe(3, 2);
    agent_exploration_system(&mut world, &vec![(2, 1), (7, 7)]);
    assert!(world.cells[5].explored);
    assert_eq!(world.cells.iter().filter(|c| c.explored).count(), 1);
    assert_eq!(world.index_of(2, 1), Some(5));
    assert_eq!(world.index_of(3, 1), None);
}

#[test]
fn batches_sweep_the_globe() {
    let world = globe(4, 3);
    let mut cursor = WorldSimCursor { next_index: 7, generation: 1 };
    let mut seen: Vec<(i32, i32)> = Vec::new();
    for _ in 0..4 {
        seen.extend(next_batch(&mut cursor, &world, &no_tiles(), 3));
    }
    assert_eq!(seen[0], (3, 1));
    assert_eq!(seen.len(), 12);
    seen.sort();
    seen.dedup();
    assert_eq!(seen.len(), 12, "every cell once");
    assert_eq!(cursor.next_index, 7);
}
