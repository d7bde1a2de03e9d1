use garden_sim::map::{
    spawn_initial_map, update_fence_autotile, Fence, GameLayer, GridConfig, TilePos, MAP_SIZE, PLACEMENT_MARGIN,
    TILE_SIZE,
};
use garden_sim::pests::Pest;
use garden_sim::plants::{
    despawn_mature_plants, fail_out_to_scoring, increment_maturity, ripe_prize_plant, Health, Plant,
    RoundsTillMature,
};
use garden_sim::scoring::{score, score_prize_plant, Prize, PrizePlantScore};
use garden_sim::world::{Entity, EntityKind, World};

fn garden() -> World {
    World::new(GridConfig::standard())
}

fn fence_at(world: &mut World, x: i32, y: i32) -> usize {
    world.spawn(Entity { pos: TilePos::new(x, y), kind: EntityKind::Fence(Fence { health: Health(1) }) })
}

fn plant(value: u32, rounds: i32, health: i32, is_prize: bool) -> EntityKind {
    EntityKind::Plant(Plant {
        score_value: value,
        rounds_till_mature: RoundsTillMature(rounds),
        health: Health(health),
        is_prize,
    })
}

fn rounds_left(world: &World, handle: usize) -> i32 {
    match &world.get(handle).expect("plant is live").kind {
        EntityKind::Plant(p) => p.rounds_till_mature.0,
        _ => panic!("not a plant"),
    }
}

#[test]
fn the_standard_garden() {
    assert_eq!(MAP_SIZE, 12);
    assert_eq!(TILE_SIZE, 62);
    assert_eq!(GridConfig::standard(), GridConfig { map_size: 12, margin: PLACEMENT_MARGIN });
    assert_eq!(GridConfig::with_size(9), GridConfig { map_size: 9, margin: 1 });
    assert_eq!(TilePos::default(), TilePos::new(0, 0));
    let config = GridConfig::standard();
    assert!(config.in_bounds(0, 0));
    assert!(config.in_bounds(11, 11));
    assert!(!config.in_bounds(12, 0));
    assert!(!config.in_bounds(0, -1));
    assert!(!config.in_bounds(i64::MAX, 3));
}

#[test]
fn cell_keys_tell_cells_apart() {
    let cells = [
        TilePos::new(0, 0),
        TilePos::new(0, 1),
        TilePos::new(1, 0),
        TilePos::new(-1, 0),
        TilePos::new(0, -1),
        TilePos::new(i32::MAX, i32::MIN),
        TilePos::new(i32::MIN, i32::MAX),
        TilePos::new(i32::MAX, i32::MAX),
        TilePos::new(i32::MIN, i32::MIN),
    ];
    for (i, a) in cells.iter().enumerate() {
        for (j, b) in cells.iter().enumerate() {
            assert_eq!(a.to_key() == b.to_key(), i == j);
        }
    }
    assert_eq!(TilePos::new(i32::MIN, i32::MIN).to_key(), 0);
    assert_eq!(TilePos::new(i32::MAX, i32::MAX).to_key(), u64::MAX);
    assert_eq!(TilePos::new(0, 0).to_key(), 0x8000_0000_8000_0000);
    assert_eq!(TilePos::new(1, -1).to_key(), 0x8000_0001_7fff_ffff);
}

#[test]
fn fence_with_neighbours_above_and_to_the_right_shows_tile_five() {
    let mut world = garden();
    let middle = fence_at(&mut world, 5, 5);
    let above = fence_at(&mut world, 5, 6);
    let right = fence_at(&mut world, 6, 5);
    assert_eq!(update_fence_autotile(&world), vec![(middle, 5), (above, 8), (right, 2)]);
}

#[test]
fn each_neighbour_has_its_own_weight() {
    for (dx, dy, weight) in [(0, 1, 1u32), (0, -1, 8), (-1, 0, 2), (1, 0, 4)] {
        let mut world = garden();
        let middle = fence_at(&mut world, 5, 5);
        fence_at(&mut world, 5 + dx, 5 + dy);
        assert_eq!(update_fence_autotile(&world)[0], (middle, weight));
    }
    let mut world = garden();
    let middle = fence_at(&mut world, 5, 5);
    assert_eq!(update_fence_autotile(&world), vec![(middle, 0)]);
    for (x, y) in [(5, 6), (5, 4), (4, 5), (6, 5), (6, 6), (4, 4)] {
        fence_at(&mut world, x, y);
    }
    assert_eq!(update_fence_autotile(&world)[0], (middle, 15));
}

#[test]
fn only_live_fences_count_as_neighbours() {
    let mut world = garden();
    let middle = fence_at(&mut world, 5, 5);
    let gone = fence_at(&mut world, 5, 6);
    world.spawn(Entity { pos: TilePos::new(6, 5), kind: plant(1, 1, 1, false) });
    world.spawn(Entity {
        pos: TilePos::new(4, 5),
        kind: EntityKind::Pest { pest: Pest::upward_wind(), idle: false },
    });
    world.despawn(gone);
    assert_eq!(update_fence_autotile(&world), vec![(middle, 0)]);
}

#[test]
fn fences_at_the_edge_of_the_number_range_have_no_neighbours_beyond() {
    let mut world = garden();
    let a = fence_at(&mut world, i32::MAX, i32::MAX);
    let b = fence_at(&mut world, i32::MIN, i32::MIN);
    let c = fence_at(&mut world, i32::MAX - 1, i32::MAX);
    assert_eq!(update_fence_autotile(&world), vec![(a, 2), (b, 0), (c, 4)]);
}

#[test]
fn the_opening_garden_is_a_fence_ring_round_the_prize_pumpkin() {
    let mut world = garden();
    let mut prize = PrizePlantScore(9);
    let spawned = spawn_initial_map(&mut world, &mut prize);
    assert_eq!(prize, PrizePlantScore(0));
    assert_eq!(spawned.len(), 16);
    assert_eq!(world.len(), 16);
    let ring = [
        (4, 4), (4, 7), (7, 4), (5, 4), (5, 7), (4, 5), (7, 5), (6, 4), (6, 7), (4, 6), (7, 6), (7, 7),
    ];
    for (i, (x, y)) in ring.into_iter().enumerate() {
        assert_eq!(spawned[i], (i, "fence".to_string()));
        assert_eq!(
            world.get(i),
            Some(&Entity { pos: TilePos::new(x, y), kind: EntityKind::Fence(Fence { health: Health(1) }) })
        );
    }
    let pumpkin = [(5, 5), (6, 5), (6, 6), (5, 6)];
    for (i, (x, y)) in pumpkin.into_iter().enumerate() {
        assert_eq!(spawned[12 + i], (12 + i, format!("big_pumpkin{}", i + 1)));
        assert_eq!(
            world.get(12 + i),
            Some(&Entity { pos: TilePos::new(x, y), kind: plant(60, 10, 10, true) })
        );
    }
    assert_eq!(world.occupants(GameLayer::Fences).len(), 12);
    assert_eq!(world.occupants(GameLayer::Plants).len(), 4);
    assert!(world.occupants(GameLayer::Pests).is_empty());
}

#[test]
fn the_opening_garden_skips_cells_that_are_taken() {
    let mut world = garden();
    let mut prize = PrizePlantScore(0);
    fence_at(&mut world, 5, 4);
    world.spawn(Entity { pos: TilePos::new(6, 6), kind: plant(1, 1, 1, false) });
    let spawned = spawn_initial_map(&mut world, &mut prize);
    assert_eq!(spawned.len(), 14);
    assert_eq!(world.len(), 16);
    assert_eq!(spawned[0], (2, "fence".to_string()));
    assert_eq!(spawned[11], (13, "big_pumpkin1".to_string()));
    assert_eq!(spawned[12], (14, "big_pumpkin2".to_string()));
    assert_eq!(spawned[13], (15, "big_pumpkin4".to_string()));
    assert!(spawn_initial_map(&mut world, &mut prize).is_empty());
    assert_eq!(world.len(), 16);
}

#[test]
fn a_plant_two_rounds_from_ripe_is_harvested_after_the_second_round() {
    let mut world = garden();
    let mut prize = PrizePlantScore(0);
    let carrot = world.spawn(Entity { pos: TilePos::new(3, 3), kind: plant(2, 2, 1, false) });
    increment_maturity(&mut world);
    assert_eq!(rounds_left(&world, carrot), 1);
    assert_eq!(score(&world), 0);
    assert_eq!(despawn_mature_plants(&mut world, &mut prize), (vec![], false));
    assert!(world.is_live(carrot));
    increment_maturity(&mut world);
    assert_eq!(rounds_left(&world, carrot), 0);
    assert_eq!(score(&world), 2);
    assert_eq!(despawn_mature_plants(&mut world, &mut prize), (vec![carrot], false));
    assert!(!world.is_live(carrot));
    assert_eq!(prize, PrizePlantScore(0));
}

#[test]
fn a_round_ages_plants_and_nothing_else() {
    let mut world = garden();
    let a = world.spawn(Entity { pos: TilePos::new(3, 3), kind: plant(1, 1, 1, false) });
    let f = fence_at(&mut world, 4, 4);
    let p = Pest::upward_wind().spawn(TilePos::new(5, 0), &mut world);
    let b = world.spawn(Entity { pos: TilePos::new(6, 6), kind: plant(60, -3, 10, true) });
    let before = world.clone();
    increment_maturity(&mut world);
    assert_eq!(rounds_left(&world, a), 0);
    assert_eq!(rounds_left(&world, b), -4);
    assert_eq!(world.get(f), before.get(f));
    assert_eq!(world.get(p), before.get(p));
    assert_eq!(world.get(a).expect("live").pos, TilePos::new(3, 3));
}

#[test]
fn the_round_score_sums_the_ordinary_plants_that_just_ripened() {
    let mut world = garden();
    world.spawn(Entity { pos: TilePos::new(2, 2), kind: plant(1, 0, 1, false) });
    world.spawn(Entity { pos: TilePos::new(3, 2), kind: plant(6, 0, 1, false) });
    world.spawn(Entity { pos: TilePos::new(4, 2), kind: plant(2, 1, 1, false) });
    world.spawn(Entity { pos: TilePos::new(5, 2), kind: plant(7, -1, 1, false) });
    world.spawn(Entity { pos: TilePos::new(6, 2), kind: plant(60, 0, 10, true) });
    let gone = world.spawn(Entity { pos: TilePos::new(7, 2), kind: plant(9, 0, 1, false) });
    world.despawn(gone);
    fence_at(&mut world, 8, 2);
    assert_eq!(score(&world), 7);
    assert_eq!(score(&garden()), 0);
}

#[test]
fn the_round_score_does_not_overflow() {
    let mut world = garden();
    for i in 0..3 {
        world.spawn(Entity { pos: TilePos::new(2 + i, 2), kind: plant(u32::MAX, 0, 1, false) });
    }
    assert_eq!(score(&world), 3 * (u32::MAX as u128));
}

#[test]
fn a_ripe_prize_plant_is_judged_by_its_health() {
    let mut world = garden();
    let mut prize = PrizePlantScore(0);
    let pumpkin = world.spawn(Entity { pos: TilePos::new(5, 5), kind: plant(60, 1, 7, true) });
    assert!(!fail_out_to_scoring(&world));
    assert_eq!(ripe_prize_plant(&world), None);
    increment_maturity(&mut world);
    assert_eq!(ripe_prize_plant(&world), Some(Health(7)));
    assert_eq!(score(&world), 0);
    assert_eq!(despawn_mature_plants(&mut world, &mut prize), (vec![pumpkin], true));
    assert_eq!(prize, PrizePlantScore(7));
    assert_eq!(score_prize_plant(&prize), Prize::SecondPrize);
    assert!(fail_out_to_scoring(&world));
}

#[test]
fn of_several_ripe_prize_plants_the_last_one_is_judged() {
    let mut world = garden();
    let mut prize = PrizePlantScore(1);
    world.spawn(Entity { pos: TilePos::new(5, 5), kind: plant(60, 0, 3, true) });
    world.spawn(Entity { pos: TilePos::new(6, 5), kind: plant(60, -1, 10, true) });
    world.spawn(Entity { pos: TilePos::new(6, 6), kind: plant(60, 1, 4, true) });
    world.spawn(Entity { pos: TilePos::new(5, 6), kind: plant(60, 0, 5, false) });
    assert_eq!(ripe_prize_plant(&world), Some(Health(10)));
    assert_eq!(despawn_mature_plants(&mut world, &mut prize), (vec![0, 1, 3], true));
    assert_eq!(prize, PrizePlantScore(10));
    assert!(!fail_out_to_scoring(&world));
}

#[test]
fn the_ribbons() {
    let bands = [
        (0, Prize::NoPrize, "no_prize"),
        (1, Prize::ThirdPrize, "third_prize"),
        (5, Prize::ThirdPrize, "third_prize"),
        (6, Prize::SecondPrize, "second_prize"),
        (7, Prize::SecondPrize, "second_prize"),
        (9, Prize::SecondPrize, "second_prize"),
        (10, Prize::FirstPrize, "first_prize"),
        (11, Prize::SecondPrize, "second_prize"),
        (u32::MAX, Prize::SecondPrize, "second_prize"),
    ];
    for (score, prize, name) in bands {
        assert_eq!(score_prize_plant(&PrizePlantScore(score)), prize);
        assert_eq!(prize.sprite(), name);
    }
    assert_eq!(PrizePlantScore::default(), PrizePlantScore(0));
}

#[test]
fn health_as_a_score() {
    assert_eq!(Health(0).as_score(), 0);
    assert_eq!(Health(7).as_score(), 7);
    assert_eq!(Health(i32::MAX).as_score(), 2147483647);
    assert_eq!(Health(-1).as_score(), u32::MAX);
    assert_eq!(Health(i32::MIN).as_score(), 2147483648);
}

#[test]
fn the_arena_keeps_handles_stable() {
    let mut world = garden();
    assert_eq!(world.len(), 0);
    let a = fence_at(&mut world, 3, 3);
    let b = world.spawn(Entity { pos: TilePos::new(3, 3), kind: plant(1, 1, 1, false) });
    let c = fence_at(&mut world, 3, 3);
    assert_eq!((a, b, c), (0, 1, 2));
    assert_eq!(world.occupant(TilePos::new(3, 3), GameLayer::Fences), Some(a));
    assert_eq!(world.occupant(TilePos::new(3, 3), GameLayer::Plants), Some(b));
    assert_eq!(world.occupant(TilePos::new(3, 3), GameLayer::Pests), None);
    assert_eq!(world.occupant(TilePos::new(3, 4), GameLayer::Fences), None);
    assert!(world.despawn(a));
    assert!(!world.despawn(a));
    assert!(!world.despawn(17));
    assert_eq!(world.occupant(TilePos::new(3, 3), GameLayer::Fences), Some(c));
    assert_eq!(world.occupants(GameLayer::Fences), vec![(c, TilePos::new(3, 3))]);
    assert_eq!(world.len(), 3);
    assert!(!world.is_live(a) && world.is_live(b) && !world.is_live(3));
    assert_eq!(world.get(a), None);
    assert_eq!(world.get(3), None);
    assert_eq!(world.get(b).expect("live").layer(), GameLayer::Plants);
    assert_eq!(world.get(c).expect("live").layer(), GameLayer::Fences);
    assert_eq!(fence_at(&mut world, 9, 9), 3);
}
