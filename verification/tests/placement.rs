use garden_sim::map::{Fence, GameLayer, GridConfig, TilePos};
use garden_sim::pests::Pest;
use garden_sim::placement::{
    cleanup_queue, despawn_tiles, place_tile, reset_first_click_supressor, setup_queue, track_click_events,
    try_place, FirstClickSupressor, PendingPlacement, PlacableTile, Placed, Rejected, TileQueue, QUEUE_SIZE,
};
use garden_sim::plants::{Health, Plant, RoundsTillMature};
use garden_sim::world::{Entity, EntityKind, World};
use rand::rngs::StdRng;
use rand::SeedableRng;

fn garden() -> World {
    World::new(GridConfig::standard())
}

#[test]
fn border_and_margin_are_unplaceable_in_every_garden() {
    for size in [0, 1, 4, 5, 9, 12, 16] {
        let mut world = World::new(GridConfig::with_size(size));
        for x in -2..size + 2 {
            for y in -2..size + 2 {
                let inside = 1 < x && x < size - 2 && 1 < y && y < size - 2;
                for tile in [PlacableTile::Radish, PlacableTile::Fence] {
                    assert_eq!(tile.can_place(&world, TilePos::new(x, y)), inside);
                }
                if !inside {
                    let before = world.clone();
                    assert_eq!(
                        try_place(&mut world, TilePos::new(x, y), PlacableTile::Carrot),
                        Err(Rejected::OutsideBounds)
                    );
                    assert_eq!(world, before);
                }
            }
        }
    }
}

#[test]
fn a_wider_margin_shrinks_the_field() {
    let config = GridConfig { map_size: 12, margin: 2 };
    assert!(!config.is_placeable(TilePos::new(2, 5)));
    assert!(config.is_placeable(TilePos::new(3, 3)));
    assert!(config.is_placeable(TilePos::new(8, 8)));
    assert!(!config.is_placeable(TilePos::new(9, 8)));
    let none = GridConfig { map_size: 12, margin: 0 };
    assert!(none.is_placeable(TilePos::new(1, 1)));
    assert!(!none.is_placeable(TilePos::new(0, 1)));
    assert!(none.is_placeable(TilePos::new(10, 10)));
    assert!(!none.is_placeable(TilePos::new(11, 10)));
}

#[test]
fn tiles_become_the_entities_they_stand_for() {
    let mut world = garden();
    let cases = [
        (PlacableTile::Radish, "radish", 1u32, 1i32),
        (PlacableTile::Carrot, "carrot", 2, 2),
        (PlacableTile::Pumpkin, "pumpkin", 6, 4),
    ];
    for (i, (tile, name, value, rounds)) in cases.into_iter().enumerate() {
        let cell = TilePos::new(2 + i as i32, 3);
        assert_eq!(tile.layer(), GameLayer::Plants);
        assert_eq!(tile.sprite(), name);
        assert_eq!(tile.place_on_map(&mut world, cell), (i, name.to_string()));
        assert_eq!(
            world.get(i),
            Some(&Entity {
                pos: cell,
                kind: EntityKind::Plant(Plant {
                    score_value: value,
                    rounds_till_mature: RoundsTillMature(rounds),
                    health: Health(1),
                    is_prize: false,
                }),
            })
        );
    }
    assert_eq!(PlacableTile::Fence.layer(), GameLayer::Fences);
    assert_eq!(PlacableTile::Fence.place_on_map(&mut world, TilePos::new(6, 6)), (3, "fence".to_string()));
    assert_eq!(
        world.get(3),
        Some(&Entity { pos: TilePos::new(6, 6), kind: EntityKind::Fence(Fence { health: Health(1) }) })
    );
}

#[test]
fn a_plant_cannot_go_where_a_plant_stands() {
    let mut world = garden();
    let cell = TilePos::new(4, 4);
    assert_eq!(
        try_place(&mut world, cell, PlacableTile::Radish),
        Ok(Placed::Spawned { handle: 0, sprite: "radish".to_string() })
    );
    let before = world.clone();
    assert!(!PlacableTile::Pumpkin.can_place(&world, cell));
    assert_eq!(try_place(&mut world, cell, PlacableTile::Pumpkin), Err(Rejected::Occupied));
    assert_eq!(world, before);
}

#[test]
fn layers_do_not_stand_in_each_others_way() {
    let mut world = garden();
    let cell = TilePos::new(4, 4);
    world.spawn(Entity { pos: cell, kind: EntityKind::Pest { pest: Pest::rightward_rabbit(), idle: false } });
    assert_eq!(
        try_place(&mut world, cell, PlacableTile::Carrot),
        Ok(Placed::Spawned { handle: 1, sprite: "carrot".to_string() })
    );
    assert_eq!(
        try_place(&mut world, cell, PlacableTile::Fence),
        Ok(Placed::Spawned { handle: 2, sprite: "fence".to_string() })
    );
    assert_eq!(world.occupant(cell, GameLayer::Pests), Some(0));
    assert_eq!(world.occupant(cell, GameLayer::Plants), Some(1));
    assert_eq!(world.occupant(cell, GameLayer::Fences), Some(2));
}

#[test]
fn a_second_fence_on_a_cell_takes_the_first_away() {
    let mut world = garden();
    let cell = TilePos::new(5, 6);
    let start = world.clone();
    assert_eq!(
        try_place(&mut world, cell, PlacableTile::Fence),
        Ok(Placed::Spawned { handle: 0, sprite: "fence".to_string() })
    );
    assert_eq!(world.occupant(cell, GameLayer::Fences), Some(0));
    assert_eq!(try_place(&mut world, cell, PlacableTile::Fence), Ok(Placed::Removed { handle: 0 }));
    assert_eq!(world.occupant(cell, GameLayer::Fences), None);
    assert_eq!(world.occupants(GameLayer::Fences), start.occupants(GameLayer::Fences));
    assert_eq!(
        try_place(&mut world, cell, PlacableTile::Fence),
        Ok(Placed::Spawned { handle: 1, sprite: "fence".to_string() })
    );
}

#[test]
fn a_successful_placement_moves_the_queue_up_by_one() {
    let mut rng = StdRng::seed_from_u64(11);
    let mut world = garden();
    let tiles = vec![
        PlacableTile::Carrot,
        PlacableTile::Fence,
        PlacableTile::Radish,
        PlacableTile::Pumpkin,
        PlacableTile::Fence,
    ];
    let mut queue = TileQueue(tiles.clone());
    let placed = place_tile(&mut world, &mut queue, TilePos::new(3, 3), &mut rng);
    assert_eq!(placed, Ok(Placed::Spawned { handle: 0, sprite: "carrot".to_string() }));
    assert_eq!(queue.0.len(), 5);
    assert_eq!(&queue.0[..4], &tiles[1..]);
    assert_eq!(queue.head(), Some(PlacableTile::Fence));
}

#[test]
fn a_rejected_placement_leaves_queue_and_field_alone() {
    let mut rng = StdRng::seed_from_u64(11);
    let mut world = garden();
    let tiles = vec![PlacableTile::Carrot; 5];
    let mut queue = TileQueue(tiles.clone());
    assert_eq!(place_tile(&mut world, &mut queue, TilePos::new(1, 3), &mut rng), Err(Rejected::OutsideBounds));
    assert_eq!(queue.0, tiles);
    assert_eq!(world, garden());
    place_tile(&mut world, &mut queue, TilePos::new(2, 3), &mut rng).expect("free cell");
    let queue_before = queue.clone();
    let world_before = world.clone();
    if queue.head() != Some(PlacableTile::Fence) {
        assert_eq!(place_tile(&mut world, &mut queue, TilePos::new(2, 3), &mut rng), Err(Rejected::Occupied));
        assert_eq!(queue, queue_before);
        assert_eq!(world, world_before);
    }
}

#[test]
fn queue_advance_drops_the_head_and_appends() {
    let mut queue = TileQueue(vec![PlacableTile::Radish, PlacableTile::Carrot]);
    queue.advance(PlacableTile::Pumpkin);
    assert_eq!(queue.0, vec![PlacableTile::Carrot, PlacableTile::Pumpkin]);
    assert_eq!(TileQueue::new().head(), None);
    assert_eq!(TileQueue::default().0.len(), 0);
}

#[test]
fn the_queue_is_filled_with_five_drawn_tiles() {
    let mut seen = [false; 4];
    for seed in 0..40u64 {
        let mut rng = StdRng::seed_from_u64(seed);
        let mut queue = TileQueue(vec![PlacableTile::Fence; 9]);
        setup_queue(&mut queue, &mut rng);
        assert_eq!(queue.0.len(), QUEUE_SIZE);
        for tile in &queue.0 {
            match tile {
                PlacableTile::Radish => seen[0] = true,
                PlacableTile::Carrot => seen[1] = true,
                PlacableTile::Pumpkin => seen[2] = true,
                PlacableTile::Fence => seen[3] = true,
            }
        }
        cleanup_queue(&mut queue);
        assert!(queue.0.is_empty());
    }
    assert_eq!(seen, [true; 4]);
}

#[test]
fn the_first_pointer_release_is_swallowed() {
    let mut pending = PendingPlacement(None);
    let mut seen = FirstClickSupressor(false);
    track_click_events(&vec![], &mut pending, &mut seen);
    assert_eq!((pending, seen), (PendingPlacement(None), FirstClickSupressor(false)));
    track_click_events(&vec![TilePos::new(3, 3)], &mut pending, &mut seen);
    assert_eq!((pending, seen), (PendingPlacement(None), FirstClickSupressor(true)));
    track_click_events(&vec![TilePos::new(4, 4)], &mut pending, &mut seen);
    assert_eq!(pending, PendingPlacement(Some(TilePos::new(4, 4))));
    track_click_events(&vec![TilePos::new(5, 5), TilePos::new(6, 6)], &mut pending, &mut seen);
    assert_eq!(pending, PendingPlacement(Some(TilePos::new(6, 6))));
    reset_first_click_supressor(&mut seen);
    assert_eq!(seen, FirstClickSupressor(false));
    let mut fresh = PendingPlacement(None);
    track_click_events(&vec![TilePos::new(5, 5), TilePos::new(6, 6)], &mut fresh, &mut seen);
    assert_eq!((fresh, seen), (PendingPlacement(Some(TilePos::new(6, 6))), FirstClickSupressor(true)));
}

#[test]
fn clearing_the_field_removes_everything() {
    let mut world = garden();
    PlacableTile::Radish.place_on_map(&mut world, TilePos::new(3, 3));
    PlacableTile::Fence.place_on_map(&mut world, TilePos::new(4, 3));
    world.despawn(0);
    Pest::upward_wind().spawn(TilePos::new(5, 0), &mut world);
    assert_eq!(despawn_tiles(&mut world), vec![1, 2]);
    assert_eq!(world.len(), 3);
    for handle in 0..3 {
        assert!(!world.is_live(handle));
        assert_eq!(world.get(handle), None);
    }
    assert!(despawn_tiles(&mut world).is_empty());
}

#[test]
fn a_draw_is_made_from_the_four_tiles() {
    assert_eq!(
        PlacableTile::choices(),
        vec![PlacableTile::Radish, PlacableTile::Carrot, PlacableTile::Pumpkin, PlacableTile::Fence]
    );
    for tile in PlacableTile::choices() {
        assert_eq!(PlacableTile::drawn(Some(tile)), tile);
    }
    assert_eq!(PlacableTile::drawn(None), PlacableTile::Radish);
    let mut seen = Vec::new();
    for seed in 0..64u64 {
        let mut rng = StdRng::seed_from_u64(seed);
        let tile = PlacableTile::spawn_random(&mut rng);
        assert!(PlacableTile::choices().contains(&tile));
        if !seen.contains(&tile) {
            seen.push(tile);
        }
    }
    assert_eq!(seen.len(), 4);
}
