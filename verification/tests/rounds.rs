use garden_sim::game::{Game, GameState, PlayerAction, TickReport, PRIZE_SCREEN_MICROS};
use garden_sim::map::{Fence, GameLayer, GridConfig, TilePos};
use garden_sim::pests::Pest;
use garden_sim::placement::{PlacableTile, TileQueue};
use garden_sim::plants::{Health, Plant, RoundsTillMature};
use garden_sim::scoring::Prize;
use garden_sim::turn_structure::{progress_turn, reset_turn_state, TurnState, TurnTimer, PEST_STEP_MICROS};
use garden_sim::world::{Entity, EntityKind};
use rand::rngs::StdRng;
use rand::SeedableRng;

fn new_game() -> Game {
    Game::new(GridConfig::standard(), PEST_STEP_MICROS, PRIZE_SCREEN_MICROS)
}

fn playing(rng: &mut StdRng) -> Game {
    let mut game = new_game();
    game.enter_state(GameState::Menu, rng);
    game.enter_state(GameState::Playing, rng);
    game
}

fn quiet(report: &TickReport) -> bool {
    *report == TickReport::new()
}

fn prize_plant(rounds: i32, health: i32) -> EntityKind {
    EntityKind::Plant(Plant {
        score_value: 60,
        rounds_till_mature: RoundsTillMature(rounds),
        health: Health(health),
        is_prize: true,
    })
}

#[test]
fn the_phases_follow_each_other_in_order() {
    let order = [
        TurnState::Idle,
        TurnState::RoundSetup,
        TurnState::StartOfRound,
        TurnState::PlayerTurn,
    ];
    for pair in order.windows(2) {
        for (timer, done) in [(false, false), (true, false), (false, true), (true, true)] {
            assert_eq!(progress_turn(pair[0], timer, done), pair[1]);
        }
    }
    for timer in [false, true] {
        for done in [false, true] {
            assert_eq!(progress_turn(TurnState::EndOfRound, timer, done), TurnState::RoundCleanup);
            assert_eq!(progress_turn(TurnState::RoundCleanup, timer, done), TurnState::RoundSetup);
        }
        assert_eq!(progress_turn(TurnState::PlayerTurn, timer, false), TurnState::PlayerTurn);
        assert_eq!(progress_turn(TurnState::PlayerTurn, timer, true), TurnState::PestTurnA);
    }
    for done in [false, true] {
        assert_eq!(progress_turn(TurnState::PestTurnA, false, done), TurnState::PestTurnA);
        assert_eq!(progress_turn(TurnState::PestTurnA, true, done), TurnState::PestTurnB);
        assert_eq!(progress_turn(TurnState::PestTurnB, false, done), TurnState::PestTurnB);
        assert_eq!(progress_turn(TurnState::PestTurnB, true, done), TurnState::PestTurnA);
    }
    let mut state = TurnState::PestTurnB;
    reset_turn_state(&mut state);
    assert_eq!(state, TurnState::Idle);
}

#[test]
fn the_timer_fires_at_the_end_of_each_interval() {
    let mut timer = TurnTimer::new(50_000);
    assert_eq!(timer, TurnTimer { period: 50_000, elapsed: 0 });
    assert!(!timer.tick(49_999));
    assert_eq!(timer.elapsed, 49_999);
    assert!(timer.tick(1));
    assert_eq!(timer.elapsed, 0);
    assert!(timer.tick(120_000));
    assert_eq!(timer.elapsed, 20_000);
    assert!(!timer.tick(0));
    assert!(timer.tick(u64::MAX));
    assert_eq!(timer.elapsed, ((20_000u128 + u64::MAX as u128) % 50_000) as u64);
    timer.reset();
    assert_eq!(timer, TurnTimer { period: 50_000, elapsed: 0 });
}

#[test]
fn a_new_game_waits_for_its_assets() {
    let mut rng = StdRng::seed_from_u64(1);
    let mut game = new_game();
    assert_eq!(game.state, GameState::Loading);
    assert_eq!(game.turn, TurnState::Idle);
    assert_eq!(game.world.len(), 0);
    assert!(game.queue.0.is_empty());
    let before = game.clone();
    assert!(quiet(&game.tick(1_000_000, PlayerAction::EndTurn, &mut rng)));
    assert_eq!(game, before);
    assert!(quiet(&game.enter_state(GameState::Loading, &mut rng)));
    assert_eq!(game, before);
    assert!(quiet(&game.quit_to_menu(true)));
    assert_eq!(game, before);
}

#[test]
fn starting_play_lays_out_the_garden_and_fills_the_queue() {
    let mut rng = StdRng::seed_from_u64(2);
    let mut game = new_game();
    assert!(quiet(&game.enter_state(GameState::Menu, &mut rng)));
    game.prize_plant_score.0 = 4;
    let report = game.enter_state(GameState::Playing, &mut rng);
    assert_eq!(game.state, GameState::Playing);
    assert_eq!(game.turn, TurnState::Idle);
    assert_eq!(game.prize_plant_score.0, 0);
    assert_eq!(game.queue.0.len(), 5);
    assert_eq!(report.spawned.len(), 16);
    assert_eq!(report.spawned[0], (0, "fence".to_string()));
    assert_eq!(report.spawned[15], (15, "big_pumpkin4".to_string()));
    assert!(report.despawned.is_empty());
    assert_eq!((report.round_score, report.prize), (None, None));
    assert_eq!(game.world.occupants(GameLayer::Fences).len(), 12);
    assert_eq!(game.world.occupants(GameLayer::Plants).len(), 4);
}

#[test]
fn a_round_runs_from_setup_to_the_players_turn() {
    let mut rng = StdRng::seed_from_u64(3);
    let mut game = playing(&mut rng);
    assert!(quiet(&game.tick(1_000, PlayerAction::Wait, &mut rng)));
    assert_eq!(game.turn, TurnState::RoundSetup);
    let report = game.tick(1_000, PlayerAction::Wait, &mut rng);
    assert_eq!(game.turn, TurnState::StartOfRound);
    assert!(1 <= report.spawned.len() && report.spawned.len() <= 3);
    assert_eq!(game.world.len(), 16 + report.spawned.len());
    for (handle, sprite) in &report.spawned {
        let entity = game.world.get(*handle).expect("pest lives");
        assert!(matches!(entity.kind, EntityKind::Pest { idle: true, .. }));
        assert!(sprite == "rabbit" || sprite == "wind");
    }
    game.first_click_supressor.0 = true;
    assert!(quiet(&game.tick(1_000, PlayerAction::Wait, &mut rng)));
    assert_eq!(game.turn, TurnState::PlayerTurn);
    assert!(!game.first_click_supressor.0);
    assert_eq!(game.turn_timer.elapsed, 3_000);
    let before = game.clone();
    assert!(quiet(&game.tick(0, PlayerAction::Wait, &mut rng)));
    assert_eq!(game, before);
}

#[test]
fn the_first_release_of_a_turn_places_nothing() {
    let mut rng = StdRng::seed_from_u64(4);
    let mut game = playing(&mut rng);
    for _ in 0..3 {
        game.tick(0, PlayerAction::Wait, &mut rng);
    }
    assert_eq!(game.turn, TurnState::PlayerTurn);
    let handles = game.world.len();
    let queue = game.queue.clone();
    assert!(quiet(&game.tick(0, PlayerAction::Release(TilePos::new(2, 2)), &mut rng)));
    assert_eq!(game.turn, TurnState::PlayerTurn);
    assert!(game.first_click_supressor.0);
    assert_eq!(game.world.len(), handles);
    assert_eq!(game.queue, queue);
    let before = game.clone();
    assert!(quiet(&game.tick(0, PlayerAction::Release(TilePos::new(1, 2)), &mut rng)));
    assert_eq!(game, before);
    let head = queue.head().expect("queue is full");
    let report = game.tick(0, PlayerAction::Release(TilePos::new(2, 2)), &mut rng);
    assert_eq!(report.spawned, vec![(handles, head.sprite())]);
    assert_eq!(game.world.get(handles).expect("placed").pos, TilePos::new(2, 2));
    assert_eq!(game.queue.0.len(), 5);
    assert_eq!(&game.queue.0[..4], &queue.0[1..]);
    assert_ne!(game.turn, TurnState::PlayerTurn);
}

#[test]
fn ending_the_turn_hands_over_to_the_pests() {
    let mut rng = StdRng::seed_from_u64(5);
    let mut game = playing(&mut rng);
    game.turn = TurnState::PlayerTurn;
    let rabbit = game.world.spawn(Entity {
        pos: TilePos::new(1, 9),
        kind: EntityKind::Pest { pest: Pest::rightward_rabbit(), idle: false },
    });
    let report = game.tick(10, PlayerAction::EndTurn, &mut rng);
    assert!(quiet(&report));
    assert_eq!(game.turn, TurnState::PestTurnA);
    assert_eq!(game.world.get(rabbit).expect("rabbit lives").pos, TilePos::new(2, 9));
    assert!(quiet(&game.tick(10, PlayerAction::EndTurn, &mut rng)));
    assert_eq!(game.turn, TurnState::PestTurnA);
    assert_eq!(game.world.get(rabbit).expect("rabbit lives").pos, TilePos::new(2, 9));
    assert!(quiet(&game.tick(PEST_STEP_MICROS, PlayerAction::Wait, &mut rng)));
    assert_eq!(game.turn, TurnState::PestTurnB);
    assert_eq!(game.world.get(rabbit).expect("rabbit lives").pos, TilePos::new(2, 9));
    assert!(quiet(&game.tick(PEST_STEP_MICROS, PlayerAction::Release(TilePos::new(3, 3)), &mut rng)));
    assert_eq!(game.turn, TurnState::PestTurnA);
    assert_eq!(game.world.get(rabbit).expect("rabbit lives").pos, TilePos::new(3, 9));
}

#[test]
fn the_round_ends_when_every_pest_is_stuck_and_not_before() {
    let mut rng = StdRng::seed_from_u64(6);
    let mut game = playing(&mut rng);
    game.turn = TurnState::PlayerTurn;
    let rabbit = game.world.spawn(Entity {
        pos: TilePos::new(2, 9),
        kind: EntityKind::Pest { pest: Pest::rightward_rabbit(), idle: false },
    });
    for (x, y) in [(3, 9), (2, 8)] {
        game.world.spawn(Entity { pos: TilePos::new(x, y), kind: EntityKind::Fence(Fence { health: Health(1) }) });
    }
    game.tick(0, PlayerAction::EndTurn, &mut rng);
    assert_eq!(game.turn, TurnState::PestTurnA);
    game.tick(PEST_STEP_MICROS, PlayerAction::Wait, &mut rng);
    game.tick(PEST_STEP_MICROS, PlayerAction::Wait, &mut rng);
    assert_eq!(game.turn, TurnState::PestTurnA);
    game.tick(PEST_STEP_MICROS, PlayerAction::Wait, &mut rng);
    assert_eq!(game.turn, TurnState::PestTurnB);
    let report = game.tick(PEST_STEP_MICROS, PlayerAction::Wait, &mut rng);
    assert_eq!(game.turn, TurnState::EndOfRound);
    assert_eq!(report.round_score, Some(0));
    assert_eq!(report.prize, None);
    assert!(report.despawned.is_empty());
    let report = game.tick(0, PlayerAction::Wait, &mut rng);
    assert_eq!(game.turn, TurnState::RoundCleanup);
    assert_eq!(report.despawned, vec![rabbit]);
    assert!(quiet(&game.tick(0, PlayerAction::Wait, &mut rng)));
    assert_eq!(game.turn, TurnState::RoundSetup);
    assert_eq!(game.state, GameState::Playing);
}

#[test]
fn ripe_crops_are_scored_and_then_harvested() {
    let mut rng = StdRng::seed_from_u64(7);
    let mut game = playing(&mut rng);
    game.turn = TurnState::PlayerTurn;
    game.queue = TileQueue(vec![PlacableTile::Radish; 5]);
    game.first_click_supressor.0 = true;
    let handles = game.world.len();
    let report = game.tick(0, PlayerAction::Release(TilePos::new(2, 2)), &mut rng);
    assert_eq!(report.spawned, vec![(handles, "radish".to_string())]);
    assert_eq!(report.round_score, Some(1));
    assert_eq!(game.turn, TurnState::EndOfRound);
    assert!(game.world.is_live(handles));
    let report = game.tick(0, PlayerAction::Wait, &mut rng);
    assert_eq!(report.despawned, vec![handles]);
    assert_eq!(report.round_score, None);
    assert!(!game.world.is_live(handles));
}

#[test]
fn a_fence_on_a_fence_is_taken_away_and_ends_the_turn() {
    let mut rng = StdRng::seed_from_u64(8);
    let mut game = playing(&mut rng);
    game.turn = TurnState::PlayerTurn;
    game.queue = TileQueue(vec![PlacableTile::Fence; 5]);
    game.first_click_supressor.0 = true;
    let corner = game.world.occupant(TilePos::new(4, 4), GameLayer::Fences).expect("ring corner");
    let report = game.tick(0, PlayerAction::Release(TilePos::new(4, 4)), &mut rng);
    assert!(report.spawned.is_empty());
    assert_eq!(report.despawned, vec![corner]);
    assert_eq!(game.world.occupant(TilePos::new(4, 4), GameLayer::Fences), None);
    assert_eq!(game.turn, TurnState::EndOfRound);
}

#[test]
fn a_ripe_prize_plant_with_health_seven_earns_the_second_prize() {
    let mut rng = StdRng::seed_from_u64(9);
    let mut game = new_game();
    game.enter_state(GameState::Playing, &mut rng);
    assert_eq!(game.world.len(), 0);
    game.turn = TurnState::PlayerTurn;
    let pumpkin = game.world.spawn(Entity { pos: TilePos::new(5, 5), kind: prize_plant(1, 7) });
    let report = game.tick(0, PlayerAction::EndTurn, &mut rng);
    assert_eq!(game.state, GameState::PrizePlantScoring);
    assert_eq!(game.prize_plant_score.0, 7);
    assert_eq!(report.prize, Some(Prize::SecondPrize));
    assert_eq!(report.round_score, Some(0));
    assert_eq!(report.despawned, vec![pumpkin]);
    assert_eq!(game.turn, TurnState::Idle);
    assert!(game.queue.0.is_empty());
    assert!(!game.world.is_live(pumpkin));
}

#[test]
fn the_game_is_lost_when_the_prize_plant_is_gone() {
    let mut rng = StdRng::seed_from_u64(10);
    let mut game = playing(&mut rng);
    game.turn = TurnState::PlayerTurn;
    for (handle, _) in game.world.occupants(GameLayer::Plants) {
        game.world.despawn(handle);
    }
    let report = game.tick(0, PlayerAction::EndTurn, &mut rng);
    assert_eq!(game.state, GameState::PrizePlantScoring);
    assert_eq!(game.prize_plant_score.0, 0);
    assert_eq!(report.prize, Some(Prize::NoPrize));
    assert_eq!(report.despawned.len(), 12);
}

#[test]
fn the_prize_screen_gives_way_to_the_menu() {
    let mut rng = StdRng::seed_from_u64(11);
    let mut game = new_game();
    game.prize_plant_score.0 = 10;
    game.prize_screen_timer.elapsed = 5;
    let report = game.enter_state(GameState::PrizePlantScoring, &mut rng);
    assert_eq!(report.prize, Some(Prize::FirstPrize));
    assert_eq!(game.prize_screen_timer.elapsed, 0);
    assert!(quiet(&game.tick(PRIZE_SCREEN_MICROS - 1, PlayerAction::Wait, &mut rng)));
    assert_eq!(game.state, GameState::PrizePlantScoring);
    assert!(quiet(&game.tick(1, PlayerAction::Wait, &mut rng)));
    assert_eq!(game.state, GameState::Menu);
    assert_eq!(game.prize_plant_score.0, 10);
    game.enter_state(GameState::Playing, &mut rng);
    assert_eq!(game.prize_plant_score.0, 0);
}

#[test]
fn quitting_to_the_menu_clears_the_field() {
    let mut rng = StdRng::seed_from_u64(12);
    let mut game = playing(&mut rng);
    for _ in 0..3 {
        game.tick(0, PlayerAction::Wait, &mut rng);
    }
    game.tick(0, PlayerAction::Release(TilePos::new(2, 2)), &mut rng);
    let live = game.world.len();
    let before = game.clone();
    assert!(quiet(&game.quit_to_menu(false)));
    assert_eq!(game, before);
    let report = game.quit_to_menu(true);
    assert_eq!(game.state, GameState::Menu);
    assert_eq!(game.turn, TurnState::Idle);
    assert!(!game.first_click_supressor.0);
    assert!(game.queue.0.is_empty());
    assert_eq!(report.despawned, (0..live).collect::<Vec<usize>>());
    assert!(game.world.occupants(GameLayer::Fences).is_empty());
    assert!(game.world.occupants(GameLayer::Pests).is_empty());
    let again = game.enter_state(GameState::Playing, &mut rng);
    assert_eq!(again.spawned.len(), 16);
    assert_eq!(again.spawned[0].0, live);
}

#[test]
fn many_rounds_keep_the_queue_full_and_end_in_a_ribbon() {
    for seed in 0..20u64 {
        let mut rng = StdRng::seed_from_u64(seed);
        let mut game = playing(&mut rng);
        let mut cell = 0;
        let mut ticks = 0;
        while game.state == GameState::Playing {
            ticks += 1;
            assert!(ticks < 10_000);
            assert_eq!(game.queue.0.len(), 5);
            let action = if game.turn == TurnState::PlayerTurn {
                cell = (cell + 1) % 64;
                PlayerAction::Release(TilePos::new(2 + cell % 8, 2 + cell / 8))
            } else {
                PlayerAction::Wait
            };
            let report = game.tick(PEST_STEP_MICROS, action, &mut rng);
            if game.state != GameState::Playing {
                assert!(report.prize.is_some());
                assert_eq!(game.turn, TurnState::Idle);
            }
        }
        assert_eq!(game.state, GameState::PrizePlantScoring);
    }
}
