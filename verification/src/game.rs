use vstd::prelude::*;
use rand::rngs::StdRng;
use crate::map::{
    laid_out, laid_out_sprites, lemma_layout_keeps_countdowns, spawn_initial_map, GridConfig, TilePos, LAYOUT_ITEMS,
};
use crate::pests::{
    all_stalled, all_woken, despawn_pests, is_active_pest, maybe_end_pest_turn, move_idle_pests_in, pest_movement,
    pest_pass, round_spawned, spawn_pests,
};
use crate::placement::{
    after_placement, cleanup_queue, despawn_tiles, is_anything, place_tile, reset_first_click_supressor, setup_queue,
    track_click_events, FirstClickSupressor, PendingPlacement, PlacableTile, Placed, TileQueue, QUEUE_SIZE,
};
use crate::plants::{
    all_aged, countdowns_at_least, despawn_mature_plants, fail_out_to_scoring, has_prize_plant, increment_maturity,
    is_mature_plant, ripe_prize, ripe_prize_plant,
};
use crate::scoring::{prize_band, round_score, score, score_prize_plant, Prize, PrizePlantScore};
use crate::turn_structure::{progress_turn, reset_turn_state, TurnState, TurnTimer};
use crate::world::{exclusive, handles_where, live, without, Entity, World};

verus! {

/// The mode the game is in. Rounds run only while it is `Playing`.
#[derive(Copy, Clone, Debug, PartialEq, Eq, Hash, Structural)]
pub enum GameState {
    Loading,
    Playing,
    Menu,
    PrizePlantScoring,
}

/// What the player did in a tick.
#[derive(Copy, Clone, Debug, PartialEq, Eq, Structural)]
pub enum PlayerAction {
    /// Nothing.
    Wait,
    /// The pointer was released over this cell.
    Release(TilePos),
    /// The signal to end the turn without placing.
    EndTurn,
}

/// What a tick hands to the presentation.
#[derive(Clone, Debug, PartialEq, Eq)]
pub struct TickReport {
    /// Entities that need a visual, each with its display tag.
    pub spawned: Vec<(usize, String)>,
    /// Entities that left the simulation.
    pub despawned: Vec<usize>,
    /// The round score, in the tick in which a round ended.
    pub round_score: Option<u128>,
    /// The ribbon, in the tick in which the prize plant was judged.
    pub prize: Option<Prize>,
}

/// A report as plain values.
pub struct ReportView {
    pub spawned: Seq<(usize, String)>,
    pub despawned: Seq<usize>,
    pub round_score: Option<u128>,
    pub prize: Option<Prize>,
}

impl View for TickReport {
    type V = ReportView;

    open spec fn view(&self) -> ReportView {
        ReportView {
            spawned: self.spawned@,
            despawned: self.despawned@,
            round_score: self.round_score,
            prize: self.prize,
        }
    }
}

impl TickReport {
    /// A report of a tick in which nothing happened.
    pub fn new() -> (report: TickReport)
        ensures
            report@ == nothing(),
    {
        TickReport { spawned: Vec::new(), despawned: Vec::new(), round_score: None, prize: None }
    }
}

/// The report of a tick in which nothing happened.
pub open spec fn nothing() -> ReportView {
    ReportView { spawned: Seq::empty(), despawned: Seq::empty(), round_score: None, prize: None }
}

/// Length of the prize screen, in microseconds.
pub const PRIZE_SCREEN_MICROS: u64 = 2_000_000;

/// The whole state of a game.
#[derive(Clone, Debug, PartialEq, Eq)]
pub struct Game {
    pub state: GameState,
    pub turn: TurnState,
    pub turn_timer: TurnTimer,
    pub prize_screen_timer: TurnTimer,
    pub world: World,
    pub queue: TileQueue,
    pub first_click_supressor: FirstClickSupressor,
    pub prize_plant_score: PrizePlantScore,
}

/// A game as plain values.
pub struct GameView {
    pub config: GridConfig,
    pub state: GameState,
    pub turn: TurnState,
    pub turn_timer: TurnTimer,
    pub prize_screen_timer: TurnTimer,
    pub entities: Seq<Option<Entity>>,
    pub queue: Seq<PlacableTile>,
    pub first_click_seen: bool,
    pub prize_plant_score: u32,
}

impl View for Game {
    type V = GameView;

    open spec fn view(&self) -> GameView {
        GameView {
            config: self.world.config,
            state: self.state,
            turn: self.turn,
            turn_timer: self.turn_timer,
            prize_screen_timer: self.prize_screen_timer,
            entities: self.world.entities@,
            queue: self.queue.0@,
            first_click_seen: self.first_click_supressor.0,
            prize_plant_score: self.prize_plant_score.0,
        }
    }
}

/// The timer after `elapsed` microseconds.
pub open spec fn ticked(timer: TurnTimer, elapsed: u64) -> TurnTimer {
    TurnTimer { period: timer.period, elapsed: ((timer.elapsed + elapsed) % (timer.period as int)) as u64 }
}

/// Whether the timer fires within `elapsed` microseconds.
pub open spec fn fires(timer: TurnTimer, elapsed: u64) -> bool {
    timer.elapsed + elapsed >= timer.period
}

/// Leaving play: the phase goes back to `Idle`, the field and the queue are
/// cleared, and the next pointer release will be swallowed again.
pub open spec fn left_play(g: GameView, r: ReportView) -> (GameView, ReportView) {
    (
        GameView {
            turn: TurnState::Idle,
            entities: without(g.entities, is_anything()),
            queue: Seq::empty(),
            first_click_seen: false,
            ..g
        },
        ReportView {
            despawned: r.despawned + handles_where(g.entities, is_anything(), g.entities.len() as int),
            ..r
        },
    )
}

/// Going from play to the judging of the prize plant: play is left, the
/// ribbon for the prize score is reported, and the prize screen starts.
pub open spec fn scoring_entered(g: GameView, r: ReportView) -> (GameView, ReportView) {
    (
        GameView {
            state: GameState::PrizePlantScoring,
            prize_screen_timer: TurnTimer { period: g.prize_screen_timer.period, elapsed: 0 },
            ..left_play(g, r).0
        },
        ReportView { prize: Some(prize_band(g.prize_plant_score)), ..left_play(g, r).1 },
    )
}

/// Entering `EndOfRound`: every plant ages by a round, then the round score
/// is tallied, then the prize plant is looked at. If its countdown has run
/// out, its health becomes the prize score and the game goes to scoring; it
/// also goes there, with the prize score as it stands, if no prize plant is
/// left.
pub open spec fn end_of_round_entered(g: GameView, r: ReportView) -> (GameView, ReportView) {
    let es = all_aged(g.entities);
    let g1 = GameView { turn: TurnState::EndOfRound, entities: es, ..g };
    let r1 = ReportView { round_score: Some(round_score(es, es.len() as int) as u128), ..r };
    match ripe_prize(es, es.len() as int) {
        Some(health) => scoring_entered(GameView { prize_plant_score: health.score(), ..g1 }, r1),
        None => if !has_prize_plant(es) {
            scoring_entered(g1, r1)
        } else {
            (g1, r1)
        },
    }
}

/// Entering `PestTurnA`: one movement pass, and after it the round ends when
/// and only when every live, active pest is stalled.
pub open spec fn pest_turn_entered(g: GameView, r: ReportView) -> (GameView, ReportView) {
    let pass = pest_pass(g.config, g.entities);
    let g1 = GameView { turn: TurnState::PestTurnA, entities: pass.entities, ..g };
    let r1 = ReportView { despawned: r.despawned + pass.despawned, ..r };
    if all_stalled(pass.entities) {
        end_of_round_entered(g1, r1)
    } else {
        (g1, r1)
    }
}

/// Entering `RoundCleanup`: the active pests go, then the plants whose
/// countdown has run out. Should a prize plant be among those, its health
/// becomes the prize score and the game goes to scoring.
pub open spec fn round_cleanup_entered(g: GameView, r: ReportView) -> (GameView, ReportView) {
    let no_pests = without(g.entities, is_active_pest());
    let ripe = ripe_prize(no_pests, no_pests.len() as int);
    let g1 = GameView {
        turn: TurnState::RoundCleanup,
        entities: without(no_pests, is_mature_plant()),
        prize_plant_score: match ripe {
            Some(health) => health.score(),
            None => g.prize_plant_score,
        },
        ..g
    };
    let r1 = ReportView {
        despawned: r.despawned + handles_where(g.entities, is_active_pest(), g.entities.len() as int)
            + handles_where(no_pests, is_mature_plant(), no_pests.len() as int),
        ..r
    };
    if ripe is Some {
        scoring_entered(g1, r1)
    } else {
        (g1, r1)
    }
}

/// What the placement of the head of the queue on `cell` reports: the new
/// entity with its display tag, or the fence that was taken away.
pub open spec fn placement_reported(g: GameView, cell: TilePos, r: ReportView) -> bool {
    if g.entities.len() < after_placement(g.entities, cell, g.queue[0]).len() {
        &&& r.spawned.len() == 1
        &&& r.spawned[0].0 == g.entities.len()
        &&& r.spawned[0].1@ == g.queue[0].sprite_name()
        &&& r == ReportView { spawned: r.spawned, ..nothing() }
    } else {
        &&& r.despawned.len() == 1
        &&& live(g.entities, r.despawned[0] as int)
        &&& after_placement(g.entities, cell, g.queue[0]) == g.entities.update(r.despawned[0] as int, None)
        &&& r == ReportView { despawned: r.despawned, ..nothing() }
    }
}

/// The player's turn. Without an action nothing happens. The signal to end
/// the turn starts the pests' turn. The first pointer release of the turn is
/// swallowed. A later one places the head of the queue on the cell: if the
/// placement is turned down, nothing changes; if it succeeds, the queue moves
/// up by one, a drawn tile joins its tail, and the pests' turn starts.
pub open spec fn player_turn_resolved(g: GameView, action: PlayerAction, post: GameView, report: ReportView) -> bool {
    match action {
        PlayerAction::Wait => (post, report) == (g, nothing()),
        PlayerAction::EndTurn => (post, report) == pest_turn_entered(g, nothing()),
        PlayerAction::Release(cell) => if !g.first_click_seen {
            (post, report) == (GameView { first_click_seen: true, ..g }, nothing())
        } else if !g.queue[0].placeable_on(g.config, g.entities, cell) {
            (post, report) == (g, nothing())
        } else {
            exists|refill: PlacableTile, placed: ReportView| placed_then_pests(g, cell, refill, placed, post, report)
        },
    }
}

/// A successful placement on `cell`, reported as `placed`, with `refill` as
/// the tile that joins the queue, followed by the start of the pests' turn.
pub open spec fn placed_then_pests(
    g: GameView,
    cell: TilePos,
    refill: PlacableTile,
    placed: ReportView,
    post: GameView,
    report: ReportView,
) -> bool {
    placement_reported(g, cell, placed) && (post, report) == pest_turn_entered(
        GameView {
            entities: after_placement(g.entities, cell, g.queue[0]),
            queue: g.queue.drop_first().push(refill),
            ..g
        },
        placed,
    )
}

/// What one tick owes, phase by phase.
pub open spec fn tick_resolved(
    pre: GameView,
    elapsed: u64,
    action: PlayerAction,
    post: GameView,
    report: ReportView,
) -> bool {
    match pre.state {
        GameState::Playing => {
            let g = GameView { turn_timer: ticked(pre.turn_timer, elapsed), ..pre };
            let fired = fires(pre.turn_timer, elapsed);
            match pre.turn {
                TurnState::Idle => (post, report) == (GameView { turn: TurnState::RoundSetup, ..g }, nothing()),
                TurnState::RoundSetup => {
                    &&& post == GameView { turn: TurnState::StartOfRound, entities: post.entities, ..g }
                    &&& round_spawned(g.config, all_woken(g.config, g.entities), post.entities, report.spawned)
                    &&& report == ReportView { spawned: report.spawned, ..nothing() }
                },
                TurnState::StartOfRound => (post, report) == (
                    GameView { turn: TurnState::PlayerTurn, first_click_seen: false, ..g },
                    nothing(),
                ),
                TurnState::PlayerTurn => player_turn_resolved(g, action, post, report),
                TurnState::PestTurnA => (post, report) == (
                    if fired {
                        GameView { turn: TurnState::PestTurnB, ..g }
                    } else {
                        g
                    },
                    nothing(),
                ),
                TurnState::PestTurnB => (post, report) == (if fired {
                    pest_turn_entered(g, nothing())
                } else {
                    (g, nothing())
                }),
                TurnState::EndOfRound => (post, report) == round_cleanup_entered(g, nothing()),
                TurnState::RoundCleanup => (post, report) == (
                    GameView { turn: TurnState::RoundSetup, ..g },
                    nothing(),
                ),
            }
        },
        GameState::PrizePlantScoring => {
            let g = GameView { prize_screen_timer: ticked(pre.prize_screen_timer, elapsed), ..pre };
            (post, report) == (
                if fires(pre.prize_screen_timer, elapsed) {
                    GameView { state: GameState::Menu, ..g }
                } else {
                    g
                },
                nothing(),
            )
        },
        _ => (post, report) == (pre, nothing()),
    }
}

/// What a change of mode owes. Going to the mode the game is in changes
/// nothing. Otherwise: leaving the menu lays out the opening garden and
/// starts the prize score over; leaving play clears field and queue and puts
/// the phase back to `Idle`; entering play fills the queue; entering the
/// judging reports the ribbon and starts the prize screen.
pub open spec fn state_entered(pre: GameView, next: GameState, post: GameView, report: ReportView) -> bool {
    if next == pre.state {
        (post, report) == (pre, nothing())
    } else {
        &&& post.config == pre.config
        &&& post.state == next
        &&& post.turn_timer == pre.turn_timer
        &&& post.turn == (if pre.state == GameState::Playing {
            TurnState::Idle
        } else {
            pre.turn
        })
        &&& post.first_click_seen == (pre.state != GameState::Playing && pre.first_click_seen)
        &&& post.entities == (match pre.state {
            GameState::Menu => laid_out(pre.entities, LAYOUT_ITEMS as int),
            GameState::Playing => without(pre.entities, is_anything()),
            _ => pre.entities,
        })
        &&& post.prize_plant_score == (if pre.state == GameState::Menu {
            0
        } else {
            pre.prize_plant_score
        })
        &&& if next == GameState::Playing {
            post.queue.len() == QUEUE_SIZE
        } else if pre.state == GameState::Playing {
            post.queue == Seq::<PlacableTile>::empty()
        } else {
            post.queue == pre.queue
        }
        &&& post.prize_screen_timer == (if next == GameState::PrizePlantScoring {
            TurnTimer { period: pre.prize_screen_timer.period, elapsed: 0 }
        } else {
            pre.prize_screen_timer
        })
        &&& report.despawned == (if pre.state == GameState::Playing {
            handles_where(pre.entities, is_anything(), pre.entities.len() as int)
        } else {
            Seq::<usize>::empty()
        })
        &&& if pre.state == GameState::Menu {
            &&& report.spawned.len() == laid_out_sprites(pre.entities, LAYOUT_ITEMS as int).len()
            &&& forall|i: int|
                0 <= i < report.spawned.len() ==> (#[trigger] report.spawned[i]).0 == pre.entities.len() + i
                    && report.spawned[i].1@ == laid_out_sprites(pre.entities, LAYOUT_ITEMS as int)[i]
        } else {
            report.spawned == Seq::<(usize, String)>::empty()
        }
        &&& report.round_score is None
        &&& report.prize == (if next == GameState::PrizePlantScoring {
            Some(prize_band(post.prize_plant_score))
        } else {
            None
        })
    }
}

impl Game {
    /// The timers and the field are sound; no two fences share a cell, and no
    /// two plants; during play the queue is full, and outside of play the
    /// phase is `Idle`; no plant on the field is ripe, except during
    /// `EndOfRound`, where a countdown may stand at zero.
    pub open spec fn wf(&self) -> bool {
        &&& self.world.wf()
        &&& exclusive(self.world.entities@)
        &&& self.turn_timer.wf()
        &&& self.prize_screen_timer.wf()
        &&& self.state == GameState::Playing ==> self.queue.0@.len() == QUEUE_SIZE
        &&& self.state != GameState::Playing ==> self.turn == TurnState::Idle
        &&& countdowns_at_least(
            self.world.entities@,
            if self.turn == TurnState::EndOfRound {
                0
            } else {
                1
            },
        )
    }

    /// A game that has not started: still loading, with an empty field. The
    /// pests step every `pest_step` microseconds, and the prize screen stays
    /// for `prize_screen` microseconds.
    pub fn new(config: GridConfig, pest_step: u64, prize_screen: u64) -> (game: Game)
        requires
            config.wf(),
            pest_step > 0,
            prize_screen > 0,
        ensures
            game.wf(),
            game@ == (GameView {
                config,
                state: GameState::Loading,
                turn: TurnState::Idle,
                turn_timer: TurnTimer { period: pest_step, elapsed: 0 },
                prize_screen_timer: TurnTimer { period: prize_screen, elapsed: 0 },
                entities: Seq::empty(),
                queue: Seq::empty(),
                first_click_seen: false,
                prize_plant_score: 0,
            }),
    {
        let game = Game {
            state: GameState::Loading,
            turn: TurnState::Idle,
            turn_timer: TurnTimer::new(pest_step),
            prize_screen_timer: TurnTimer::new(prize_screen),
            world: World::new(config),
            queue: TileQueue::new(),
            first_click_supressor: FirstClickSupressor(false),
            prize_plant_score: PrizePlantScore(0),
        };
        assert(game@.queue =~= Seq::empty());
        game
    }

    fn leave_play(&mut self, report: &mut TickReport)
        requires
            old(self).world.config.wf(),
        ensures
            (final(self)@, final(report)@) == left_play(old(self)@, old(report)@),
            final(self).world.wf(),
            exclusive(final(self).world.entities@),
            countdowns_at_least(final(self).world.entities@, 1),
    {
        cleanup_queue(&mut self.queue);
        let mut despawned = despawn_tiles(&mut self.world);
        report.despawned.append(&mut despawned);
        reset_first_click_supressor(&mut self.first_click_supressor);
        reset_turn_state(&mut self.turn);
        assert(self.queue.0@ =~= Seq::<PlacableTile>::empty());
    }

    fn enter_scoring(&mut self, report: &mut TickReport)
        requires
            old(self).world.config.wf(),
            old(self).turn_timer.wf(),
            old(self).prize_screen_timer.wf(),
        ensures
            (final(self)@, final(report)@) == scoring_entered(old(self)@, old(report)@),
            final(self).wf(),
    {
        self.leave_play(report);
        self.state = GameState::PrizePlantScoring;
        self.prize_screen_timer.reset();
        report.prize = Some(score_prize_plant(&self.prize_plant_score));
    }

    fn enter_end_of_round(&mut self, report: &mut TickReport)
        requires
            old(self).wf(),
            old(self).state == GameState::Playing,
            countdowns_at_least(old(self).world.entities@, 1),
        ensures
            (final(self)@, final(report)@) == end_of_round_entered(old(self)@, old(report)@),
            final(self).wf(),
    {
        self.turn = TurnState::EndOfRound;
        increment_maturity(&mut self.world);
        report.round_score = Some(score(&self.world));
        proof {
            let es = self.world.entities@;
            assert forall|h: int| live(es, h) && (#[trigger] es[h])->0.kind is Plant implies es[h]->0.kind->Plant_0.rounds_till_mature.0
                >= 0 by {
                assert(live(old(self).world.entities@, h) && old(self).world.entities@[h]->0.kind is Plant);
            }
        }
        match ripe_prize_plant(&self.world) {
            Some(health) => {
                self.prize_plant_score.0 = health.as_score();
                self.enter_scoring(report);
            },
            None => {
                if fail_out_to_scoring(&self.world) {
                    self.enter_scoring(report);
                }
            },
        }
    }

    fn enter_pest_turn(&mut self, report: &mut TickReport)
        requires
            old(self).wf(),
            old(self).state == GameState::Playing,
            old(self).turn != TurnState::EndOfRound,
        ensures
            (final(self)@, final(report)@) == pest_turn_entered(old(self)@, old(report)@),
            final(self).wf(),
    {
        self.turn = TurnState::PestTurnA;
        let mut despawned = pest_movement(&mut self.world);
        report.despawned.append(&mut despawned);
        proof {
            let before = old(self).world.entities@;
            let es = self.world.entities@;
            assert forall|h: int| live(es, h) && (#[trigger] es[h])->0.kind is Plant implies es[h]->0.kind->Plant_0.rounds_till_mature.0
                >= 1 by {
                assert(live(before, h) && before[h]->0.kind is Plant);
            }
        }
        if maybe_end_pest_turn(&self.world) {
            self.enter_end_of_round(report);
        }
    }

    fn enter_round_cleanup(&mut self, report: &mut TickReport)
        requires
            old(self).wf(),
            old(self).state == GameState::Playing,
        ensures
            (final(self)@, final(report)@) == round_cleanup_entered(old(self)@, old(report)@),
            final(self).wf(),
    {
        self.turn = TurnState::RoundCleanup;
        let mut pests = despawn_pests(&mut self.world);
        report.despawned.append(&mut pests);
        let (mut plants, to_scoring) = despawn_mature_plants(&mut self.world, &mut self.prize_plant_score);
        report.despawned.append(&mut plants);
        if to_scoring {
            self.enter_scoring(report);
        }
    }
}

impl Game {
    /// Changes the mode of the game and does what leaving the old mode and
    /// entering the new one call for.
    pub fn enter_state(&mut self, next: GameState, rng: &mut StdRng) -> (report: TickReport)
        requires
            old(self).wf(),
        ensures
            final(self).wf(),
            state_entered(old(self)@, next, final(self)@, report@),
    {
        let mut report = TickReport::new();
        if next == self.state {
            return report;
        }
        match self.state {
            GameState::Menu => {
                proof {
                    lemma_layout_keeps_countdowns(self.world.entities@, LAYOUT_ITEMS as int, 1);
                }
                report.spawned = spawn_initial_map(&mut self.world, &mut self.prize_plant_score);
            },
            GameState::Playing => {
                self.leave_play(&mut report);
            },
            _ => {},
        }
        self.state = next;
        match next {
            GameState::Playing => {
                setup_queue(&mut self.queue, rng);
            },
            GameState::PrizePlantScoring => {
                self.prize_screen_timer.reset();
                report.prize = Some(score_prize_plant(&self.prize_plant_score));
            },
            _ => {},
        }
        report
    }

    /// Leaves play for the menu when the player asked for it. Outside of
    /// play, and without the request, nothing happens.
    pub fn quit_to_menu(&mut self, escape_pressed: bool) -> (report: TickReport)
        requires
            old(self).wf(),
        ensures
            final(self).wf(),
            escape_pressed && old(self).state == GameState::Playing ==> state_entered(
                old(self)@,
                GameState::Menu,
                final(self)@,
                report@,
            ),
            !(escape_pressed && old(self).state == GameState::Playing) ==> (final(self)@, report@) == (
                old(self)@,
                nothing(),
            ),
    {
        let mut report = TickReport::new();
        if escape_pressed && self.state == GameState::Playing {
            self.leave_play(&mut report);
            self.state = GameState::Menu;
        }
        report
    }

    /// Advances the game by one scheduling pass: `elapsed` microseconds went
    /// by and the player did `action`. Returns what the presentation has to
    /// show or take away.
    pub fn tick(&mut self, elapsed: u64, action: PlayerAction, rng: &mut StdRng) -> (report: TickReport)
        requires
            old(self).wf(),
        ensures
            final(self).wf(),
            tick_resolved(old(self)@, elapsed, action, final(self)@, report@),
    {
        let mut report = TickReport::new();
        match self.state {
            GameState::Playing => {
                let fired = self.turn_timer.tick(elapsed);
                let ghost g = self@;
                match self.turn {
                    TurnState::Idle | TurnState::RoundCleanup | TurnState::PestTurnA => {
                        self.turn = progress_turn(self.turn, fired, false);
                    },
                    TurnState::RoundSetup => {
                        let ghost before = self.world.entities@;
                        move_idle_pests_in(&mut self.world);
                        report.spawned = spawn_pests(&mut self.world, rng);
                        self.turn = progress_turn(self.turn, fired, false);
                        proof {
                            let es = self.world.entities@;
                            let woken = all_woken(self.world.config, before);
                            assert forall|h: int| live(es, h) && (#[trigger] es[h])->0.kind is Plant implies es[h]->0.kind->Plant_0.rounds_till_mature.0
                                >= 1 by {
                                if h < woken.len() {
                                    assert(es[h] == es.subrange(0, woken.len() as int)[h]);
                                    assert(live(before, h) && before[h]->0.kind is Plant);
                                }
                            }
                        }
                    },
                    TurnState::StartOfRound => {
                        self.turn = progress_turn(self.turn, fired, false);
                        reset_first_click_supressor(&mut self.first_click_supressor);
                    },
                    TurnState::PlayerTurn => {
                        let mut released: Vec<TilePos> = Vec::new();
                        let mut player_done = false;
                        match action {
                            PlayerAction::Release(cell) => {
                                released.push(cell);
                            },
                            PlayerAction::EndTurn => {
                                player_done = true;
                            },
                            PlayerAction::Wait => {},
                        }
                        let mut pending = PendingPlacement(None);
                        track_click_events(&released, &mut pending, &mut self.first_click_supressor);
                        if let Some(cell) = pending.0 {
                            let ghost before = self.world.entities@;
                            match place_tile(&mut self.world, &mut self.queue, cell, rng) {
                                Ok(Placed::Spawned { handle, sprite }) => {
                                    report.spawned.push((handle, sprite));
                                    player_done = true;
                                },
                                Ok(Placed::Removed { handle }) => {
                                    report.despawned.push(handle);
                                    player_done = true;
                                },
                                Err(_) => {},
                            }
                            proof {
                                if player_done {
                                    let es = self.world.entities@;
                                    assert forall|h: int| live(es, h) && (#[trigger] es[h])->0.kind is Plant implies es[h]->0.kind->Plant_0.rounds_till_mature.0
                                        >= 1 by {
                                        if h < before.len() {
                                            assert(live(before, h) && before[h]->0.kind is Plant);
                                        }
                                    }
                                }
                            }
                        }
                        if player_done {
                            let ghost placed = report@;
                            let ghost mid = self@;
                            self.enter_pest_turn(&mut report);
                            proof {
                                if action is Release {
                                    let refill = mid.queue.last();
                                    assert(mid.queue =~= g.queue.drop_first().push(refill));
                                    assert(mid == GameView {
                                        entities: after_placement(g.entities, action->Release_0, g.queue[0]),
                                        queue: g.queue.drop_first().push(refill),
                                        ..g
                                    });
                                    assert(placement_reported(g, action->Release_0, placed));
                                    assert(placed_then_pests(g, action->Release_0, refill, placed, self@, report@));
                                }
                            }
                        }
                    },
                    TurnState::PestTurnB => {
                        if fired {
                            self.enter_pest_turn(&mut report);
                        }
                    },
                    TurnState::EndOfRound => {
                        self.enter_round_cleanup(&mut report);
                    },
                }
            },
            GameState::PrizePlantScoring => {
                if self.prize_screen_timer.tick(elapsed) {
                    self.state = GameState::Menu;
                }
            },
            _ => {},
        }
        report
    }
}


/// The start of the pests' turn ends the round when and only when, after the
/// movement pass, every live, active pest is stalled. Then, and only then,
/// the phase moves on from `PestTurnA`: to `EndOfRound`, or out of play to
/// the judging of the prize plant; and then, and only then, a round score is
/// reported.
pub proof fn lemma_round_ends_when_all_stalled(g: GameView, r: ReportView)
    requires
        g.state == GameState::Playing,
        r.round_score is None,
    ensures
        all_stalled(pest_pass(g.config, g.entities).entities) <==> pest_turn_entered(g, r).0.turn
            != TurnState::PestTurnA,
        all_stalled(pest_pass(g.config, g.entities).entities) <==> pest_turn_entered(g, r).0.turn
            == TurnState::EndOfRound || pest_turn_entered(g, r).0.state == GameState::PrizePlantScoring,
        all_stalled(pest_pass(g.config, g.entities).entities) <==> pest_turn_entered(g, r).1.round_score is Some,
{
}

} // verus!
