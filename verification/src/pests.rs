use vstd::prelude::*;
use std::collections::HashMap;
use crate::map::{GameLayer, GridConfig, TilePos};
use rand::rngs::StdRng;
use crate::rng::{choose_cells, draw_between, draw_ratio};
use crate::world::{
    entities_wf, exclusive, handles_where, lemma_without_keeps_exclusive, live, without, Entity, EntityKind, World,
};

verus! {

/// Number of passes in a row a pest must fail to move before it counts as
/// permanently blocked.
pub const STALL_LIMIT: usize = 3;

/// A pest: something that walks the garden along a repeating pattern of steps
/// and eats what it finds on its consumption layer.
#[derive(Clone, Debug, PartialEq, Eq)]
pub struct Pest {
    /// The steps, replayed cyclically. Never empty.
    pub pattern: Vec<TilePos>,
    /// Index into `pattern` of the next step to take.
    pub move_idx: usize,
    /// Passes in a row in which the pest failed to move.
    pub ticks_since_move: usize,
    /// Whether an occupant it cannot eat stops it.
    pub is_blocking: bool,
    /// Display tag.
    pub sprite: String,
    /// The layer it eats.
    pub consumption_layer: GameLayer,
    /// Whether eating uses the pest up.
    pub stop_after_consumption: bool,
}

/// The stall counter after one more failed move. It stops at the machine limit.
pub open spec fn stall_after(ticks: usize) -> usize {
    if ticks < usize::MAX {
        (ticks + 1) as usize
    } else {
        ticks
    }
}

impl Pest {
    /// The pattern is not empty and the cursor points into it.
    pub open spec fn wf(self) -> bool {
        0 <= self.move_idx < self.pattern@.len()
    }

    /// The step the pest takes next.
    pub open spec fn next_step(self) -> TilePos {
        self.pattern@[self.move_idx as int]
    }

    /// The cursor after one resolution, successful or not.
    pub open spec fn next_idx(self) -> usize {
        ((self.move_idx + 1) % (self.pattern@.len() as int)) as usize
    }

    /// The pest after a resolution in which it moved.
    pub open spec fn after_move(self) -> Pest {
        Pest { move_idx: self.next_idx(), ticks_since_move: 0, ..self }
    }

    /// The pest after a resolution in which it was held back.
    pub open spec fn after_stall(self) -> Pest {
        Pest { move_idx: self.next_idx(), ticks_since_move: stall_after(self.ticks_since_move), ..self }
    }

    /// Whether the pest has been held back long enough to count as blocked for good.
    pub open spec fn is_stalled(self) -> bool {
        self.ticks_since_move >= STALL_LIMIT
    }

    /// What every freshly made pest of the two breeds has in common.
    pub open spec fn fresh(self, pattern: Seq<TilePos>, sprite: Seq<char>, is_blocking: bool, eats: GameLayer) -> bool {
        &&& self.pattern@ =~= pattern
        &&& self.move_idx == 0
        &&& self.ticks_since_move == 0
        &&& self.is_blocking == is_blocking
        &&& self.sprite@ == sprite
        &&& self.consumption_layer == eats
        &&& self.stop_after_consumption
    }

    /// A rabbit is a blocking plant eater that repeats `a, a, b`.
    pub open spec fn is_rabbit(self, a: TilePos, b: TilePos) -> bool {
        self.fresh(seq![a, a, b], "rabbit"@, true, GameLayer::Plants)
    }

    /// A gust of wind is a non-blocking fence eater that repeats `a`.
    pub open spec fn is_wind(self, a: TilePos) -> bool {
        self.fresh(seq![a], "wind"@, false, GameLayer::Fences)
    }

    /// A rabbit that enters from the left: two steps right, then one down.
    pub fn rightward_rabbit() -> (pest: Pest)
        ensures
            pest.is_rabbit(TilePos { x: 1, y: 0 }, TilePos { x: 0, y: -1i32 }),
            pest.wf(),
    {
        Pest {
            pattern: vec![TilePos::new(1, 0), TilePos::new(1, 0), TilePos::new(0, -1)],
            move_idx: 0,
            ticks_since_move: 0,
            sprite: "rabbit".to_string(),
            is_blocking: true,
            consumption_layer: GameLayer::Plants,
            stop_after_consumption: true,
        }
    }

    /// A rabbit that enters from the right: two steps left, then one up.
    pub fn leftward_rabbit() -> (pest: Pest)
        ensures
            pest.is_rabbit(TilePos { x: -1i32, y: 0 }, TilePos { x: 0, y: 1 }),
            pest.wf(),
    {
        Pest {
            pattern: vec![TilePos::new(-1, 0), TilePos::new(-1, 0), TilePos::new(0, 1)],
            move_idx: 0,
            ticks_since_move: 0,
            sprite: "rabbit".to_string(),
            is_blocking: true,
            consumption_layer: GameLayer::Plants,
            stop_after_consumption: true,
        }
    }

    /// A rabbit that enters from below: two steps up, then one right.
    pub fn upward_rabbit() -> (pest: Pest)
        ensures
            pest.is_rabbit(TilePos { x: 0, y: 1 }, TilePos { x: 1, y: 0 }),
            pest.wf(),
    {
        Pest {
            pattern: vec![TilePos::new(0, 1), TilePos::new(0, 1), TilePos::new(1, 0)],
            move_idx: 0,
            ticks_since_move: 0,
            sprite: "rabbit".to_string(),
            is_blocking: true,
            consumption_layer: GameLayer::Plants,
            stop_after_consumption: true,
        }
    }

    /// A rabbit that enters from above: two steps down, then one left.
    pub fn downward_rabbit() -> (pest: Pest)
        ensures
            pest.is_rabbit(TilePos { x: 0, y: -1i32 }, TilePos { x: -1i32, y: 0 }),
            pest.wf(),
    {
        Pest {
            pattern: vec![TilePos::new(0, -1), TilePos::new(0, -1), TilePos::new(-1, 0)],
            move_idx: 0,
            ticks_since_move: 0,
            sprite: "rabbit".to_string(),
            is_blocking: true,
            consumption_layer: GameLayer::Plants,
            stop_after_consumption: true,
        }
    }

    /// A gust of wind that blows straight down.
    pub fn downward_wind() -> (pest: Pest)
        ensures
            pest.is_wind(TilePos { x: 0, y: -1i32 }),
            pest.wf(),
    {
        Pest {
            pattern: vec![TilePos::new(0, -1)],
            move_idx: 0,
            ticks_since_move: 0,
            sprite: "wind".to_string(),
            is_blocking: false,
            consumption_layer: GameLayer::Fences,
            stop_after_consumption: true,
        }
    }

    /// A gust of wind that blows straight up.
    pub fn upward_wind() -> (pest: Pest)
        ensures
            pest.is_wind(TilePos { x: 0, y: 1 }),
            pest.wf(),
    {
        Pest {
            pattern: vec![TilePos::new(0, 1)],
            move_idx: 0,
            ticks_since_move: 0,
            sprite: "wind".to_string(),
            is_blocking: false,
            consumption_layer: GameLayer::Fences,
            stop_after_consumption: true,
        }
    }

    /// A gust of wind that blows straight to the left.
    pub fn leftward_wind() -> (pest: Pest)
        ensures
            pest.is_wind(TilePos { x: -1i32, y: 0 }),
            pest.wf(),
    {
        Pest {
            pattern: vec![TilePos::new(-1, 0)],
            move_idx: 0,
            ticks_since_move: 0,
            sprite: "wind".to_string(),
            is_blocking: false,
            consumption_layer: GameLayer::Fences,
            stop_after_consumption: true,
        }
    }

    /// A gust of wind that blows straight to the right.
    pub fn rightward_wind() -> (pest: Pest)
        ensures
            pest.is_wind(TilePos { x: 1, y: 0 }),
            pest.wf(),
    {
        Pest {
            pattern: vec![TilePos::new(1, 0)],
            move_idx: 0,
            ticks_since_move: 0,
            sprite: "wind".to_string(),
            is_blocking: false,
            consumption_layer: GameLayer::Fences,
            stop_after_consumption: true,
        }
    }
}

/// One entry of the occupancy snapshot: who stands on a cell, and on which layer.
#[derive(Copy, Clone, Debug, PartialEq, Eq, Structural)]
pub struct Occupant {
    pub handle: usize,
    pub layer: GameLayer,
}

/// The occupancy snapshot of a movement pass: at most one occupant per cell.
pub type Snapshot = Map<TilePos, Occupant>;

/// How the resolution of one pest ends.
pub enum MoveOutcome {
    /// The step leads off the grid: the pest is gone.
    LeftGrid,
    /// The cell holds something the pest eats: the occupant is gone and the
    /// pest stands in its place.
    Ate { victim: usize },
    /// The cell holds something else and the pest is a blocking one: it stays.
    Stalled,
    /// The cell is free, or the pest does not care: it moves.
    Moved,
}

/// The state a movement pass threads from one pest to the next.
pub struct PassState {
    pub entities: Seq<Option<Entity>>,
    pub snapshot: Snapshot,
    /// Handles of the entities removed so far, in the order of their removal.
    pub despawned: Seq<usize>,
}

/// Whether an entity is entered into the snapshot at the start of a pass.
/// Blocking pests are not: they only appear in it once they have moved.
pub open spec fn joins_snapshot(e: Entity) -> bool {
    !(e.kind matches EntityKind::Pest { pest, .. } && pest.is_blocking)
}

/// The snapshot built from the first `n` handles. Where several entities
/// share a cell, the one with the highest handle is recorded.
pub open spec fn snapshot_of(es: Seq<Option<Entity>>, n: int) -> Snapshot
    decreases n,
{
    if n <= 0 {
        Map::empty()
    } else {
        let rest = snapshot_of(es, n - 1);
        match es[n - 1] {
            Some(e) => if joins_snapshot(e) {
                rest.insert(e.pos, Occupant { handle: (n - 1) as usize, layer: e.layer() })
            } else {
                rest
            },
            None => rest,
        }
    }
}

/// The cell a pest at `pos` steps to next, as unbounded integers.
pub open spec fn target(pos: TilePos, pest: Pest) -> (int, int) {
    (pos.x + pest.next_step().x, pos.y + pest.next_step().y)
}

/// The target cell as a coordinate; meaningful where the target is on the grid.
pub open spec fn target_cell(pos: TilePos, pest: Pest) -> TilePos {
    TilePos { x: target(pos, pest).0 as i32, y: target(pos, pest).1 as i32 }
}

/// Decides what happens to a pest at `pos`, given the snapshot.
pub open spec fn move_outcome(config: GridConfig, snapshot: Snapshot, pos: TilePos, pest: Pest) -> MoveOutcome {
    let dest = target_cell(pos, pest);
    if !config.contains(target(pos, pest).0, target(pos, pest).1) {
        MoveOutcome::LeftGrid
    } else if !snapshot.contains_key(dest) {
        MoveOutcome::Moved
    } else if snapshot[dest].layer == pest.consumption_layer {
        MoveOutcome::Ate { victim: snapshot[dest].handle }
    } else if pest.is_blocking {
        MoveOutcome::Stalled
    } else {
        MoveOutcome::Moved
    }
}

/// Removes the entity behind `h`, if it is still there, and records it.
pub open spec fn kill(st: PassState, h: usize) -> PassState {
    if live(st.entities, h as int) {
        PassState { entities: st.entities.update(h as int, None), despawned: st.despawned.push(h), ..st }
    } else {
        st
    }
}

/// Moves pest `h` onto `dest`: its stall counter starts over, and the snapshot
/// now shows it there.
pub open spec fn arrive(st: PassState, h: usize, dest: TilePos, pest: Pest) -> PassState {
    PassState {
        entities: st.entities.update(
            h as int,
            Some(Entity { pos: dest, kind: EntityKind::Pest { pest: pest.after_move(), idle: false } }),
        ),
        snapshot: st.snapshot.insert(dest, Occupant { handle: h, layer: GameLayer::Pests }),
        ..st
    }
}

/// Keeps pest `h` where it is and counts the failed move.
pub open spec fn hold_back(st: PassState, h: usize, pos: TilePos, pest: Pest) -> PassState {
    PassState {
        entities: st.entities.update(
            h as int,
            Some(Entity { pos, kind: EntityKind::Pest { pest: pest.after_stall(), idle: false } }),
        ),
        ..st
    }
}

/// Resolves the entity behind `h`. Anything but a live, active pest is left alone.
pub open spec fn resolve_pest(config: GridConfig, st: PassState, h: usize) -> PassState {
    if live(st.entities, h as int) && st.entities[h as int]->0.is_active_pest() {
        let pos = st.entities[h as int]->0.pos;
        let pest = st.entities[h as int]->0.kind->pest;
        let dest = target_cell(pos, pest);
        match move_outcome(config, st.snapshot, pos, pest) {
            MoveOutcome::LeftGrid => kill(st, h),
            MoveOutcome::Ate { victim } => {
                let eaten = kill(arrive(st, h, dest, pest), victim);
                if pest.stop_after_consumption {
                    kill(eaten, h)
                } else {
                    eaten
                }
            },
            MoveOutcome::Stalled => hold_back(st, h, pos, pest),
            MoveOutcome::Moved => arrive(st, h, dest, pest),
        }
    } else {
        st
    }
}

/// The state after the first `n` handles have been resolved, in handle order.
pub open spec fn resolve_upto(config: GridConfig, st: PassState, n: int) -> PassState
    decreases n,
{
    if n <= 0 {
        st
    } else {
        resolve_pest(config, resolve_upto(config, st, n - 1), (n - 1) as usize)
    }
}

/// The state a pass starts from.
pub open spec fn pass_start(es: Seq<Option<Entity>>) -> PassState {
    PassState { entities: es, snapshot: snapshot_of(es, es.len() as int), despawned: Seq::empty() }
}

/// One full movement pass over the arena.
pub open spec fn pest_pass(config: GridConfig, es: Seq<Option<Entity>>) -> PassState {
    resolve_upto(config, pass_start(es), es.len() as int)
}

/// The lookup table agrees with the snapshot, cell by cell.
pub open spec fn table_matches(table: Map<u64, Occupant>, snapshot: Snapshot) -> bool {
    forall|pos: TilePos|
        #![trigger pos.key()]
        table.contains_key(pos.key()) == snapshot.contains_key(pos) && (snapshot.contains_key(pos)
            ==> table[pos.key()] == snapshot[pos])
}

proof fn lemma_table_insert(table: Map<u64, Occupant>, snapshot: Snapshot, pos: TilePos, occ: Occupant)
    requires
        table_matches(table, snapshot),
    ensures
        table_matches(table.insert(pos.key(), occ), snapshot.insert(pos, occ)),
{
    assert forall|p: TilePos| #![trigger p.key()]
        table.insert(pos.key(), occ).contains_key(p.key()) == snapshot.insert(pos, occ).contains_key(p) && (
        snapshot.insert(pos, occ).contains_key(p) ==> table.insert(pos.key(), occ)[p.key()] == snapshot.insert(
            pos,
            occ,
        )[p]) by {
        TilePos::lemma_key_injective(p, pos);
    }
}

/// Builds the occupancy snapshot of the arena as a lookup table.
fn build_snapshot(world: &World) -> (table: HashMap<u64, Occupant>)
    ensures
        table_matches(table@, snapshot_of(world.entities@, world.entities@.len() as int)),
{
    let mut table: HashMap<u64, Occupant> = HashMap::with_capacity(10);
    let n = world.entities.len();
    let mut h: usize = 0;
    while h < n
        invariant
            n == world.entities@.len(),
            h <= n,
            table_matches(table@, snapshot_of(world.entities@, h as int)),
        decreases n - h,
    {
        match &world.entities[h] {
            Some(e) => {
                let exempt = match &e.kind {
                    EntityKind::Pest { pest, .. } => pest.is_blocking,
                    _ => false,
                };
                if !exempt {
                    let occ = Occupant { handle: h, layer: e.layer() };
                    proof {
                        lemma_table_insert(table@, snapshot_of(world.entities@, h as int), e.pos, occ);
                    }
                    table.insert(e.pos.to_key(), occ);
                }
            },
            None => {},
        }
        h += 1;
    }
    table
}

/// Runs one movement pass: every live, active pest takes one step along its
/// pattern, in handle order, against a snapshot of the occupancy that is
/// brought up to date after each move. Returns the handles of the entities
/// that left the simulation, in the order in which they left.
pub fn pest_movement(world: &mut World) -> (despawned: Vec<usize>)
    requires
        old(world).wf(),
    ensures
        final(world).entities@ == pest_pass(old(world).config, old(world).entities@).entities,
        despawned@ == pest_pass(old(world).config, old(world).entities@).despawned,
        pests_only_changed(old(world).entities@, final(world).entities@),
        final(world).config == old(world).config,
        final(world).wf(),
        exclusive(old(world).entities@) ==> exclusive(final(world).entities@),
{
    let n = world.entities.len();
    let config = world.config;
    proof {
        lemma_pass_changes_pests_only(config, world.entities@);
        if exclusive(world.entities@) {
            lemma_pass_keeps_exclusive(config, world.entities@);
        }
    }
    let mut table = build_snapshot(world);
    let mut despawned: Vec<usize> = Vec::new();
    let ghost start = pass_start(world.entities@);
    let ghost mut st = start;
    let mut h: usize = 0;
    while h < n
        invariant
            n == world.entities@.len(),
            h <= n,
            config == world.config,
            st == resolve_upto(config, start, h as int),
            st.entities == world.entities@,
            st.despawned == despawned@,
            table_matches(table@, st.snapshot),
            world.wf(),
        decreases n - h,
    {
        let ghost before = st;
        assert(world.entities@[h as int] is Some ==> world.entities@[h as int]->0.wf());
        let seen = match &world.entities[h] {
            Some(e) => match &e.kind {
                EntityKind::Pest { pest, idle } => {
                    if !*idle {
                        let step = pest.pattern[pest.move_idx];
                        let len = pest.pattern.len();
                        let next_idx = (pest.move_idx + 1) % len;
                        Some(
                            (
                                e.pos,
                                step,
                                next_idx,
                                pest.ticks_since_move,
                                pest.is_blocking,
                                pest.consumption_layer,
                                pest.stop_after_consumption,
                            ),
                        )
                    } else {
                        None
                    }
                },
                _ => None,
            },
            None => None,
        };
        if let Some((pos, step, next_idx, ticks, is_blocking, eats, stops)) = seen {
            let ghost pest = world.entities@[h as int]->0.kind->pest;
            let tx: i64 = pos.x as i64 + step.x as i64;
            let ty: i64 = pos.y as i64 + step.y as i64;
            if config.in_bounds(tx, ty) {
                let dest = TilePos { x: tx as i32, y: ty as i32 };
                let key = dest.to_key();
                let found: Option<Occupant> = match table.get(&key) {
                    Some(occ) => Some(*occ),
                    None => None,
                };
                let victim: Option<usize> = match found {
                    Some(occ) => if occ.layer == eats {
                        Some(occ.handle)
                    } else {
                        None
                    },
                    None => None,
                };
                let did_move = found.is_none() || victim.is_some() || !is_blocking;
                if did_move {
                    match &mut world.entities[h] {
                        Some(e) => {
                            match &mut e.kind {
                                EntityKind::Pest { pest, .. } => {
                                    pest.move_idx = next_idx;
                                    pest.ticks_since_move = 0;
                                },
                                _ => {},
                            }
                            e.pos = dest;
                        },
                        None => {},
                    }
                    let here = Occupant { handle: h, layer: GameLayer::Pests };
                    proof {
                        lemma_table_insert(table@, st.snapshot, dest, here);
                        st = arrive(st, h, dest, pest);
                    }
                    table.insert(key, here);
                    if let Some(v) = victim {
                        if world.despawn(v) {
                            despawned.push(v);
                        }
                        proof {
                            st = kill(st, v);
                        }
                        if stops {
                            if world.despawn(h) {
                                despawned.push(h);
                            }
                            proof {
                                st = kill(st, h);
                            }
                        }
                    }
                } else {
                    let bumped = if ticks < usize::MAX {
                        ticks + 1
                    } else {
                        ticks
                    };
                    match &mut world.entities[h] {
                        Some(e) => {
                            match &mut e.kind {
                                EntityKind::Pest { pest, .. } => {
                                    pest.move_idx = next_idx;
                                    pest.ticks_since_move = bumped;
                                },
                                _ => {},
                            }
                        },
                        None => {},
                    }
                    proof {
                        st = hold_back(st, h, pos, pest);
                    }
                }
            } else {
                if world.despawn(h) {
                    despawned.push(h);
                }
                proof {
                    st = kill(st, h);
                }
            }
        }
        proof {
            assert(st == resolve_pest(config, before, h));
        }
        h += 1;
    }
    despawned
}

/// Every live, active pest has been held back for `STALL_LIMIT` passes or
/// more. True of a garden without active pests.
pub open spec fn all_stalled(es: Seq<Option<Entity>>) -> bool {
    forall|h: int|
        live(es, h) && (#[trigger] es[h])->0.is_active_pest() ==> es[h]->0.kind->pest.is_stalled()
}

/// Decides, after a movement pass, whether the round is over: it is when and
/// only when no live, active pest has moved within the last `STALL_LIMIT`
/// passes.
pub fn maybe_end_pest_turn(world: &World) -> (end: bool)
    ensures
        end == all_stalled(world.entities@),
{
    let n = world.entities.len();
    let mut h: usize = 0;
    while h < n
        invariant
            n == world.entities@.len(),
            h <= n,
            forall|k: int|
                0 <= k < h && live(world.entities@, k) && (#[trigger] world.entities@[k])->0.is_active_pest()
                    ==> world.entities@[k]->0.kind->pest.is_stalled(),
        decreases n - h,
    {
        match &world.entities[h] {
            Some(e) => match &e.kind {
                EntityKind::Pest { pest, idle } => {
                    if !*idle && pest.ticks_since_move < STALL_LIMIT {
                        assert(live(world.entities@, h as int));
                        return false;
                    }
                },
                _ => {},
            },
            None => {},
        }
        h += 1;
    }
    true
}

/// Where a pest waiting on the border at `pos` stands after its first step
/// onto the field: one cell inwards from the side it waits on. A cell that is
/// on no side stays as it is.
pub open spec fn walked_in(config: GridConfig, pos: TilePos) -> TilePos {
    if pos.x == 0 {
        TilePos { x: 1, y: pos.y }
    } else if pos.x == config.map_size - 1 {
        TilePos { x: (pos.x - 1) as i32, y: pos.y }
    } else if pos.y == 0 {
        TilePos { x: pos.x, y: 1 }
    } else if pos.y == config.map_size - 1 {
        TilePos { x: pos.x, y: (pos.y - 1) as i32 }
    } else {
        pos
    }
}

/// An idle pest, walked in and made active; any other entity, unchanged.
pub open spec fn woken(config: GridConfig, e: Entity) -> Entity {
    match e.kind {
        EntityKind::Pest { pest, idle } => if idle {
            Entity { pos: walked_in(config, e.pos), kind: EntityKind::Pest { pest, idle: false } }
        } else {
            e
        },
        _ => e,
    }
}

/// The arena with every idle pest walked in.
pub open spec fn all_woken(config: GridConfig, es: Seq<Option<Entity>>) -> Seq<Option<Entity>> {
    Seq::new(
        es.len(),
        |h: int|
            match es[h] {
                Some(e) => Some(woken(config, e)),
                None => None,
            },
    )
}

/// Walks every idle pest one cell in from the border and makes it active.
pub fn move_idle_pests_in(world: &mut World)
    requires
        old(world).wf(),
    ensures
        final(world).entities@ == all_woken(old(world).config, old(world).entities@),
        final(world).config == old(world).config,
        final(world).wf(),
        exclusive(old(world).entities@) ==> exclusive(final(world).entities@),
{
    proof {
        if exclusive(world.entities@) {
            lemma_woken_keeps_exclusive(world.config, world.entities@);
        }
    }
    let n = world.entities.len();
    let config = world.config;
    let ghost initial = world.entities@;
    let last: i64 = config.map_size as i64 - 1;
    let mut h: usize = 0;
    while h < n
        invariant
            n == world.entities@.len(),
            n == initial.len(),
            h <= n,
            config == world.config,
            config.wf(),
            last == config.map_size - 1,
            entities_wf(initial),
            forall|k: int| 0 <= k < h ==> world.entities@[k] == all_woken(config, initial)[k],
            forall|k: int| h <= k < n ==> world.entities@[k] == initial[k],
        decreases n - h,
    {
        match &mut world.entities[h] {
            Some(e) => {
                match &mut e.kind {
                    EntityKind::Pest { idle, .. } => {
                        if *idle {
                            *idle = false;
                            if e.pos.x == 0 {
                                e.pos.x = 1;
                            } else if e.pos.x as i64 == last {
                                e.pos.x = e.pos.x - 1;
                            } else if e.pos.y == 0 {
                                e.pos.y = 1;
                            } else if e.pos.y as i64 == last {
                                e.pos.y = e.pos.y - 1;
                            }
                        }
                    },
                    _ => {},
                }
            },
            None => {},
        }
        h += 1;
    }
    proof {
        assert(world.entities@ =~= all_woken(config, initial));
        assert forall|k: int| 0 <= k < n && (#[trigger] world.entities@[k]) is Some implies world.entities@[k]->0.wf() by {
            assert(initial[k] is Some ==> initial[k]->0.wf());
        }
    }
}

/// The entities that round cleanup takes off the field: the active pests.
pub open spec fn is_active_pest() -> spec_fn(Entity) -> bool {
    |e: Entity| e.is_active_pest()
}

/// Removes every active pest and returns their handles, ascending. Idle pests
/// stay: they wait for the next round.
pub fn despawn_pests(world: &mut World) -> (despawned: Vec<usize>)
    ensures
        final(world).entities@ == without(old(world).entities@, is_active_pest()),
        despawned@ == handles_where(old(world).entities@, is_active_pest(), old(world).entities@.len() as int),
        final(world).config == old(world).config,
        old(world).wf() ==> final(world).wf(),
        exclusive(old(world).entities@) ==> exclusive(final(world).entities@),
{
    proof {
        if exclusive(world.entities@) {
            lemma_without_keeps_exclusive(world.entities@, is_active_pest());
        }
    }
    let n = world.entities.len();
    let ghost initial = world.entities@;
    let ghost config = world.config;
    let mut despawned: Vec<usize> = Vec::new();
    let mut h: usize = 0;
    while h < n
        invariant
            n == world.entities@.len(),
            n == initial.len(),
            h <= n,
            config == world.config,
            forall|k: int| 0 <= k < h ==> world.entities@[k] == without(initial, is_active_pest())[k],
            forall|k: int| h <= k < n ==> world.entities@[k] == initial[k],
            despawned@ == handles_where(initial, is_active_pest(), h as int),
        decreases n - h,
    {
        let active = match &world.entities[h] {
            Some(e) => match &e.kind {
                EntityKind::Pest { idle, .. } => !*idle,
                _ => false,
            },
            None => false,
        };
        if active {
            world.entities[h] = None;
            despawned.push(h);
        }
        h += 1;
    }
    proof {
        assert(world.entities@ =~= without(initial, is_active_pest()));
    }
    despawned
}

impl Pest {
    /// Puts the pest on the border cell `position`, idle until the next round
    /// setup, and returns its handle.
    pub fn spawn(self, position: TilePos, world: &mut World) -> (handle: usize)
        requires
            old(world).wf(),
            self.wf(),
        ensures
            handle == old(world).entities@.len(),
            final(world).entities@ == old(world).entities@.push(
                Some(Entity { pos: position, kind: EntityKind::Pest { pest: self, idle: true } }),
            ),
            final(world).config == old(world).config,
            final(world).wf(),
            exclusive(old(world).entities@) ==> exclusive(final(world).entities@),
    {
        world.spawn(Entity { pos: position, kind: EntityKind::Pest { pest: self, idle: true } })
    }
}

/// First row or column, counted from the corner, on which pests may appear.
pub const SPAWN_INSET: i32 = 3;

/// Number of rows (and columns) that carry spawn slots: `3 <= i < map_size - 2`.
pub open spec fn slot_rows(config: GridConfig) -> int {
    if config.map_size > 5 {
        config.map_size - 5
    } else {
        0
    }
}

/// The `k`-th spawn slot. Row or column `3 + k / 4` carries four slots, one
/// on each side of the garden: left, right, bottom, top.
pub open spec fn slot_at(config: GridConfig, k: int) -> TilePos {
    let i = (SPAWN_INSET + k / 4) as i32;
    let last = (config.map_size - 1) as i32;
    if k % 4 == 0 {
        TilePos { x: 0, y: i }
    } else if k % 4 == 1 {
        TilePos { x: last, y: i }
    } else if k % 4 == 2 {
        TilePos { x: i, y: 0 }
    } else {
        TilePos { x: i, y: last }
    }
}

/// The border cells on which pests may appear.
pub open spec fn spawn_slots_of(config: GridConfig) -> Seq<TilePos> {
    Seq::new((4 * slot_rows(config)) as nat, |k: int| slot_at(config, k))
}

/// The border cells on which pests may appear.
pub fn spawn_slots(config: GridConfig) -> (slots: Vec<TilePos>)
    requires
        config.wf(),
    ensures
        slots@ == spawn_slots_of(config),
{
    let mut slots: Vec<TilePos> = Vec::new();
    let last: i32 = if config.map_size > 0 {
        config.map_size - 1
    } else {
        0
    };
    let mut i: i32 = SPAWN_INSET;
    while i < config.map_size - 2
        invariant
            config.wf(),
            SPAWN_INSET <= i,
            config.map_size > 5 ==> i <= config.map_size - 2,
            config.map_size <= 5 ==> i == SPAWN_INSET,
            config.map_size > 0 ==> last == config.map_size - 1,
            slots@.len() == 4 * (i - SPAWN_INSET),
            forall|k: int| 0 <= k < slots@.len() ==> slots@[k] == slot_at(config, k),
        decreases config.map_size - i,
    {
        slots.push(TilePos { x: 0, y: i });
        slots.push(TilePos { x: last, y: i });
        slots.push(TilePos { x: i, y: 0 });
        slots.push(TilePos { x: i, y: last });
        i += 1;
    }
    proof {
        assert(slots@ =~= spawn_slots_of(config));
    }
    slots
}

/// No border cell is listed twice.
pub proof fn lemma_spawn_slots_distinct(config: GridConfig)
    requires
        config.wf(),
    ensures
        spawn_slots_of(config).no_duplicates(),
{
    let slots = spawn_slots_of(config);
    assert forall|a: int, b: int| 0 <= a < slots.len() && 0 <= b < slots.len() && a != b implies slots[a]
        != slots[b] by {
        assert(slots[a] == slot_at(config, a));
        assert(slots[b] == slot_at(config, b));
    }
}

/// Whether `pest` is the pest that belongs on spawn slot `slot`: it heads
/// away from the side it appears on, as a rabbit or as a gust of wind.
pub open spec fn heads_inward(config: GridConfig, slot: TilePos, rabbit: bool, pest: Pest) -> bool {
    if slot.x == 0 {
        if rabbit {
            pest.is_rabbit(TilePos { x: 1, y: 0 }, TilePos { x: 0, y: -1i32 })
        } else {
            pest.is_wind(TilePos { x: 1, y: 0 })
        }
    } else if slot.x == config.map_size - 1 {
        if rabbit {
            pest.is_rabbit(TilePos { x: -1i32, y: 0 }, TilePos { x: 0, y: 1 })
        } else {
            pest.is_wind(TilePos { x: -1i32, y: 0 })
        }
    } else if slot.y == 0 {
        if rabbit {
            pest.is_rabbit(TilePos { x: 0, y: 1 }, TilePos { x: 1, y: 0 })
        } else {
            pest.is_wind(TilePos { x: 0, y: 1 })
        }
    } else {
        if rabbit {
            pest.is_rabbit(TilePos { x: 0, y: -1i32 }, TilePos { x: -1i32, y: 0 })
        } else {
            pest.is_wind(TilePos { x: 0, y: -1i32 })
        }
    }
}

/// The pest for spawn slot `slot`: a rabbit if `rabbit`, else a gust of wind,
/// heading away from the side of the garden the slot lies on.
pub fn pest_for_slot(config: GridConfig, slot: TilePos, rabbit: bool) -> (pest: Pest)
    ensures
        heads_inward(config, slot, rabbit, pest),
        pest.wf(),
{
    if slot.x == 0 {
        if rabbit {
            Pest::rightward_rabbit()
        } else {
            Pest::rightward_wind()
        }
    } else if slot.x as i64 == config.map_size as i64 - 1 {
        if rabbit {
            Pest::leftward_rabbit()
        } else {
            Pest::leftward_wind()
        }
    } else if slot.y == 0 {
        if rabbit {
            Pest::upward_rabbit()
        } else {
            Pest::upward_wind()
        }
    } else {
        if rabbit {
            Pest::downward_rabbit()
        } else {
            Pest::downward_wind()
        }
    }
}

/// Entity `h` of the arena is an idle pest on `slot` of the breed that
/// belongs there.
pub open spec fn waits_at(config: GridConfig, es: Seq<Option<Entity>>, h: int, slot: TilePos, rabbit: bool) -> bool {
    &&& live(es, h)
    &&& es[h]->0.pos == slot
    &&& es[h]->0.kind matches EntityKind::Pest { pest, idle }
    &&& idle
    &&& heads_inward(config, slot, rabbit, pest)
}

/// The display request for entity `h`: its handle and its display tag.
pub open spec fn announces(request: (usize, String), es: Seq<Option<Entity>>, h: int) -> bool {
    &&& request.0 == h
    &&& live(es, h)
    &&& es[h]->0.kind matches EntityKind::Pest { pest, .. }
    &&& request.1@ == pest.sprite@
}

/// Spawns one idle pest on each of the given cells, a rabbit where the flag
/// is set and a gust of wind where it is not, and returns one display
/// request per pest.
pub fn spawn_pests_at(world: &mut World, picks: &Vec<(TilePos, bool)>) -> (spawned: Vec<(usize, String)>)
    requires
        old(world).wf(),
    ensures
        final(world).config == old(world).config,
        final(world).wf(),
        final(world).entities@.len() == old(world).entities@.len() + picks@.len(),
        final(world).entities@.subrange(0, old(world).entities@.len() as int) == old(world).entities@,
        exclusive(old(world).entities@) ==> exclusive(final(world).entities@),
        spawned@.len() == picks@.len(),
        forall|i: int|
            0 <= i < picks@.len() ==> waits_at(
                old(world).config,
                final(world).entities@,
                old(world).entities@.len() + i,
                (#[trigger] picks@[i]).0,
                picks@[i].1,
            ),
        forall|i: int|
            0 <= i < picks@.len() ==> announces(
                #[trigger] spawned@[i],
                final(world).entities@,
                old(world).entities@.len() + i,
            ),
{
    let ghost initial = world.entities@;
    let config = world.config;
    let mut spawned: Vec<(usize, String)> = Vec::with_capacity(picks.len());
    let mut i: usize = 0;
    while i < picks.len()
        invariant
            i <= picks@.len(),
            config == world.config,
            world.wf(),
            world.entities@.len() == initial.len() + i,
            world.entities@.subrange(0, initial.len() as int) == initial,
            exclusive(initial) ==> exclusive(world.entities@),
            spawned@.len() == i,
            forall|j: int|
                0 <= j < i ==> waits_at(config, world.entities@, initial.len() + j, (#[trigger] picks@[j]).0, picks@[j].1),
            forall|j: int| 0 <= j < i ==> announces(#[trigger] spawned@[j], world.entities@, initial.len() + j),
        decreases picks@.len() - i,
    {
        let (slot, rabbit) = picks[i];
        let pest = pest_for_slot(config, slot, rabbit);
        let sprite = pest.sprite.clone();
        let ghost before = world.entities@;
        let ghost requests = spawned@;
        let handle = pest.spawn(slot, world);
        spawned.push((handle, sprite));
        proof {
            assert(world.entities@.subrange(0, initial.len() as int) =~= before.subrange(0, initial.len() as int));
            assert forall|j: int| 0 <= j < i + 1 implies waits_at(
                config,
                world.entities@,
                initial.len() + j,
                (#[trigger] picks@[j]).0,
                picks@[j].1,
            ) by {
                if j < i {
                    assert(waits_at(config, before, initial.len() + j, picks@[j].0, picks@[j].1));
                    assert(world.entities@[initial.len() + j] == before[initial.len() + j]);
                }
            }
            assert forall|j: int| 0 <= j < i + 1 implies announces(
                #[trigger] spawned@[j],
                world.entities@,
                initial.len() + j,
            ) by {
                if j < i {
                    assert(spawned@[j] == requests[j]);
                    assert(announces(requests[j], before, initial.len() + j));
                    assert(world.entities@[initial.len() + j] == before[initial.len() + j]);
                }
            }
        }
        i += 1;
    }
    spawned
}

/// Chance, in tenths, that a new pest is a rabbit and not a gust of wind.
pub const RABBIT_TENTHS: u32 = 9;

/// What a round's spawning leaves behind, whatever was drawn: the old
/// entities untouched, and after them at most three new idle pests, at least
/// one if the garden has spawn slots, each on a spawn slot of its own and of
/// a breed that heads inward from there; one display request per new pest.
pub open spec fn round_spawned(
    config: GridConfig,
    before: Seq<Option<Entity>>,
    after: Seq<Option<Entity>>,
    spawned: Seq<(usize, String)>,
) -> bool {
    &&& before.len() <= after.len() <= before.len() + 3
    &&& spawn_slots_of(config).len() > 0 ==> after.len() > before.len()
    &&& after.subrange(0, before.len() as int) == before
    &&& spawned.len() == after.len() - before.len()
    &&& forall|h: int|
        before.len() <= h < after.len() ==> spawn_slots_of(config).contains((#[trigger] after[h])->0.pos) && (
        waits_at(config, after, h, after[h]->0.pos, true) || waits_at(config, after, h, after[h]->0.pos, false))
    &&& forall|h: int, k: int|
        before.len() <= h < k < after.len() ==> (#[trigger] after[h])->0.pos != (#[trigger] after[k])->0.pos
    &&& forall|i: int| 0 <= i < spawned.len() ==> announces(#[trigger] spawned[i], after, before.len() + i)
}

/// Spawns this round's pests: one to three of them, on spawn slots drawn
/// without repetition, nine in ten of them rabbits. They wait on the border,
/// idle, until the next round setup.
pub fn spawn_pests(world: &mut World, rng: &mut StdRng) -> (spawned: Vec<(usize, String)>)
    requires
        old(world).wf(),
    ensures
        final(world).config == old(world).config,
        final(world).wf(),
        round_spawned(old(world).config, old(world).entities@, final(world).entities@, spawned@),
        exclusive(old(world).entities@) ==> exclusive(final(world).entities@),
{
    let config = world.config;
    let slots = spawn_slots(config);
    let count = draw_between(rng, 1, 4);
    let cells = choose_cells(rng, &slots, count);
    let mut picks: Vec<(TilePos, bool)> = Vec::with_capacity(cells.len());
    let mut i: usize = 0;
    while i < cells.len()
        invariant
            i <= cells@.len(),
            picks@.len() == i,
            forall|j: int| 0 <= j < i ==> (#[trigger] picks@[j]).0 == cells@[j],
        decreases cells@.len() - i,
    {
        let rabbit = draw_ratio(rng, RABBIT_TENTHS, 10);
        picks.push((cells[i], rabbit));
        i += 1;
    }
    let ghost before = world.entities@;
    let spawned = spawn_pests_at(world, &picks);
    proof {
        let after = world.entities@;
        let idx = choose|idx: Seq<int>|
            idx.len() == cells@.len() && idx.no_duplicates() && forall|i: int|
                0 <= i < idx.len() ==> 0 <= #[trigger] idx[i] < slots@.len() && cells@[i] == slots@[idx[i]];
        lemma_spawn_slots_distinct(config);
        assert forall|h: int| before.len() <= h < after.len() implies spawn_slots_of(config).contains(
            (#[trigger] after[h])->0.pos,
        ) && (waits_at(config, after, h, after[h]->0.pos, true) || waits_at(
            config,
            after,
            h,
            after[h]->0.pos,
            false,
        )) by {
            let j = h - before.len();
            assert(waits_at(config, after, before.len() + j, picks@[j].0, picks@[j].1));
            assert(cells@[j] == slots@[idx[j]]);
        }
        assert forall|h: int, k: int| before.len() <= h < k < after.len() implies (#[trigger] after[h])->0.pos != (
        #[trigger] after[k])->0.pos by {
            let a = h - before.len();
            let b = k - before.len();
            assert(waits_at(config, after, before.len() + a, picks@[a].0, picks@[a].1));
            assert(waits_at(config, after, before.len() + b, picks@[b].0, picks@[b].1));
            assert(cells@[a] == slots@[idx[a]]);
            assert(cells@[b] == slots@[idx[b]]);
            assert(idx[a] != idx[b]);
        }
    }
    spawned
}

/// How the pass resolves pest `h`: the outcome of its move against the
/// snapshot as it stands when its turn comes.
pub open spec fn outcome_in_pass(config: GridConfig, es: Seq<Option<Entity>>, h: int) -> MoveOutcome {
    move_outcome(
        config,
        resolve_upto(config, pass_start(es), h).snapshot,
        es[h]->0.pos,
        es[h]->0.kind->pest,
    )
}

/// Resolving one pest keeps the arena's length, revives nothing, and touches
/// no other slot except to empty it.
proof fn lemma_resolve_frame(config: GridConfig, st: PassState, j: usize, h: int)
    ensures
        resolve_pest(config, st, j).entities.len() == st.entities.len(),
        live(resolve_pest(config, st, j).entities, h) ==> live(st.entities, h),
        live(resolve_pest(config, st, j).entities, h) && h != j ==> resolve_pest(config, st, j).entities[h]
            == st.entities[h],
{
}

/// A pass keeps the arena's length; an entity that is live after `n` steps
/// was live from the start, and no step before its own has touched it.
proof fn lemma_prefix_frame(config: GridConfig, st: PassState, n: int, h: int)
    ensures
        resolve_upto(config, st, n).entities.len() == st.entities.len(),
        live(resolve_upto(config, st, n).entities, h) ==> live(st.entities, h),
        live(resolve_upto(config, st, n).entities, h) && n <= h ==> resolve_upto(config, st, n).entities[h]
            == st.entities[h],
    decreases n,
{
    if n > 0 {
        lemma_prefix_frame(config, st, n - 1, h);
        lemma_resolve_frame(config, resolve_upto(config, st, n - 1), (n - 1) as usize, h);
    }
}

/// An entity that is live after `n` steps, `n` past its own, is as its own
/// step left it.
proof fn lemma_suffix_frame(config: GridConfig, st: PassState, n: int, h: int)
    requires
        0 <= h < n,
        n - 1 <= usize::MAX,
        live(resolve_upto(config, st, n).entities, h),
    ensures
        live(resolve_upto(config, st, h + 1).entities, h),
        resolve_upto(config, st, n).entities[h] == resolve_upto(config, st, h + 1).entities[h],
    decreases n,
{
    if n > h + 1 {
        lemma_resolve_frame(config, resolve_upto(config, st, n - 1), (n - 1) as usize, h);
        lemma_suffix_frame(config, st, n - 1, h);
    }
}

/// Between `before` and `after` no handle was added and nothing came to
/// life; what is live in `after` and no pest is as it was in `before`, and
/// what is a pest in `after` was one in `before`.
pub open spec fn pests_only_changed(before: Seq<Option<Entity>>, after: Seq<Option<Entity>>) -> bool {
    &&& after.len() == before.len()
    &&& forall|h: int|
        live(after, h) ==> live(before, h) && (before[h]->0.kind is Pest <==> (#[trigger] after[h])->0.kind is Pest)
            && (!(before[h]->0.kind is Pest) ==> after[h] == before[h])
}

/// A pass changes pests only: it may move them, count their failed moves and
/// remove them, and it may remove what they eat. Nothing else is touched.
pub proof fn lemma_pass_changes_pests_only(config: GridConfig, es: Seq<Option<Entity>>)
    requires
        es.len() <= usize::MAX,
    ensures
        pests_only_changed(es, pest_pass(config, es).entities),
{
    lemma_pass_keeps_handles(config, es);
    let after = pest_pass(config, es).entities;
    assert forall|h: int| live(after, h) implies live(es, h) && (es[h]->0.kind is Pest <==> (
    #[trigger] after[h])->0.kind is Pest) && (!(es[h]->0.kind is Pest) ==> after[h] == es[h]) by {
        lemma_pass_keeps_others(config, es, h);
    }
}

proof fn lemma_pass_keeps_others(config: GridConfig, es: Seq<Option<Entity>>, h: int)
    requires
        es.len() <= usize::MAX,
        live(pest_pass(config, es).entities, h),
    ensures
        live(es, h),
        es[h]->0.kind is Pest <==> pest_pass(config, es).entities[h]->0.kind is Pest,
        !(es[h]->0.kind is Pest) ==> pest_pass(config, es).entities[h] == es[h],
{
    let start = pass_start(es);
    let n = es.len() as int;
    lemma_prefix_frame(config, start, n, h);
    lemma_suffix_frame(config, start, n, h);
    let before = resolve_upto(config, start, h);
    lemma_prefix_frame(config, start, h, h);
    lemma_resolve_frame(config, before, h as usize, h);
    assert(resolve_upto(config, start, h + 1) == resolve_pest(config, before, h as usize));
    assert(before.entities[h] == es[h]);
}

/// A movement pass keeps the number of handles.
pub proof fn lemma_pass_keeps_handles(config: GridConfig, es: Seq<Option<Entity>>)
    ensures
        pest_pass(config, es).entities.len() == es.len(),
{
    lemma_prefix_frame(config, pass_start(es), es.len() as int, 0);
}

/// What a pass does to a pest that outlives it. The pest was resolved
/// exactly once, against the snapshot of its turn: its cursor went one step
/// round the pattern, and either it was held back, kept its cell and counted
/// one more failed move, or it moved to its target cell and its stall counter
/// started over at zero. So the counter is zero after the pass when and only
/// when the pest moved in it.
pub proof fn lemma_pass_resolves_each_pest(config: GridConfig, es: Seq<Option<Entity>>, h: int)
    requires
        live(es, h),
        es.len() <= usize::MAX,
        es[h]->0.is_active_pest(),
        live(pest_pass(config, es).entities, h),
    ensures
        outcome_in_pass(config, es, h) !is LeftGrid,
        pest_pass(config, es).entities[h]->0 == (if outcome_in_pass(config, es, h) is Stalled {
            Entity {
                pos: es[h]->0.pos,
                kind: EntityKind::Pest { pest: es[h]->0.kind->pest.after_stall(), idle: false },
            }
        } else {
            Entity {
                pos: target_cell(es[h]->0.pos, es[h]->0.kind->pest),
                kind: EntityKind::Pest { pest: es[h]->0.kind->pest.after_move(), idle: false },
            }
        }),
        pest_pass(config, es).entities[h]->0.kind->pest.ticks_since_move == 0 <==> !(outcome_in_pass(
            config,
            es,
            h,
        ) is Stalled),
{
    let start = pass_start(es);
    let n = es.len() as int;
    lemma_suffix_frame(config, start, n, h);
    let before = resolve_upto(config, start, h);
    lemma_prefix_frame(config, start, h, h);
    lemma_resolve_frame(config, before, h as usize, h);
    assert(resolve_upto(config, start, h + 1) == resolve_pest(config, before, h as usize));
    assert(before.entities[h] == es[h]);
}

/// A pest that has been held back fewer times in a row than its pattern has
/// steps, and outlives a pass, has after it been held back at most as many
/// times as its pattern has steps. The pattern itself never changes.
pub proof fn lemma_stall_stays_within_pattern(config: GridConfig, es: Seq<Option<Entity>>, h: int)
    requires
        live(es, h),
        es.len() <= usize::MAX,
        es[h]->0.is_active_pest(),
        live(pest_pass(config, es).entities, h),
        es[h]->0.kind->pest.ticks_since_move < es[h]->0.kind->pest.pattern@.len(),
    ensures
        pest_pass(config, es).entities[h]->0.kind->pest.pattern == es[h]->0.kind->pest.pattern,
        pest_pass(config, es).entities[h]->0.kind->pest.ticks_since_move <= es[h]->0.kind->pest.pattern@.len(),
{
    lemma_pass_resolves_each_pest(config, es, h);
}

/// A pest that outlives a pass with a stall counter of `k + 1` or more, short
/// of the machine limit, was held back in that pass and had a counter of `k`
/// or more before it: the counter counts failed passes in a row.
pub proof fn lemma_stall_counts_failed_passes(config: GridConfig, es: Seq<Option<Entity>>, h: int, k: int)
    requires
        live(es, h),
        es.len() <= usize::MAX,
        es[h]->0.is_active_pest(),
        live(pest_pass(config, es).entities, h),
        0 <= k,
        k < pest_pass(config, es).entities[h]->0.kind->pest.ticks_since_move < usize::MAX,
    ensures
        outcome_in_pass(config, es, h) is Stalled,
        es[h]->0.kind->pest.ticks_since_move + 1 == pest_pass(config, es).entities[h]->0.kind->pest.ticks_since_move,
        es[h]->0.kind->pest.ticks_since_move >= k,
{
    lemma_pass_resolves_each_pest(config, es, h);
}

/// A pass does not make two fences, or two plants, share a cell.
pub proof fn lemma_pass_keeps_exclusive(config: GridConfig, es: Seq<Option<Entity>>)
    requires
        es.len() <= usize::MAX,
        exclusive(es),
    ensures
        exclusive(pest_pass(config, es).entities),
{
    let after = pest_pass(config, es).entities;
    assert forall|a: int, b: int|
        live(after, a) && live(after, b) && a != b && (#[trigger] after[a])->0.pos == (#[trigger] after[b])->0.pos
            && after[a]->0.layer() == after[b]->0.layer() implies after[a]->0.layer() == GameLayer::Pests by {
        lemma_pass_keeps_others(config, es, a);
        lemma_pass_keeps_others(config, es, b);
        if after[a]->0.layer() != GameLayer::Pests {
            assert(after[a] == es[a] && after[b] == es[b]);
        }
    }
}

/// Walking the idle pests in does not make two fences, or two plants, share
/// a cell.
pub proof fn lemma_woken_keeps_exclusive(config: GridConfig, es: Seq<Option<Entity>>)
    requires
        exclusive(es),
    ensures
        exclusive(all_woken(config, es)),
{
    let after = all_woken(config, es);
    assert forall|a: int, b: int|
        live(after, a) && live(after, b) && a != b && (#[trigger] after[a])->0.pos == (#[trigger] after[b])->0.pos
            && after[a]->0.layer() == after[b]->0.layer() implies after[a]->0.layer() == GameLayer::Pests by {
        if after[a]->0.layer() != GameLayer::Pests {
            assert(after[a] == es[a] && after[b] == es[b]);
        }
    }
}

} // verus!
