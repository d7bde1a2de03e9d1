use vstd::prelude::*;
use rand::rngs::StdRng;
use crate::map::{Fence, GameLayer, GridConfig, TilePos};
use crate::plants::{Health, Plant, RoundsTillMature};
use crate::rng::choose_tile;
use crate::world::{exclusive, handles_where, holds, occupied, without, Entity, EntityKind, World};

verus! {

/// Number of tiles the player sees ahead.
pub const QUEUE_SIZE: usize = 5;

/// A tile the player can put on the field.
#[derive(Copy, Clone, Debug, PartialEq, Eq, Structural)]
pub enum PlacableTile {
    Radish,
    Carrot,
    Pumpkin,
    Fence,
}

/// Why a placement was turned down. Nothing changes when one is.
#[derive(Copy, Clone, Debug, PartialEq, Eq, Structural)]
pub enum Rejected {
    /// The cell lies on the border, in the margin, or off the grid.
    OutsideBounds,
    /// The cell already holds a plant, and the tile is a plant.
    Occupied,
}

/// What a successful placement did.
#[derive(Clone, Debug, PartialEq, Eq)]
pub enum Placed {
    /// A new entity stands on the cell.
    Spawned { handle: usize, sprite: String },
    /// The tile was a fence and the cell held one: that fence is gone.
    Removed { handle: usize },
}

impl PlacableTile {
    /// The layer the tile goes to.
    pub open spec fn target_layer(self) -> GameLayer {
        match self {
            PlacableTile::Fence => GameLayer::Fences,
            _ => GameLayer::Plants,
        }
    }

    /// The display tag of the tile.
    pub open spec fn sprite_name(self) -> Seq<char> {
        match self {
            PlacableTile::Radish => "radish"@,
            PlacableTile::Carrot => "carrot"@,
            PlacableTile::Pumpkin => "pumpkin"@,
            PlacableTile::Fence => "fence"@,
        }
    }

    /// What the tile becomes on the field.
    pub open spec fn kind_placed(self) -> EntityKind {
        match self {
            PlacableTile::Radish => EntityKind::Plant(
                Plant { score_value: 1, rounds_till_mature: RoundsTillMature(1), health: Health(1), is_prize: false },
            ),
            PlacableTile::Carrot => EntityKind::Plant(
                Plant { score_value: 2, rounds_till_mature: RoundsTillMature(2), health: Health(1), is_prize: false },
            ),
            PlacableTile::Pumpkin => EntityKind::Plant(
                Plant { score_value: 6, rounds_till_mature: RoundsTillMature(4), health: Health(1), is_prize: false },
            ),
            PlacableTile::Fence => EntityKind::Fence(Fence { health: Health(1) }),
        }
    }

    /// The display tag of the tile.
    pub fn sprite(&self) -> (name: String)
        ensures
            name@ == self.sprite_name(),
    {
        match self {
            PlacableTile::Radish => "radish".to_string(),
            PlacableTile::Carrot => "carrot".to_string(),
            PlacableTile::Pumpkin => "pumpkin".to_string(),
            PlacableTile::Fence => "fence".to_string(),
        }
    }

    /// Draws a tile, each of the four with the same chance.
    pub fn spawn_random(rng: &mut StdRng) -> (tile: PlacableTile)
        ensures
            tile_choices().contains(tile),
    {
        let tiles = PlacableTile::choices();
        let picked = choose_tile(rng, &tiles);
        PlacableTile::drawn(picked)
    }

    /// The tiles a draw is made from.
    pub fn choices() -> (tiles: Vec<PlacableTile>)
        ensures
            tiles@ == tile_choices(),
    {
        let mut tiles: Vec<PlacableTile> = Vec::new();
        tiles.push(PlacableTile::Radish);
        tiles.push(PlacableTile::Carrot);
        tiles.push(PlacableTile::Pumpkin);
        tiles.push(PlacableTile::Fence);
        tiles
    }

    /// The tile that a draw stands for: the one picked, and a radish where
    /// nothing was picked.
    pub fn drawn(picked: Option<PlacableTile>) -> (tile: PlacableTile)
        ensures
            tile == (match picked {
                Some(tile) => tile,
                None => PlacableTile::Radish,
            }),
    {
        match picked {
            Some(tile) => tile,
            None => PlacableTile::Radish,
        }
    }

    /// Whether the tile may go on `pos`: the cell lies strictly inside the
    /// margin, and no plant stands there if the tile is a plant. A fence may
    /// always go on a placeable cell; on one that holds a fence it takes that
    /// fence away.
    pub open spec fn placeable_on(self, config: GridConfig, es: Seq<Option<Entity>>, pos: TilePos) -> bool {
        config.placeable(pos) && (self is Fence || !occupied(es, pos, GameLayer::Plants))
    }

    /// Whether the tile may go on `pos`.
    pub fn can_place(&self, world: &World, pos: TilePos) -> (ok: bool)
        ensures
            ok == self.placeable_on(world.config, world.entities@, pos),
    {
        if !world.config.is_placeable(pos) {
            return false;
        }
        match self {
            PlacableTile::Fence => true,
            _ => world.occupant(pos, GameLayer::Plants).is_none(),
        }
    }

    /// Puts the tile on the field at `pos` as a new entity and returns its
    /// handle and display tag.
    pub fn place_on_map(&self, world: &mut World, pos: TilePos) -> (spawned: (usize, String))
        requires
            old(world).wf(),
        ensures
            spawned.0 == old(world).entities@.len(),
            spawned.1@ == self.sprite_name(),
            final(world).entities@ == old(world).entities@.push(Some(Entity { pos, kind: self.kind_placed() })),
            final(world).config == old(world).config,
            final(world).wf(),
            exclusive(old(world).entities@) && !occupied(old(world).entities@, pos, self.target_layer())
                ==> exclusive(final(world).entities@),
    {
        let kind = match self {
            PlacableTile::Radish => EntityKind::Plant(
                Plant { score_value: 1, rounds_till_mature: RoundsTillMature(1), health: Health(1), is_prize: false },
            ),
            PlacableTile::Carrot => EntityKind::Plant(
                Plant { score_value: 2, rounds_till_mature: RoundsTillMature(2), health: Health(1), is_prize: false },
            ),
            PlacableTile::Pumpkin => EntityKind::Plant(
                Plant { score_value: 6, rounds_till_mature: RoundsTillMature(4), health: Health(1), is_prize: false },
            ),
            PlacableTile::Fence => EntityKind::Fence(Fence { health: Health(1) }),
        };
        let handle = world.spawn(Entity { pos, kind });
        (handle, self.sprite())
    }
}

/// The tiles a draw is made from, in the order in which they are offered.
pub open spec fn tile_choices() -> Seq<PlacableTile> {
    seq![PlacableTile::Radish, PlacableTile::Carrot, PlacableTile::Pumpkin, PlacableTile::Fence]
}

/// The handle of the fence that a fence tile placed on `pos` would take away:
/// the first, by handle, that stands there.
pub open spec fn fence_to_toggle(es: Seq<Option<Entity>>, pos: TilePos, h: int) -> bool {
    holds(es, h, pos, GameLayer::Fences) && forall|j: int| 0 <= j < h ==> !holds(es, j, pos, GameLayer::Fences)
}

/// The arena after the successful placement of `tile` on `cell`.
pub open spec fn after_placement(es: Seq<Option<Entity>>, cell: TilePos, tile: PlacableTile) -> Seq<Option<Entity>> {
    if tile is Fence && occupied(es, cell, GameLayer::Fences) {
        es.update(choose|h: int| fence_to_toggle(es, cell, h), None)
    } else {
        es.push(Some(Entity { pos: cell, kind: tile.kind_placed() }))
    }
}

/// What the resolution of a placement of `tile` on `cell` owes: the verdict,
/// for every field and every cell, and the field after it.
pub open spec fn placement_resolved(
    before: World,
    cell: TilePos,
    tile: PlacableTile,
    after: World,
    outcome: Result<Placed, Rejected>,
) -> bool {
    &&& after.config == before.config
    &&& !before.config.placeable(cell) <==> outcome == Err::<Placed, Rejected>(Rejected::OutsideBounds)
    &&& before.config.placeable(cell) && !(tile is Fence) && occupied(before.entities@, cell, GameLayer::Plants)
        <==> outcome == Err::<Placed, Rejected>(Rejected::Occupied)
    &&& outcome is Ok <==> tile.placeable_on(before.config, before.entities@, cell)
    &&& outcome is Err ==> after.entities@ == before.entities@
    &&& outcome is Ok ==> after.entities@ == after_placement(before.entities@, cell, tile)
    &&& outcome matches Ok(Placed::Removed { handle }) ==> tile is Fence && fence_to_toggle(
        before.entities@,
        cell,
        handle as int,
    )
    &&& outcome matches Ok(Placed::Spawned { handle, sprite }) ==> handle == before.entities@.len() && sprite@
        == tile.sprite_name() && !occupied(before.entities@, cell, tile.target_layer())
}

/// Resolves the placement of `tile` on `cell`.
///
/// The placement is turned down, and nothing changes, when the cell does not
/// lie strictly inside the margin and when the tile is a plant and the cell
/// holds a plant. A fence on a cell that holds a fence takes that fence away.
/// In every other case the tile becomes a new entity on the cell.
pub fn try_place(world: &mut World, cell: TilePos, tile: PlacableTile) -> (outcome: Result<Placed, Rejected>)
    requires
        old(world).wf(),
    ensures
        final(world).wf(),
        placement_resolved(*old(world), cell, tile, *final(world), outcome),
        exclusive(old(world).entities@) ==> exclusive(final(world).entities@),
{
    if !world.config.is_placeable(cell) {
        return Err(Rejected::OutsideBounds);
    }
    let taken = world.occupant(cell, tile.layer());
    match taken {
        Some(h) => {
            match tile {
                PlacableTile::Fence => {
                    proof {
                        let w = choose|w: int| fence_to_toggle(world.entities@, cell, w);
                        assert(fence_to_toggle(world.entities@, cell, h as int));
                        assert(w == h) by {
                            if w < h {
                                assert(!holds(world.entities@, w, cell, GameLayer::Fences));
                            } else if h < w {
                                assert(!holds(world.entities@, h as int, cell, GameLayer::Fences));
                            }
                        }
                    }
                    world.despawn(h);
                    Ok(Placed::Removed { handle: h })
                },
                _ => Err(Rejected::Occupied),
            }
        },
        None => {
            let (handle, sprite) = tile.place_on_map(world, cell);
            Ok(Placed::Spawned { handle, sprite })
        },
    }
}

impl PlacableTile {
    /// The layer the tile goes to.
    pub fn layer(&self) -> (layer: GameLayer)
        ensures
            layer == self.target_layer(),
    {
        match self {
            PlacableTile::Fence => GameLayer::Fences,
            _ => GameLayer::Plants,
        }
    }
}

/// A placement on the border or in the margin is turned down, whatever the
/// size of the garden, the tile and the state of the field.
pub proof fn lemma_margin_is_unplaceable(
    config: GridConfig,
    es: Seq<Option<Entity>>,
    cell: TilePos,
    tile: PlacableTile,
)
    requires
        cell.x <= config.margin || cell.x >= config.map_size - 1 - config.margin || cell.y <= config.margin
            || cell.y >= config.map_size - 1 - config.margin,
    ensures
        !tile.placeable_on(config, es, cell),
{
}

/// A fence put on a cell without one, and then a fence put on that cell
/// again, leave the cell without a fence: the second placement takes away
/// what the first one put there, and every other entity is as it was.
pub proof fn lemma_fence_toggle(es: Seq<Option<Entity>>, cell: TilePos)
    requires
        !occupied(es, cell, GameLayer::Fences),
    ensures
        !occupied(
            after_placement(after_placement(es, cell, PlacableTile::Fence), cell, PlacableTile::Fence),
            cell,
            GameLayer::Fences,
        ),
        after_placement(after_placement(es, cell, PlacableTile::Fence), cell, PlacableTile::Fence) == es.push(None),
{
    let once = after_placement(es, cell, PlacableTile::Fence);
    let new_handle = es.len() as int;
    assert(once == es.push(Some(Entity { pos: cell, kind: PlacableTile::Fence.kind_placed() })));
    assert(holds(once, new_handle, cell, GameLayer::Fences));
    assert forall|j: int| 0 <= j < new_handle implies !holds(once, j, cell, GameLayer::Fences) by {
        if holds(once, j, cell, GameLayer::Fences) {
            assert(holds(es, j, cell, GameLayer::Fences));
        }
    }
    assert(fence_to_toggle(once, cell, new_handle));
    let w = choose|w: int| fence_to_toggle(once, cell, w);
    assert(w == new_handle) by {
        if w < new_handle {
            assert(!holds(once, w, cell, GameLayer::Fences));
        } else if new_handle < w {
            assert(!holds(once, new_handle, cell, GameLayer::Fences));
        }
    }
    let twice = after_placement(once, cell, PlacableTile::Fence);
    assert(twice =~= es.push(None));
    assert forall|j: int| !holds(twice, j, cell, GameLayer::Fences) by {
        if holds(twice, j, cell, GameLayer::Fences) {
            assert(holds(es, j, cell, GameLayer::Fences));
        }
    }
}

/// The tiles the player will get, next one first.
#[derive(Clone, Debug, PartialEq, Eq)]
pub struct TileQueue(pub Vec<PlacableTile>);

impl TileQueue {
    /// A queue without tiles, as it is outside of play.
    pub fn new() -> (queue: TileQueue)
        ensures
            queue.0@.len() == 0,
    {
        TileQueue(Vec::new())
    }

    /// The tile the player places next.
    pub fn head(&self) -> (tile: Option<PlacableTile>)
        ensures
            self.0@.len() == 0 ==> tile is None,
            self.0@.len() > 0 ==> tile == Some(self.0@[0]),
    {
        if self.0.len() > 0 {
            Some(self.0[0])
        } else {
            None
        }
    }

    /// Takes the head off the queue and appends `refill` at its tail.
    pub fn advance(&mut self, refill: PlacableTile)
        requires
            old(self).0@.len() > 0,
        ensures
            final(self).0@ == old(self).0@.drop_first().push(refill),
    {
        self.0.remove(0);
        self.0.push(refill);
        assert(self.0@ =~= old(self).0@.drop_first().push(refill));
    }
}

impl Default for TileQueue {
    fn default() -> (queue: TileQueue)
        ensures
            queue.0@.len() == 0,
    {
        TileQueue::new()
    }
}

/// Fills the queue for a new game: whatever it held is dropped, and
/// `QUEUE_SIZE` tiles are drawn.
pub fn setup_queue(queue: &mut TileQueue, rng: &mut StdRng)
    ensures
        final(queue).0@.len() == QUEUE_SIZE,
{
    queue.0.clear();
    let mut i: usize = 0;
    while i < QUEUE_SIZE
        invariant
            i <= QUEUE_SIZE,
            queue.0@.len() == i,
        decreases QUEUE_SIZE - i,
    {
        let tile = PlacableTile::spawn_random(rng);
        queue.0.push(tile);
        i += 1;
    }
}

/// Empties the queue when play ends.
pub fn cleanup_queue(queue: &mut TileQueue)
    ensures
        final(queue).0@.len() == 0,
{
    queue.0.clear();
}

/// Remembers whether the first pointer release of a player turn has been seen.
#[derive(Copy, Clone, Debug, PartialEq, Eq, Structural)]
pub struct FirstClickSupressor(pub bool);

/// The cell of a pointer release that still waits to be resolved.
#[derive(Copy, Clone, Debug, PartialEq, Eq, Structural)]
pub struct PendingPlacement(pub Option<TilePos>);

/// Forgets that a pointer release was seen: the next one is swallowed again.
pub fn reset_first_click_supressor(first_click_supressor: &mut FirstClickSupressor)
    ensures
        final(first_click_supressor).0 == false,
{
    first_click_supressor.0 = false;
}

/// Takes in the pointer releases of one tick, each as the cell it fell on, in
/// order. The first release since the suppressor was reset is swallowed;
/// every later one replaces the pending placement.
pub fn track_click_events(
    released: &Vec<TilePos>,
    pending_placement: &mut PendingPlacement,
    first_click_supressor: &mut FirstClickSupressor,
)
    ensures
        final(first_click_supressor).0 == (old(first_click_supressor).0 || released@.len() > 0),
        final(pending_placement).0 == (if released@.len() == 0 || (!old(first_click_supressor).0 && released@.len()
            == 1) {
            old(pending_placement).0
        } else {
            Some(released@.last())
        }),
{
    let ghost seen = first_click_supressor.0;
    let ghost pending = pending_placement.0;
    let mut i: usize = 0;
    while i < released.len()
        invariant
            i <= released@.len(),
            first_click_supressor.0 == (seen || i > 0),
            pending_placement.0 == (if i == 0 || (!seen && i == 1) {
                pending
            } else {
                Some(released@[i - 1])
            }),
        decreases released@.len() - i,
    {
        if !first_click_supressor.0 {
            first_click_supressor.0 = true;
        } else {
            pending_placement.0 = Some(released[i]);
        }
        i += 1;
    }
}

/// The queue after a placement that succeeded: as long as before, the old
/// head gone, every other tile one place further up, a new tile at the tail.
pub open spec fn queue_advanced(before: Seq<PlacableTile>, after: Seq<PlacableTile>) -> bool {
    before.len() > 0 && after.len() == before.len() && after.drop_last() == before.drop_first()
}

/// Places the head of the queue on `cell`. Where the placement is turned
/// down, field and queue stay as they are. Where it succeeds, the head leaves
/// the queue and a freshly drawn tile joins it at the tail.
pub fn place_tile(world: &mut World, queue: &mut TileQueue, cell: TilePos, rng: &mut StdRng) -> (outcome: Result<
    Placed,
    Rejected,
>)
    requires
        old(world).wf(),
        old(queue).0@.len() > 0,
    ensures
        final(world).wf(),
        placement_resolved(*old(world), cell, old(queue).0@[0], *final(world), outcome),
        exclusive(old(world).entities@) ==> exclusive(final(world).entities@),
        outcome is Err ==> final(queue).0@ == old(queue).0@,
        outcome is Ok ==> queue_advanced(old(queue).0@, final(queue).0@),
{
    let tile = queue.0[0];
    let outcome = try_place(world, cell, tile);
    if outcome.is_ok() {
        let refill = PlacableTile::spawn_random(rng);
        queue.advance(refill);
        assert(queue.0@.drop_last() =~= old(queue).0@.drop_first());
    }
    outcome
}

/// Every entity.
pub open spec fn is_anything() -> spec_fn(Entity) -> bool {
    |e: Entity| true
}

/// Clears the field when play ends: every plant, fence and pest goes.
/// Returns their handles, ascending.
pub fn despawn_tiles(world: &mut World) -> (despawned: Vec<usize>)
    ensures
        final(world).entities@ == without(old(world).entities@, is_anything()),
        despawned@ == handles_where(old(world).entities@, is_anything(), old(world).entities@.len() as int),
        final(world).config == old(world).config,
        old(world).config.wf() ==> final(world).wf(),
        exclusive(final(world).entities@),
{
    let n = world.entities.len();
    let ghost initial = world.entities@;
    let ghost config = world.config;
    let mut despawned: Vec<usize> = Vec::new();
    let mut h: usize = 0;
    while h < n
        invariant
            n == world.entities@.len(),
            n == initial.len(),
            h <= n,
            config == world.config,
            forall|k: int| 0 <= k < h ==> world.entities@[k] is None,
            forall|k: int| h <= k < n ==> world.entities@[k] == initial[k],
            despawned@ == handles_where(initial, is_anything(), h as int),
        decreases n - h,
    {
        if world.entities[h].is_some() {
            world.entities[h] = None;
            despawned.push(h);
        }
        h += 1;
    }
    proof {
        assert(world.entities@ =~= without(initial, is_anything()));
    }
    despawned
}

} // verus!
