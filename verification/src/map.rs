use vstd::prelude::*;
use std::collections::HashSet;
use crate::plants::{countdowns_at_least, Health, Plant, RoundsTillMature};
use crate::scoring::PrizePlantScore;
use crate::world::{exclusive, handles_where, holds, live, occupied, Entity, EntityKind, World};

verus! {

/// Side length of the standard garden, in cells.
pub const MAP_SIZE: i32 = 12;

/// Edge length of one cell on screen, in pixels.
pub const TILE_SIZE: i32 = 62;

/// Width of the ring of cells, just inside the border, that is kept free of
/// player placements in the standard garden.
pub const PLACEMENT_MARGIN: i32 = 1;

/// A cell coordinate. The garden covers `0 <= x, y < map_size`; coordinates
/// outside of it are representable so that a step off the grid can be named.
#[derive(Copy, Clone, Debug, PartialEq, Eq, Hash, Structural)]
pub struct TilePos {
    pub x: i32,
    pub y: i32,
}

impl TilePos {
    pub fn new(x: i32, y: i32) -> (pos: TilePos)
        ensures
            pos == (TilePos { x, y }),
    {
        TilePos { x, y }
    }

    /// The packed form of a coordinate: one `u64` per cell, no two cells alike.
    pub open spec fn key(self) -> u64 {
        ((self.x + 0x8000_0000) * 0x1_0000_0000 + (self.y + 0x8000_0000)) as u64
    }

    /// Packs the coordinate into the integer under which occupancy tables file it.
    pub fn to_key(&self) -> (k: u64)
        ensures
            k == self.key(),
    {
        let hi: u64 = (self.x as i64 + 0x8000_0000) as u64;
        let lo: u64 = (self.y as i64 + 0x8000_0000) as u64;
        hi * 0x1_0000_0000 + lo
    }

    /// Distinct cells have distinct keys.
    pub proof fn lemma_key_injective(a: TilePos, b: TilePos)
        ensures
            a.key() == b.key() <==> a == b,
    {
    }
}

impl Default for TilePos {
    fn default() -> (pos: TilePos)
        ensures
            pos == (TilePos { x: 0, y: 0 }),
    {
        TilePos { x: 0, y: 0 }
    }
}

/// The occupancy channel an entity lives on. A cell holds at most one fence and
/// at most one plant; entities on different layers may share a cell.
#[derive(Copy, Clone, Debug, PartialEq, Eq, Hash, Structural)]
pub enum GameLayer {
    Fences,
    Plants,
    Pests,
}

/// A fence segment. It stops blocking pests from entering its cell.
#[derive(Copy, Clone, Debug, PartialEq, Eq, Structural)]
pub struct Fence {
    pub health: Health,
}

/// Size of the garden and width of the unplaceable ring inside its border.
#[derive(Copy, Clone, Debug, PartialEq, Eq, Structural)]
pub struct GridConfig {
    pub map_size: i32,
    pub margin: i32,
}

impl GridConfig {
    /// A size and a margin are not negative.
    pub open spec fn wf(self) -> bool {
        self.map_size >= 0 && self.margin >= 0
    }

    /// The 12 by 12 garden with a one-cell margin.
    pub fn standard() -> (config: GridConfig)
        ensures
            config == (GridConfig { map_size: MAP_SIZE, margin: PLACEMENT_MARGIN }),
            config.wf(),
    {
        GridConfig { map_size: MAP_SIZE, margin: PLACEMENT_MARGIN }
    }

    /// A garden of the given size with the standard margin.
    pub fn with_size(map_size: i32) -> (config: GridConfig)
        ensures
            config == (GridConfig { map_size, margin: PLACEMENT_MARGIN }),
            config.wf() <==> map_size >= 0,
    {
        GridConfig { map_size, margin: PLACEMENT_MARGIN }
    }

    /// Whether `(x, y)` lies on the grid.
    pub open spec fn contains(self, x: int, y: int) -> bool {
        0 <= x < self.map_size && 0 <= y < self.map_size
    }

    /// Whether `(x, y)` lies on the grid.
    pub fn in_bounds(&self, x: i64, y: i64) -> (inside: bool)
        ensures
            inside == self.contains(x as int, y as int),
    {
        let size: i64 = self.map_size as i64;
        0 <= x && x < size && 0 <= y && y < size
    }

    /// Whether one axis value lies strictly inside the margin: beyond the
    /// border cell and the `margin` cells next to it, on both sides.
    pub open spec fn axis_placeable(self, v: int) -> bool {
        self.margin < v < self.map_size - 1 - self.margin
    }

    /// Whether the player may place a tile on `pos` as far as the grid is
    /// concerned: both coordinates strictly inside the margin.
    pub open spec fn placeable(self, pos: TilePos) -> bool {
        self.axis_placeable(pos.x as int) && self.axis_placeable(pos.y as int)
    }

    /// Whether the player may place a tile on `pos` as far as the grid is
    /// concerned.
    pub fn is_placeable(&self, pos: TilePos) -> (ok: bool)
        ensures
            ok == self.placeable(pos),
    {
        let low: i64 = self.margin as i64;
        let high: i64 = self.map_size as i64 - 1 - self.margin as i64;
        let x: i64 = pos.x as i64;
        let y: i64 = pos.y as i64;
        low < x && x < high && low < y && y < high
    }
}

/// Whether a fence stands on `(x, y)`.
pub open spec fn fenced(es: Seq<Option<Entity>>, x: int, y: int) -> bool {
    i32::MIN <= x <= i32::MAX && i32::MIN <= y <= i32::MAX && occupied(
        es,
        TilePos { x: x as i32, y: y as i32 },
        GameLayer::Fences,
    )
}

/// The display index of a fence on `pos`: the sum of the weights of the
/// neighbouring cells that hold a fence, one for the cell above, eight for
/// the cell below, two for the cell to the left and four for the cell to the
/// right.
pub open spec fn autotile_index(es: Seq<Option<Entity>>, pos: TilePos) -> u32 {
    ((if fenced(es, pos.x as int, pos.y + 1) {
        1int
    } else {
        0int
    }) + (if fenced(es, pos.x as int, pos.y - 1) {
        8int
    } else {
        0int
    }) + (if fenced(es, pos.x - 1, pos.y as int) {
        2int
    } else {
        0int
    }) + (if fenced(es, pos.x + 1, pos.y as int) {
        4int
    } else {
        0int
    })) as u32
}

/// The fences.
pub open spec fn is_fence() -> spec_fn(Entity) -> bool {
    |e: Entity| e.is_fence()
}

/// The set holds the keys of exactly the fenced cells.
pub open spec fn marks_fences(cells: Set<u64>, es: Seq<Option<Entity>>, n: int) -> bool {
    forall|pos: TilePos|
        #![trigger pos.key()]
        cells.contains(pos.key()) <==> exists|h: int| 0 <= h < n && holds(es, h, pos, GameLayer::Fences)
}

fn has_fence(cells: &HashSet<u64>, x: i64, y: i64, Ghost(es): Ghost<Seq<Option<Entity>>>) -> (yes: bool)
    requires
        marks_fences(cells@, es, es.len() as int),
    ensures
        yes == fenced(es, x as int, y as int),
{
    if x < i32::MIN as i64 || x > i32::MAX as i64 || y < i32::MIN as i64 || y > i32::MAX as i64 {
        return false;
    }
    let pos = TilePos { x: x as i32, y: y as i32 };
    let key = pos.to_key();
    let yes = cells.contains(&key);
    proof {
        if yes {
            let h = choose|h: int| 0 <= h < es.len() && holds(es, h, pos, GameLayer::Fences);
            assert(holds(es, h, pos, GameLayer::Fences));
        } else if occupied(es, pos, GameLayer::Fences) {
            let h = choose|h: int| holds(es, h, pos, GameLayer::Fences);
            assert(0 <= h < es.len() && holds(es, h, pos, GameLayer::Fences));
        }
    }
    yes
}

/// Works out the display index of every fence from the fences around it and
/// returns handle and index, in handle order.
pub fn update_fence_autotile(world: &World) -> (tiles: Vec<(usize, u32)>)
    ensures
        tiles@.len() == handles_where(world.entities@, is_fence(), world.entities@.len() as int).len(),
        forall|i: int|
            0 <= i < tiles@.len() ==> (#[trigger] tiles@[i]).0 == handles_where(
                world.entities@,
                is_fence(),
                world.entities@.len() as int,
            )[i] && live(world.entities@, tiles@[i].0 as int) && tiles@[i].1 == autotile_index(
                world.entities@,
                world.entities@[tiles@[i].0 as int]->0.pos,
            ),
{
    let n = world.entities.len();
    let mut cells: HashSet<u64> = HashSet::with_capacity(10);
    let mut h: usize = 0;
    while h < n
        invariant
            n == world.entities@.len(),
            h <= n,
            marks_fences(cells@, world.entities@, h as int),
        decreases n - h,
    {
        match &world.entities[h] {
            Some(e) => match &e.kind {
                EntityKind::Fence(_) => {
                    let ghost before = cells@;
                    let pos = e.pos;
                    cells.insert(pos.to_key());
                    proof {
                        assert forall|p: TilePos| #![trigger p.key()]
                            cells@.contains(p.key()) <==> exists|k: int|
                                0 <= k < h + 1 && holds(world.entities@, k, p, GameLayer::Fences) by {
                            TilePos::lemma_key_injective(p, pos);
                            if cells@.contains(p.key()) {
                                if p == pos {
                                    assert(holds(world.entities@, h as int, p, GameLayer::Fences));
                                } else {
                                    assert(before.contains(p.key()));
                                    let k = choose|k: int| 0 <= k < h && holds(world.entities@, k, p, GameLayer::Fences);
                                    assert(0 <= k < h + 1 && holds(world.entities@, k, p, GameLayer::Fences));
                                }
                            } else {
                                assert(!before.contains(p.key()));
                            }
                        }
                    }
                },
                _ => {
                    proof {
                        assert forall|p: TilePos| #![trigger p.key()]
                            cells@.contains(p.key()) <==> exists|k: int|
                                0 <= k < h + 1 && holds(world.entities@, k, p, GameLayer::Fences) by {
                            if cells@.contains(p.key()) {
                                let k = choose|k: int| 0 <= k < h && holds(world.entities@, k, p, GameLayer::Fences);
                                assert(0 <= k < h + 1 && holds(world.entities@, k, p, GameLayer::Fences));
                            }
                        }
                    }
                },
            },
            None => {
                proof {
                    assert forall|p: TilePos| #![trigger p.key()]
                        cells@.contains(p.key()) <==> exists|k: int|
                            0 <= k < h + 1 && holds(world.entities@, k, p, GameLayer::Fences) by {
                        if cells@.contains(p.key()) {
                            let k = choose|k: int| 0 <= k < h && holds(world.entities@, k, p, GameLayer::Fences);
                            assert(0 <= k < h + 1 && holds(world.entities@, k, p, GameLayer::Fences));
                        }
                    }
                }
            },
        }
        h += 1;
    }
    let mut tiles: Vec<(usize, u32)> = Vec::new();
    let mut h: usize = 0;
    while h < n
        invariant
            n == world.entities@.len(),
            h <= n,
            marks_fences(cells@, world.entities@, n as int),
            tiles@.len() == handles_where(world.entities@, is_fence(), h as int).len(),
            forall|i: int|
                0 <= i < tiles@.len() ==> (#[trigger] tiles@[i]).0 == handles_where(world.entities@, is_fence(), h as int)[i]
                    && live(world.entities@, tiles@[i].0 as int) && tiles@[i].1 == autotile_index(
                    world.entities@,
                    world.entities@[tiles@[i].0 as int]->0.pos,
                ),
        decreases n - h,
    {
        let fence_pos: Option<TilePos> = match &world.entities[h] {
            Some(e) => match &e.kind {
                EntityKind::Fence(_) => Some(e.pos),
                _ => None,
            },
            None => None,
        };
        if let Some(pos) = fence_pos {
            let x: i64 = pos.x as i64;
            let y: i64 = pos.y as i64;
            let mut index: u32 = 0;
            if has_fence(&cells, x, y + 1, Ghost(world.entities@)) {
                index += 1;
            }
            if has_fence(&cells, x, y - 1, Ghost(world.entities@)) {
                index += 8;
            }
            if has_fence(&cells, x - 1, y, Ghost(world.entities@)) {
                index += 2;
            }
            if has_fence(&cells, x + 1, y, Ghost(world.entities@)) {
                index += 4;
            }
            tiles.push((h, index));
        }
        h += 1;
    }
    tiles
}

/// Cell `k` of the walk round the fence ring: for each `i` from four to
/// seven, the cells `(i, 4)`, `(i, 7)`, `(4, i)` and `(7, i)`. The corners
/// come up twice.
pub open spec fn ring_cell(k: int) -> TilePos {
    let i = (4 + k / 4) as i32;
    if k % 4 == 0 {
        TilePos { x: i, y: 4 }
    } else if k % 4 == 1 {
        TilePos { x: i, y: 7 }
    } else if k % 4 == 2 {
        TilePos { x: 4, y: i }
    } else {
        TilePos { x: 7, y: i }
    }
}

/// Quarter `k` of the prize pumpkin.
pub open spec fn pumpkin_cell(k: int) -> TilePos {
    if k == 0 {
        TilePos { x: 5, y: 5 }
    } else if k == 1 {
        TilePos { x: 6, y: 5 }
    } else if k == 2 {
        TilePos { x: 6, y: 6 }
    } else {
        TilePos { x: 5, y: 6 }
    }
}

/// Item `k` of the opening layout: sixteen fences round the ring, then the
/// four quarters of the prize pumpkin, each worth sixty, ten rounds from ripe
/// and in full health.
pub open spec fn layout_item(k: int) -> Entity {
    if k < 16 {
        Entity { pos: ring_cell(k), kind: EntityKind::Fence(Fence { health: Health(1) }) }
    } else {
        Entity {
            pos: pumpkin_cell(k - 16),
            kind: EntityKind::Plant(
                Plant { score_value: 60, rounds_till_mature: RoundsTillMature(10), health: Health(10), is_prize: true },
            ),
        }
    }
}

/// The display tag of item `k` of the opening layout.
pub open spec fn layout_sprite(k: int) -> Seq<char> {
    if k < 16 {
        "fence"@
    } else if k == 16 {
        "big_pumpkin1"@
    } else if k == 17 {
        "big_pumpkin2"@
    } else if k == 18 {
        "big_pumpkin3"@
    } else {
        "big_pumpkin4"@
    }
}

/// Number of items in the opening layout.
pub const LAYOUT_ITEMS: usize = 20;

/// The arena after the first `k` items of the opening layout have been laid
/// out: each becomes a new entity, unless its cell is already taken on its
/// layer.
pub open spec fn laid_out(es: Seq<Option<Entity>>, k: int) -> Seq<Option<Entity>>
    decreases k,
{
    if k <= 0 {
        es
    } else if occupied(laid_out(es, k - 1), layout_item(k - 1).pos, layout_item(k - 1).layer()) {
        laid_out(es, k - 1)
    } else {
        laid_out(es, k - 1).push(Some(layout_item(k - 1)))
    }
}

/// The display tags of the entities that the first `k` items of the opening
/// layout became, in order.
pub open spec fn laid_out_sprites(es: Seq<Option<Entity>>, k: int) -> Seq<Seq<char>>
    decreases k,
{
    if k <= 0 {
        Seq::empty()
    } else if occupied(laid_out(es, k - 1), layout_item(k - 1).pos, layout_item(k - 1).layer()) {
        laid_out_sprites(es, k - 1)
    } else {
        laid_out_sprites(es, k - 1).push(layout_sprite(k - 1))
    }
}

fn make_layout_item(k: usize) -> (item: (Entity, String))
    requires
        k < LAYOUT_ITEMS,
    ensures
        item.0 == layout_item(k as int),
        item.1@ == layout_sprite(k as int),
{
    if k < 16 {
        let i: i32 = 4 + (k / 4) as i32;
        let pos = if k % 4 == 0 {
            TilePos { x: i, y: 4 }
        } else if k % 4 == 1 {
            TilePos { x: i, y: 7 }
        } else if k % 4 == 2 {
            TilePos { x: 4, y: i }
        } else {
            TilePos { x: 7, y: i }
        };
        (Entity { pos, kind: EntityKind::Fence(Fence { health: Health(1) }) }, "fence".to_string())
    } else {
        let plant = Plant {
            score_value: 60,
            rounds_till_mature: RoundsTillMature(10),
            health: Health(10),
            is_prize: true,
        };
        if k == 16 {
            (Entity { pos: TilePos { x: 5, y: 5 }, kind: EntityKind::Plant(plant) }, "big_pumpkin1".to_string())
        } else if k == 17 {
            (Entity { pos: TilePos { x: 6, y: 5 }, kind: EntityKind::Plant(plant) }, "big_pumpkin2".to_string())
        } else if k == 18 {
            (Entity { pos: TilePos { x: 6, y: 6 }, kind: EntityKind::Plant(plant) }, "big_pumpkin3".to_string())
        } else {
            (Entity { pos: TilePos { x: 5, y: 6 }, kind: EntityKind::Plant(plant) }, "big_pumpkin4".to_string())
        }
    }
}

/// Lays out the opening garden: a ring of fences with the prize pumpkin in
/// its middle. A cell that already holds a fence gets no second one, and
/// likewise for plants. The prize score starts over at zero. Returns one
/// display request per new entity.
pub fn spawn_initial_map(world: &mut World, prize_plant_score: &mut PrizePlantScore) -> (spawned: Vec<
    (usize, String),
>)
    requires
        old(world).wf(),
    ensures
        final(world).entities@ == laid_out(old(world).entities@, LAYOUT_ITEMS as int),
        final(world).config == old(world).config,
        final(world).wf(),
        exclusive(old(world).entities@) ==> exclusive(final(world).entities@),
        final(prize_plant_score).0 == 0,
        spawned@.len() == laid_out_sprites(old(world).entities@, LAYOUT_ITEMS as int).len(),
        spawned@.len() == final(world).entities@.len() - old(world).entities@.len(),
        forall|i: int|
            0 <= i < spawned@.len() ==> (#[trigger] spawned@[i]).0 == old(world).entities@.len() + i
                && spawned@[i].1@ == laid_out_sprites(old(world).entities@, LAYOUT_ITEMS as int)[i],
{
    let ghost initial = world.entities@;
    let ghost config = world.config;
    let mut spawned: Vec<(usize, String)> = Vec::new();
    let mut k: usize = 0;
    while k < LAYOUT_ITEMS
        invariant
            k <= LAYOUT_ITEMS,
            config == world.config,
            world.wf(),
            world.entities@ == laid_out(initial, k as int),
            exclusive(initial) ==> exclusive(world.entities@),
            spawned@.len() == laid_out_sprites(initial, k as int).len(),
            spawned@.len() == world.entities@.len() - initial.len(),
            forall|i: int|
                0 <= i < spawned@.len() ==> (#[trigger] spawned@[i]).0 == initial.len() + i && spawned@[i].1@
                    == laid_out_sprites(initial, k as int)[i],
        decreases LAYOUT_ITEMS - k,
    {
        let (entity, sprite) = make_layout_item(k);
        if world.occupant(entity.pos, entity.layer()).is_none() {
            let handle = world.spawn(entity);
            spawned.push((handle, sprite));
        }
        k += 1;
    }
    prize_plant_score.0 = 0;
    spawned
}

/// The opening layout adds no plant with fewer than ten rounds to go and
/// leaves the entities that were there as they were.
pub proof fn lemma_layout_keeps_countdowns(es: Seq<Option<Entity>>, k: int, floor: int)
    requires
        0 <= k <= LAYOUT_ITEMS,
        floor <= 10,
        countdowns_at_least(es, floor),
    ensures
        countdowns_at_least(laid_out(es, k), floor),
        es.len() <= laid_out(es, k).len(),
        laid_out(es, k).subrange(0, es.len() as int) == es,
    decreases k,
{
    if k > 0 {
        lemma_layout_keeps_countdowns(es, k - 1, floor);
        let prev = laid_out(es, k - 1);
        let next = laid_out(es, k);
        assert(next.subrange(0, es.len() as int) =~= prev.subrange(0, es.len() as int));
        assert forall|h: int| live(next, h) && (#[trigger] next[h])->0.kind is Plant implies next[h]->0.kind->Plant_0.rounds_till_mature.0
            >= floor by {
            if h < prev.len() {
                assert(live(prev, h) && prev[h]->0.kind is Plant);
            }
        }
    } else {
        assert(es.subrange(0, es.len() as int) =~= es);
    }
}

} // verus!
