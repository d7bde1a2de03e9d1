use vstd::prelude::*;
use crate::map::{Fence, GameLayer, GridConfig, TilePos};
use crate::pests::Pest;
use crate::plants::Plant;

verus! {

/// What an entity is, with the state that belongs to its kind.
#[derive(Clone, Debug, PartialEq, Eq)]
pub enum EntityKind {
    Plant(Plant),
    Fence(Fence),
    /// An idle pest waits on the border and takes no part in movement until
    /// the next round setup walks it in.
    Pest { pest: Pest, idle: bool },
}

/// Something on the grid.
#[derive(Clone, Debug, PartialEq, Eq)]
pub struct Entity {
    pub pos: TilePos,
    pub kind: EntityKind,
}

impl Entity {
    /// The layer the entity occupies.
    pub open spec fn spec_layer(&self) -> GameLayer {
        match self.kind {
            EntityKind::Plant(_) => GameLayer::Plants,
            EntityKind::Fence(_) => GameLayer::Fences,
            EntityKind::Pest { .. } => GameLayer::Pests,
        }
    }

    /// The layer the entity occupies.
    #[verifier::when_used_as_spec(spec_layer)]
    pub fn layer(&self) -> (layer: GameLayer)
        ensures
            layer == self.spec_layer(),
    {
        match &self.kind {
            EntityKind::Plant(_) => GameLayer::Plants,
            EntityKind::Fence(_) => GameLayer::Fences,
            EntityKind::Pest { .. } => GameLayer::Pests,
        }
    }

    /// A pest must have a pattern to walk; other entities are always sound.
    pub open spec fn wf(self) -> bool {
        self.kind matches EntityKind::Pest { pest, .. } ==> pest.wf()
    }

    /// A pest that takes part in movement.
    pub open spec fn is_active_pest(self) -> bool {
        self.kind matches EntityKind::Pest { idle, .. } && !idle
    }

    pub open spec fn is_fence(self) -> bool {
        self.kind is Fence
    }

    pub open spec fn is_plant(self) -> bool {
        self.kind is Plant
    }
}

/// Every live entity is sound.
pub open spec fn entities_wf(es: Seq<Option<Entity>>) -> bool {
    forall|h: int| 0 <= h < es.len() && (#[trigger] es[h]) is Some ==> es[h]->0.wf()
}

/// Handle `h` names a live entity.
pub open spec fn live(es: Seq<Option<Entity>>, h: int) -> bool {
    0 <= h < es.len() && es[h] is Some
}

/// Handle `h` names a live entity on `layer` at `pos`.
pub open spec fn holds(es: Seq<Option<Entity>>, h: int, pos: TilePos, layer: GameLayer) -> bool {
    live(es, h) && es[h]->0.pos == pos && es[h]->0.layer() == layer
}

/// Some live entity occupies `layer` at `pos`.
pub open spec fn occupied(es: Seq<Option<Entity>>, pos: TilePos, layer: GameLayer) -> bool {
    exists|h: int| holds(es, h, pos, layer)
}

/// No two live entities share a cell on the fence layer, and none on the
/// plant layer. Pests are not held to this: a pest that does not care for
/// what is in its way may walk onto another.
pub open spec fn exclusive(es: Seq<Option<Entity>>) -> bool {
    forall|a: int, b: int|
        live(es, a) && live(es, b) && a != b && (#[trigger] es[a])->0.pos == (#[trigger] es[b])->0.pos
            && es[a]->0.layer() == es[b]->0.layer() ==> es[a]->0.layer() == GameLayer::Pests
}

/// Taking entities away does not make two others share a cell.
pub proof fn lemma_without_keeps_exclusive(es: Seq<Option<Entity>>, pred: spec_fn(Entity) -> bool)
    requires
        exclusive(es),
    ensures
        exclusive(without(es, pred)),
{
    let rest = without(es, pred);
    assert forall|a: int, b: int|
        live(rest, a) && live(rest, b) && a != b && (#[trigger] rest[a])->0.pos == (#[trigger] rest[b])->0.pos
            && rest[a]->0.layer() == rest[b]->0.layer() implies rest[a]->0.layer() == GameLayer::Pests by {
        assert(rest[a] == es[a] && rest[b] == es[b]);
    }
}

/// The handles of the first `n` slots whose live entity meets `pred`, ascending.
pub open spec fn handles_where(es: Seq<Option<Entity>>, pred: spec_fn(Entity) -> bool, n: int) -> Seq<usize>
    decreases n,
{
    if n <= 0 {
        Seq::empty()
    } else if es[n - 1] is Some && pred(es[n - 1]->0) {
        handles_where(es, pred, n - 1).push((n - 1) as usize)
    } else {
        handles_where(es, pred, n - 1)
    }
}

/// The arena with every entity that meets `pred` removed.
pub open spec fn without(es: Seq<Option<Entity>>, pred: spec_fn(Entity) -> bool) -> Seq<Option<Entity>> {
    Seq::new(
        es.len(),
        |h: int|
            if es[h] is Some && pred(es[h]->0) {
                None
            } else {
                es[h]
            },
    )
}

/// The arena of entities. A handle is an index into `entities`; the slot of an
/// entity that left the simulation stays behind, empty, so handles are never
/// reused.
#[derive(Clone, Debug, PartialEq, Eq)]
pub struct World {
    pub config: GridConfig,
    pub entities: Vec<Option<Entity>>,
}

impl World {
    /// The grid is sound and so is every live entity.
    pub open spec fn wf(&self) -> bool {
        self.config.wf() && entities_wf(self.entities@)
    }

    /// An empty garden.
    pub fn new(config: GridConfig) -> (world: World)
        requires
            config.wf(),
        ensures
            world.config == config,
            world.entities@ == Seq::<Option<Entity>>::empty(),
            world.wf(),
    {
        World { config, entities: Vec::new() }
    }

    /// Number of handles given out so far.
    pub fn len(&self) -> (n: usize)
        ensures
            n == self.entities@.len(),
    {
        self.entities.len()
    }

    /// Adds an entity and returns its handle.
    pub fn spawn(&mut self, entity: Entity) -> (handle: usize)
        requires
            old(self).wf(),
            entity.wf(),
        ensures
            handle == old(self).entities@.len(),
            final(self).entities@ == old(self).entities@.push(Some(entity)),
            final(self).config == old(self).config,
            final(self).wf(),
            exclusive(old(self).entities@) && (entity.layer() == GameLayer::Pests || !occupied(
                old(self).entities@,
                entity.pos,
                entity.layer(),
            )) ==> exclusive(final(self).entities@),
    {
        proof {
            let es = self.entities@;
            let grown = es.push(Some(entity));
            if exclusive(es) && (entity.layer() == GameLayer::Pests || !occupied(es, entity.pos, entity.layer())) {
                assert forall|a: int, b: int|
                    live(grown, a) && live(grown, b) && a != b && (#[trigger] grown[a])->0.pos == (
                    #[trigger] grown[b])->0.pos && grown[a]->0.layer() == grown[b]->0.layer() implies grown[a]->0.layer()
                    == GameLayer::Pests by {
                    if a < es.len() && b < es.len() {
                        assert(grown[a] == es[a] && grown[b] == es[b]);
                    } else if a < es.len() {
                        assert(grown[a] == es[a]);
                        assert(holds(es, a, entity.pos, entity.layer()));
                    } else {
                        assert(grown[b] == es[b]);
                        assert(holds(es, b, entity.pos, entity.layer()));
                    }
                }
            }
        }
        let handle = self.entities.len();
        self.entities.push(Some(entity));
        handle
    }

    /// Removes the entity behind `handle`, if there is one, and says whether
    /// there was.
    pub fn despawn(&mut self, handle: usize) -> (was_live: bool)
        ensures
            was_live == live(old(self).entities@, handle as int),
            was_live ==> final(self).entities@ == old(self).entities@.update(handle as int, None),
            !was_live ==> final(self).entities@ == old(self).entities@,
            final(self).config == old(self).config,
            old(self).wf() ==> final(self).wf(),
            exclusive(old(self).entities@) ==> exclusive(final(self).entities@),
    {
        if handle < self.entities.len() {
            let was_live = self.entities[handle].is_some();
            if was_live {
                self.entities[handle] = None;
            }
            was_live
        } else {
            false
        }
    }

    /// Whether `handle` names a live entity.
    pub fn is_live(&self, handle: usize) -> (yes: bool)
        ensures
            yes == live(self.entities@, handle as int),
    {
        handle < self.entities.len() && self.entities[handle].is_some()
    }

    /// The entity behind `handle`.
    pub fn get(&self, handle: usize) -> (entity: Option<&Entity>)
        ensures
            live(self.entities@, handle as int) ==> entity == Some(&self.entities@[handle as int]->0),
            !live(self.entities@, handle as int) ==> entity is None,
    {
        if handle < self.entities.len() {
            self.entities[handle].as_ref()
        } else {
            None
        }
    }

    /// The first live entity, by handle, that occupies `layer` at `pos`.
    pub fn occupant(&self, pos: TilePos, layer: GameLayer) -> (found: Option<usize>)
        ensures
            match found {
                Some(h) => holds(self.entities@, h as int, pos, layer) && forall|j: int|
                    0 <= j < h ==> !holds(self.entities@, j, pos, layer),
                None => !occupied(self.entities@, pos, layer),
            },
    {
        let n = self.entities.len();
        let mut h: usize = 0;
        while h < n
            invariant
                n == self.entities@.len(),
                h <= n,
                forall|j: int| 0 <= j < h ==> !holds(self.entities@, j, pos, layer),
            decreases n - h,
        {
            match &self.entities[h] {
                Some(e) => {
                    if e.pos == pos && e.layer() == layer {
                        return Some(h);
                    }
                },
                None => {},
            }
            h += 1;
        }
        None
    }

    /// The live entities on `layer`, as handle and cell, in handle order.
    pub fn occupants(&self, layer: GameLayer) -> (cells: Vec<(usize, TilePos)>)
        ensures
            forall|i: int|
                0 <= i < cells@.len() ==> holds(self.entities@, (#[trigger] cells@[i]).0 as int, cells@[i].1, layer),
            forall|i: int, j: int| 0 <= i < j < cells@.len() ==> cells@[i].0 < cells@[j].0,
            forall|h: int|
                live(self.entities@, h) && (#[trigger] self.entities@[h])->0.layer() == layer ==> exists|i: int|
                    0 <= i < cells@.len() && cells@[i] == (h as usize, self.entities@[h]->0.pos),
    {
        let n = self.entities.len();
        let mut cells: Vec<(usize, TilePos)> = Vec::new();
        let mut h: usize = 0;
        while h < n
            invariant
                n == self.entities@.len(),
                h <= n,
                forall|i: int|
                    0 <= i < cells@.len() ==> holds(
                        self.entities@,
                        (#[trigger] cells@[i]).0 as int,
                        cells@[i].1,
                        layer,
                    ) && cells@[i].0 < h,
                forall|i: int, j: int| 0 <= i < j < cells@.len() ==> cells@[i].0 < cells@[j].0,
                forall|k: int|
                    0 <= k < h && live(self.entities@, k) && (#[trigger] self.entities@[k])->0.layer() == layer
                        ==> exists|i: int|
                        0 <= i < cells@.len() && cells@[i] == (k as usize, self.entities@[k]->0.pos),
            decreases n - h,
        {
            match &self.entities[h] {
                Some(e) => {
                    if e.layer() == layer {
                        let ghost before = cells@;
                        cells.push((h, e.pos));
                        proof {
                            assert(cells@[before.len() as int] == (h, e.pos));
                            assert forall|k: int|
                                0 <= k < h + 1 && live(self.entities@, k) && (#[trigger] self.entities@[k])->0.layer()
                                    == layer implies exists|i: int|
                                0 <= i < cells@.len() && cells@[i] == (k as usize, self.entities@[k]->0.pos) by {
                                if k < h {
                                    let i = choose|i: int|
                                        0 <= i < before.len() && before[i] == (k as usize, self.entities@[k]->0.pos);
                                    assert(cells@[i] == before[i]);
                                } else {
                                    assert(cells@[before.len() as int] == (k as usize, self.entities@[k]->0.pos));
                                }
                            }
                        }
                    }
                },
                None => {},
            }
            h += 1;
        }
        cells
    }
}

} // verus!
