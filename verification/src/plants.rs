use vstd::prelude::*;
use crate::map::GameLayer;
use crate::scoring::PrizePlantScore;
use crate::world::{
    exclusive, handles_where, lemma_without_keeps_exclusive, live, without, Entity, EntityKind, World,
};

verus! {

/// Rounds left until a plant is ripe. It drops by one at the end of every
/// round; a plant whose count is zero or less is taken off the grid at cleanup.
#[derive(Copy, Clone, Debug, PartialEq, Eq, Structural)]
pub struct RoundsTillMature(pub i32);

/// Remaining health of a plant or fence.
#[derive(Copy, Clone, Debug, PartialEq, Eq, Structural)]
pub struct Health(pub i32);

impl Health {
    /// The health read as a score: the same number where it is not negative,
    /// and the number plus two to the thirty-second where it is.
    pub open spec fn score(self) -> u32 {
        if self.0 >= 0 {
            self.0 as u32
        } else {
            (self.0 + 0x1_0000_0000) as u32
        }
    }

    /// The health read as a score.
    pub fn as_score(&self) -> (score: u32)
        ensures
            score == self.score(),
    {
        if self.0 >= 0 {
            self.0 as u32
        } else {
            (self.0 as i64 + 0x1_0000_0000) as u32
        }
    }
}

/// A crop. `score_value` is what it adds to the round score when it ripens.
/// A prize plant is not harvested for the round score: when it ripens, the
/// game ends and its health is judged.
#[derive(Copy, Clone, Debug, PartialEq, Eq, Structural)]
pub struct Plant {
    pub score_value: u32,
    pub rounds_till_mature: RoundsTillMature,
    pub health: Health,
    pub is_prize: bool,
}

impl Plant {
    /// Whether the countdown has run out.
    pub open spec fn is_mature(self) -> bool {
        self.rounds_till_mature.0 <= 0
    }

    /// The plant one round later.
    pub open spec fn aged(self) -> Plant {
        Plant { rounds_till_mature: RoundsTillMature((self.rounds_till_mature.0 - 1) as i32), ..self }
    }
}

/// The plant `rounds` rounds later.
pub open spec fn aged_by(plant: Plant, rounds: nat) -> Plant
    decreases rounds,
{
    if rounds == 0 {
        plant
    } else {
        aged_by(plant, (rounds - 1) as nat).aged()
    }
}

/// A countdown drops by exactly one per round and nothing else about the
/// plant changes, so a plant is ripe after as many rounds as its countdown
/// says, and not before.
pub proof fn lemma_ripens_on_time(plant: Plant, rounds: nat)
    requires
        plant.rounds_till_mature.0 - rounds >= i32::MIN,
    ensures
        aged_by(plant, rounds) == (Plant {
            rounds_till_mature: RoundsTillMature((plant.rounds_till_mature.0 - rounds) as i32),
            ..plant
        }),
        aged_by(plant, rounds).is_mature() <==> rounds >= plant.rounds_till_mature.0,
    decreases rounds,
{
    if rounds > 0 {
        lemma_ripens_on_time(plant, (rounds - 1) as nat);
    }
}

/// An entity one round later: a plant has aged, anything else is as it was.
pub open spec fn aged(e: Entity) -> Entity {
    match e.kind {
        EntityKind::Plant(p) => Entity { pos: e.pos, kind: EntityKind::Plant(p.aged()) },
        _ => e,
    }
}

/// The arena one round later.
pub open spec fn all_aged(es: Seq<Option<Entity>>) -> Seq<Option<Entity>> {
    Seq::new(
        es.len(),
        |h: int|
            match es[h] {
                Some(e) => Some(aged(e)),
                None => None,
            },
    )
}

/// Every live plant has at least `floor` rounds to go.
pub open spec fn countdowns_at_least(es: Seq<Option<Entity>>, floor: int) -> bool {
    forall|h: int|
        live(es, h) && (#[trigger] es[h])->0.kind is Plant ==> es[h]->0.kind->Plant_0.rounds_till_mature.0 >= floor
}

/// Takes one round off the countdown of every plant. No countdown may stand
/// at the lowest number an `i32` holds.
pub fn increment_maturity(world: &mut World)
    requires
        countdowns_at_least(old(world).entities@, i32::MIN + 1),
    ensures
        final(world).entities@ == all_aged(old(world).entities@),
        final(world).config == old(world).config,
        old(world).wf() ==> final(world).wf(),
        exclusive(old(world).entities@) ==> exclusive(final(world).entities@),
{
    proof {
        if exclusive(world.entities@) {
            lemma_aged_keeps_exclusive(world.entities@);
        }
    }
    let n = world.entities.len();
    let ghost initial = world.entities@;
    let ghost config = world.config;
    let mut h: usize = 0;
    while h < n
        invariant
            n == world.entities@.len(),
            n == initial.len(),
            h <= n,
            config == world.config,
            countdowns_at_least(initial, i32::MIN + 1),
            forall|k: int| 0 <= k < h ==> world.entities@[k] == all_aged(initial)[k],
            forall|k: int| h <= k < n ==> world.entities@[k] == initial[k],
        decreases n - h,
    {
        assert(live(initial, h as int) && initial[h as int]->0.kind is Plant
            ==> initial[h as int]->0.kind->Plant_0.rounds_till_mature.0 >= i32::MIN + 1);
        match &mut world.entities[h] {
            Some(e) => {
                match &mut e.kind {
                    EntityKind::Plant(plant) => {
                        plant.rounds_till_mature.0 = plant.rounds_till_mature.0 - 1;
                    },
                    _ => {},
                }
            },
            None => {},
        }
        h += 1;
    }
    proof {
        assert(world.entities@ =~= all_aged(initial));
        if old(world).wf() {
            assert forall|k: int| 0 <= k < n && (#[trigger] world.entities@[k]) is Some implies world.entities@[k]->0.wf() by {
                assert(initial[k] is Some ==> initial[k]->0.wf());
            }
        }
    }
}

/// Whether a prize plant is still on the field.
pub open spec fn has_prize_plant(es: Seq<Option<Entity>>) -> bool {
    exists|h: int| live(es, h) && (#[trigger] es[h])->0.kind is Plant && es[h]->0.kind->Plant_0.is_prize
}

/// Decides whether the game is lost for want of a prize plant: true when and
/// only when no prize plant is left on the field.
pub fn fail_out_to_scoring(world: &World) -> (lost: bool)
    ensures
        lost == !has_prize_plant(world.entities@),
{
    let n = world.entities.len();
    let mut h: usize = 0;
    while h < n
        invariant
            n == world.entities@.len(),
            h <= n,
            forall|k: int|
                0 <= k < h && live(world.entities@, k) && (#[trigger] world.entities@[k])->0.kind is Plant
                    ==> !world.entities@[k]->0.kind->Plant_0.is_prize,
        decreases n - h,
    {
        match &world.entities[h] {
            Some(e) => match &e.kind {
                EntityKind::Plant(plant) => {
                    if plant.is_prize {
                        assert(live(world.entities@, h as int));
                        return false;
                    }
                },
                _ => {},
            },
            None => {},
        }
        h += 1;
    }
    true
}

/// Whether an entity is a prize plant whose countdown has run out.
pub open spec fn is_ripe_prize(e: Entity) -> bool {
    e.kind matches EntityKind::Plant(p) && p.is_prize && p.is_mature()
}

/// The health of the ripe prize plant with the highest handle among the
/// first `n`, if there is one.
pub open spec fn ripe_prize(es: Seq<Option<Entity>>, n: int) -> Option<Health>
    decreases n,
{
    if n <= 0 {
        None
    } else if es[n - 1] is Some && is_ripe_prize(es[n - 1]->0) {
        Some(es[n - 1]->0.kind->Plant_0.health)
    } else {
        ripe_prize(es, n - 1)
    }
}

/// Looks for a prize plant whose countdown has run out and returns its
/// health; of several, that of the one with the highest handle.
pub fn ripe_prize_plant(world: &World) -> (health: Option<Health>)
    ensures
        health == ripe_prize(world.entities@, world.entities@.len() as int),
{
    let n = world.entities.len();
    let mut found: Option<Health> = None;
    let mut h: usize = 0;
    while h < n
        invariant
            n == world.entities@.len(),
            h <= n,
            found == ripe_prize(world.entities@, h as int),
        decreases n - h,
    {
        match &world.entities[h] {
            Some(e) => match &e.kind {
                EntityKind::Plant(plant) => {
                    if plant.is_prize && plant.rounds_till_mature.0 <= 0 {
                        found = Some(plant.health);
                    }
                },
                _ => {},
            },
            None => {},
        }
        h += 1;
    }
    found
}

/// The entities that round cleanup harvests: the plants whose countdown has
/// run out.
pub open spec fn is_mature_plant() -> spec_fn(Entity) -> bool {
    |e: Entity| e.kind matches EntityKind::Plant(p) && p.is_mature()
}

/// Takes every plant whose countdown has run out off the field and returns
/// the handles, ascending. If a prize plant is among them, its health becomes
/// the prize score and the second result is true: the game goes to scoring.
pub fn despawn_mature_plants(world: &mut World, prize_plant_score: &mut PrizePlantScore) -> (harvest: (
    Vec<usize>,
    bool,
))
    ensures
        final(world).entities@ == without(old(world).entities@, is_mature_plant()),
        harvest.0@ == handles_where(old(world).entities@, is_mature_plant(), old(world).entities@.len() as int),
        harvest.1 == ripe_prize(old(world).entities@, old(world).entities@.len() as int) is Some,
        final(prize_plant_score).0 == (match ripe_prize(old(world).entities@, old(world).entities@.len() as int) {
            Some(health) => health.score(),
            None => old(prize_plant_score).0,
        }),
        final(world).config == old(world).config,
        old(world).wf() ==> final(world).wf(),
        exclusive(old(world).entities@) ==> exclusive(final(world).entities@),
        countdowns_at_least(final(world).entities@, 1),
{
    proof {
        if exclusive(world.entities@) {
            lemma_without_keeps_exclusive(world.entities@, is_mature_plant());
        }
    }
    let n = world.entities.len();
    let ghost initial = world.entities@;
    let ghost config = world.config;
    let ghost score_before = prize_plant_score.0;
    let mut despawned: Vec<usize> = Vec::new();
    let mut to_scoring = false;
    let mut h: usize = 0;
    while h < n
        invariant
            n == world.entities@.len(),
            n == initial.len(),
            h <= n,
            config == world.config,
            forall|k: int| 0 <= k < h ==> world.entities@[k] == without(initial, is_mature_plant())[k],
            forall|k: int| h <= k < n ==> world.entities@[k] == initial[k],
            despawned@ == handles_where(initial, is_mature_plant(), h as int),
            to_scoring == ripe_prize(initial, h as int) is Some,
            prize_plant_score.0 == (match ripe_prize(initial, h as int) {
                Some(health) => health.score(),
                None => score_before,
            }),
        decreases n - h,
    {
        let ripe: Option<(bool, Health)> = match &world.entities[h] {
            Some(e) => match &e.kind {
                EntityKind::Plant(plant) => if plant.rounds_till_mature.0 <= 0 {
                    Some((plant.is_prize, plant.health))
                } else {
                    None
                },
                _ => None,
            },
            None => None,
        };
        if let Some((is_prize, health)) = ripe {
            world.entities[h] = None;
            despawned.push(h);
            if is_prize {
                prize_plant_score.0 = health.as_score();
                to_scoring = true;
            }
        }
        h += 1;
    }
    proof {
        assert(world.entities@ =~= without(initial, is_mature_plant()));
    }
    (despawned, to_scoring)
}

/// Ageing the plants does not make two fences, or two plants, share a cell.
pub proof fn lemma_aged_keeps_exclusive(es: Seq<Option<Entity>>)
    requires
        exclusive(es),
    ensures
        exclusive(all_aged(es)),
{
    let after = all_aged(es);
    assert forall|a: int, b: int|
        live(after, a) && live(after, b) && a != b && (#[trigger] after[a])->0.pos == (#[trigger] after[b])->0.pos
            && after[a]->0.layer() == after[b]->0.layer() implies after[a]->0.layer() == GameLayer::Pests by {
        assert(after[a]->0 == aged(es[a]->0) && after[b]->0 == aged(es[b]->0));
        assert(live(es, a) && live(es, b) && es[a]->0.pos == es[b]->0.pos && es[a]->0.layer() == es[b]->0.layer());
    }
}

} // verus!
