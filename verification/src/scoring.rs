use vstd::prelude::*;
use crate::world::{Entity, EntityKind, World};

verus! {

/// The score of the prize plant, as last judged.
#[derive(Copy, Clone, Debug, PartialEq, Eq, Structural)]
pub struct PrizePlantScore(pub u32);

impl Default for PrizePlantScore {
    fn default() -> (score: PrizePlantScore)
        ensures
            score.0 == 0,
    {
        PrizePlantScore(0)
    }
}

/// The ribbon a prize score earns.
#[derive(Copy, Clone, Debug, PartialEq, Eq, Structural)]
pub enum Prize {
    NoPrize,
    ThirdPrize,
    SecondPrize,
    FirstPrize,
}

/// A score of zero earns nothing, a score of ten the first prize, a score
/// above five the second, and any other the third.
pub open spec fn prize_band(score: u32) -> Prize {
    if score == 0 {
        Prize::NoPrize
    } else if score == 10 {
        Prize::FirstPrize
    } else if score > 5 {
        Prize::SecondPrize
    } else {
        Prize::ThirdPrize
    }
}

impl Prize {
    /// The display tag of the ribbon.
    pub open spec fn sprite_name(self) -> Seq<char> {
        match self {
            Prize::NoPrize => "no_prize"@,
            Prize::ThirdPrize => "third_prize"@,
            Prize::SecondPrize => "second_prize"@,
            Prize::FirstPrize => "first_prize"@,
        }
    }

    /// The display tag of the ribbon.
    pub fn sprite(&self) -> (name: String)
        ensures
            name@ == self.sprite_name(),
    {
        match self {
            Prize::NoPrize => "no_prize".to_string(),
            Prize::ThirdPrize => "third_prize".to_string(),
            Prize::SecondPrize => "second_prize".to_string(),
            Prize::FirstPrize => "first_prize".to_string(),
        }
    }
}

/// Judges the prize plant: picks the ribbon for the score.
pub fn score_prize_plant(score: &PrizePlantScore) -> (prize: Prize)
    ensures
        prize == prize_band(score.0),
{
    if score.0 == 0 {
        Prize::NoPrize
    } else if score.0 == 10 {
        Prize::FirstPrize
    } else if score.0 > 5 {
        Prize::SecondPrize
    } else {
        Prize::ThirdPrize
    }
}

/// What an entity adds to the round score: its score value if it is an
/// ordinary plant whose countdown stands at zero, else nothing.
pub open spec fn harvest_value(e: Entity) -> nat {
    match e.kind {
        EntityKind::Plant(p) => if !p.is_prize && p.rounds_till_mature.0 == 0 {
            p.score_value as nat
        } else {
            0
        },
        _ => 0,
    }
}

/// The round score over the first `n` handles.
pub open spec fn round_score(es: Seq<Option<Entity>>, n: int) -> nat
    decreases n,
{
    if n <= 0 {
        0
    } else {
        round_score(es, n - 1) + (match es[n - 1] {
            Some(e) => harvest_value(e),
            None => 0,
        })
    }
}

proof fn lemma_round_score_bound(es: Seq<Option<Entity>>, n: int)
    requires
        0 <= n,
    ensures
        round_score(es, n) <= n * 0xffff_ffff,
    decreases n,
{
    if n > 0 {
        lemma_round_score_bound(es, n - 1);
    }
}

/// Tallies the round score: the sum of the score values of the ordinary
/// plants whose countdown stands at zero.
pub fn score(world: &World) -> (total: u128)
    ensures
        total == round_score(world.entities@, world.entities@.len() as int),
{
    let n = world.entities.len();
    let mut total: u128 = 0;
    let mut h: usize = 0;
    while h < n
        invariant
            n == world.entities@.len(),
            h <= n,
            total == round_score(world.entities@, h as int),
        decreases n - h,
    {
        proof {
            lemma_round_score_bound(world.entities@, h as int);
        }
        match &world.entities[h] {
            Some(e) => match &e.kind {
                EntityKind::Plant(plant) => {
                    if !plant.is_prize && plant.rounds_till_mature.0 == 0 {
                        total = total + plant.score_value as u128;
                    }
                },
                _ => {},
            },
            None => {},
        }
        h += 1;
    }
    total
}

} // verus!
