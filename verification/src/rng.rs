use vstd::prelude::*;
use rand::rngs::StdRng;
use rand::seq::SliceRandom;
use rand::Rng;
use crate::map::TilePos;
use crate::placement::PlacableTile;

verus! {

/// `rand::rngs::StdRng`, the seedable generator that every draw of the game
/// is made from. Nothing is known of what is inside.
#[verifier::external_type_specification]
#[verifier::external_body]
pub struct ExStdRng(rand::rngs::StdRng);

/// `picked` lists entries of `cells` taken at pairwise distinct indices.
pub open spec fn drawn_without_repetition(picked: Seq<TilePos>, cells: Seq<TilePos>) -> bool {
    exists|idx: Seq<int>|
        idx.len() == picked.len() && idx.no_duplicates() && forall|i: int|
            0 <= i < idx.len() ==> 0 <= #[trigger] idx[i] < cells.len() && picked[i] == cells[idx[i]]
}

/// `Rng::gen_range` on a half-open range of `usize`. The range must not be
/// empty, or the call panics; the number drawn lies in the range. Which
/// number it is depends on the generator and is not stated.
#[verifier::external_body]
pub(crate) fn draw_between(rng: &mut StdRng, low: usize, high: usize) -> (n: usize)
    requires
        low < high,
    ensures
        low <= n < high,
{
    rng.gen_range(low..high)
}

/// `Rng::gen_ratio`: true with a chance of `numerator` in `denominator`. The
/// call panics on a zero denominator and on a ratio above one. Nothing is
/// stated of the outcome.
#[verifier::external_body]
pub(crate) fn draw_ratio(rng: &mut StdRng, numerator: u32, denominator: u32) -> (hit: bool)
    requires
        0 < denominator,
        numerator <= denominator,
{
    rng.gen_ratio(numerator, denominator)
}

/// `SliceRandom::choose_multiple`, collected: `amount` entries of `cells`, or
/// all of them if there are fewer, taken at distinct indices, in an order
/// that is not stated.
#[verifier::external_body]
pub(crate) fn choose_cells(rng: &mut StdRng, cells: &Vec<TilePos>, amount: usize) -> (picked: Vec<TilePos>)
    ensures
        picked@.len() == if amount <= cells@.len() {
            amount as int
        } else {
            cells@.len() as int
        },
        drawn_without_repetition(picked@, cells@),
{
    cells.choose_multiple(rng, amount).copied().collect()
}

/// `SliceRandom::choose`: nothing from an empty list, else one of its
/// entries. Which one depends on the generator and is not stated.
#[verifier::external_body]
pub(crate) fn choose_tile(rng: &mut StdRng, tiles: &Vec<PlacableTile>) -> (picked: Option<PlacableTile>)
    ensures
        tiles@.len() == 0 ==> picked is None,
        tiles@.len() > 0 ==> picked is Some && tiles@.contains(picked->0),
{
    tiles.choose(rng).copied()
}

} // verus!
