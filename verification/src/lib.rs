// The turn-based core of a garden game on a grid of cells: the player places
// crops and fences, pests walk in from the border and eat what they reach,
// crops ripen, and in the end the prize pumpkin is judged.
//
// `map`             cells, layers, the size of the garden, fence tiles, the opening layout
// `world`           the arena of entities and its occupancy queries
// `plants`          countdowns, ripening, harvest
// `pests`           movement patterns, the movement pass, spawning
// `placement`       the tile queue and the placement of tiles by the player
// `scoring`         the round score and the ribbons
// `turn_structure`  the phases of a round and the timer that paces the pests
// `game`            one tick of the whole game
// `rng`             the calls into the random number generator

pub mod game;
pub mod map;
pub mod pests;
pub mod placement;
pub mod plants;
pub mod rng;
pub mod scoring;
pub mod turn_structure;
pub mod world;
