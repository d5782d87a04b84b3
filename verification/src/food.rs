//! Food items that the game-round controller spawns and the snake consumes.

use vstd::prelude::*;
use crate::geom::Point;

verus! {

/// The texture names that spawned food may draw from.
pub type FoodTypes = Vec<String>;

/// One spawned food item.  `size` and `point` are in fixed-point units
/// (see `geom::UNIT`); `amount` is the power reward for eating it.
#[derive(Clone)]
pub struct Food {
    pub texture: String,
    pub size: i64,
    pub amount: u32,
    pub point: Point,
}

} // verus!
