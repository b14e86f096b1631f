//! Shogi (Japanese chess) positions and move legality, with every function's
//! behaviour stated and proved.
//!
//! - value types: [`color`], [`square`], [`piece_kind`], [`piece`], [`mv`]
//! - sets of squares: [`bitboard`]
//! - position state: [`hand`], [`position`], and a game record in [`game`]
//! - the attack generator: [`normal`]
//! - legality: [`prelegality`] (the first phase, the king-safety test and the mate
//!   oracle) and [`legality`] (both phases, move lists and candidate squares)
//! - notation: reading USI/SFEN text in [`usi`], and writing kifu notation in [`kifu`]
//!   with its [`disambiguation`]
use vstd::prelude::*;

pub mod color;
pub mod square;
pub mod piece_kind;
pub mod piece;
pub mod bitboard;
pub mod hand;
pub mod mv;
pub mod position;
pub mod game;
pub mod normal;
pub mod prelegality;
pub mod legality;
pub mod usi;
pub mod disambiguation;
pub mod kifu;

verus! {

} // verus!
