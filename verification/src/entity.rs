use crate::tile::Tile;
use vstd::prelude::*;

verus! {

/// A grid position, in the same signed coordinate space as the board size.
#[derive(Clone, Copy, Debug, PartialEq, Eq, Structural)]
pub struct Position {
    pub x: i32,
    pub y: i32,
}

/// One placed object: a tile-valued entity at a position on the board.
#[derive(Clone, Copy, Debug, PartialEq, Eq, Structural)]
pub struct Entity {
    pub pos: Position,
    pub tile: Tile,
}

} // verus!
