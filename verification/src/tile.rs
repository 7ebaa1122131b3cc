use vstd::prelude::*;

verus! {

/// Category of a placed tile, stored on the wire as a single byte.
///
/// `Unknown` is the explicit fallback for bytes outside the known set, so
/// that files written by tools with a larger category set still load.
#[derive(Clone, Copy, Debug, PartialEq, Eq, Structural)]
pub enum TileType {
    Floor,
    Wall,
    Door,
    Unknown,
}

impl TileType {
    /// The category one wire byte decodes to; bytes outside the known set
    /// fall back to `Unknown` rather than failing.
    pub open spec fn spec_from_u8(b: u8) -> TileType {
        if b == 0 {
            TileType::Floor
        } else if b == 1 {
            TileType::Wall
        } else if b == 2 {
            TileType::Door
        } else {
            TileType::Unknown
        }
    }

    /// Decode one wire byte. This never fails: unrecognised values become
    /// the `Unknown` fallback.
    pub fn from_u8(b: u8) -> (t: TileType)
        ensures
            t == TileType::spec_from_u8(b),
    {
        match b {
            0 => TileType::Floor,
            1 => TileType::Wall,
            2 => TileType::Door,
            _ => TileType::Unknown,
        }
    }

    /// The wire byte a category encodes to. `Unknown` keeps a byte of its
    /// own, outside the known set, so that encoding stays invertible.
    pub open spec fn spec_to_u8(self) -> u8 {
        match self {
            TileType::Floor => 0,
            TileType::Wall => 1,
            TileType::Door => 2,
            TileType::Unknown => 255,
        }
    }

    /// Encode one category as its wire byte.
    pub fn to_u8(self) -> (b: u8)
        ensures
            b == self.spec_to_u8(),
    {
        match self {
            TileType::Floor => 0,
            TileType::Wall => 1,
            TileType::Door => 2,
            TileType::Unknown => 255,
        }
    }
}

/// Decoding a category byte inverts encoding, on every category, the
/// `Unknown` fallback included.
pub proof fn lemma_tile_type_round_trip(t: TileType)
    ensures
        TileType::spec_from_u8(t.spec_to_u8()) == t,
{
}

/// The kind and physical properties of one placed tile.
#[derive(Clone, Copy, Debug, PartialEq, Eq, Structural)]
pub struct Tile {
    pub tile_type: TileType,
    pub is_movement_blocking: bool,
    pub is_vision_blocking: bool,
}

} // verus!
