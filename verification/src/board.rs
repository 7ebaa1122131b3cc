use crate::entity::{Entity, Position};
use crate::tile::{Tile, TileType};
use crate::wire::{
    bool_to_byte, byte_to_bool, i32_from_le_bytes, i32_to_le_bytes, lemma_i32_to_from_le_bytes,
    spec_bool_to_byte, spec_byte_to_bool, spec_i32_from_le_bytes, spec_i32_to_le_bytes, HEADER_LEN,
    RECORD_LEN,
};
use vstd::prelude::*;
use vstd::slice::{slice_index_get, slice_subrange};

verus! {

/// A plain (width, height) pair describing the board size.
#[derive(Clone, Copy, Debug, PartialEq, Eq, Structural)]
pub struct Rect {
    pub width: i32,
    pub height: i32,
}

/// The full persisted map: dimensions, display scale, and the placed
/// entities in file order.
#[derive(Clone, Debug, PartialEq)]
pub struct Board {
    pub size: Rect,
    pub scale: i32,
    pub entities: Vec<Entity>,
}

/// The one hard decoding failure: the stream ended before the 12-byte
/// header was complete.
#[derive(Clone, Copy, Debug, PartialEq, Eq, Structural)]
pub enum LoadError {
    HeaderRead,
}

/// The outcome of one attempt to read an entity record.
///
/// A failed read is the designed terminator of the entity list, not an
/// error; `CleanEnd` and `Truncated` let a caller tell a stream that ends
/// exactly on a record boundary from one that ends inside a record.
#[derive(Clone, Copy, Debug, PartialEq, Eq, Structural)]
pub enum RecordRead {
    /// A full record was present; it decodes to this entity.
    Record(Entity),
    /// No byte of a further record was present.
    CleanEnd,
    /// The stream ends inside a record; the partial bytes are abandoned.
    Truncated,
}

/// The wire bytes of one entity record: x, then y, each four bytes
/// little-endian, then the movement-blocking, vision-blocking and
/// tile-type bytes.
pub open spec fn spec_record_bytes(e: Entity) -> Seq<u8> {
    spec_i32_to_le_bytes(e.pos.x) + spec_i32_to_le_bytes(e.pos.y) + seq![
        spec_bool_to_byte(e.tile.is_movement_blocking),
        spec_bool_to_byte(e.tile.is_vision_blocking),
        e.tile.tile_type.spec_to_u8(),
    ]
}

/// The entity one full record decodes to.
pub open spec fn spec_record_of(s: Seq<u8>) -> Entity
    recommends
        s.len() == RECORD_LEN,
{
    Entity {
        pos: Position {
            x: spec_i32_from_le_bytes(s.subrange(0, 4)),
            y: spec_i32_from_le_bytes(s.subrange(4, 8)),
        },
        tile: Tile {
            tile_type: TileType::spec_from_u8(s[10]),
            is_movement_blocking: spec_byte_to_bool(s[8]),
            is_vision_blocking: spec_byte_to_bool(s[9]),
        },
    }
}

/// A record is `RECORD_LEN` bytes long, and decoding it gives the entity
/// back, field for field.
pub proof fn lemma_record_round_trip(e: Entity)
    ensures
        spec_record_bytes(e).len() == RECORD_LEN,
        spec_record_of(spec_record_bytes(e)) == e,
{
    lemma_i32_to_from_le_bytes(e.pos.x);
    lemma_i32_to_from_le_bytes(e.pos.y);
    let s = spec_record_bytes(e);
    assert(s.subrange(0, 4) =~= spec_i32_to_le_bytes(e.pos.x));
    assert(s.subrange(4, 8) =~= spec_i32_to_le_bytes(e.pos.y));
}

/// The entities read from an entity stream: one record after another,
/// until fewer bytes than a full record remain.
pub open spec fn spec_entities_from(s: Seq<u8>) -> Seq<Entity>
    decreases s.len(),
{
    if s.len() < RECORD_LEN {
        Seq::empty()
    } else {
        seq![spec_record_of(s.take(RECORD_LEN as int))] + spec_entities_from(
            s.skip(RECORD_LEN as int),
        )
    }
}

/// The wire bytes of a whole entity sequence, in order.
pub open spec fn spec_records_bytes(es: Seq<Entity>) -> Seq<u8>
    decreases es.len(),
{
    if es.len() == 0 {
        Seq::empty()
    } else {
        spec_record_bytes(es[0]) + spec_records_bytes(es.skip(1))
    }
}

/// An encoded entity sequence takes exactly `RECORD_LEN` bytes per entity.
pub proof fn lemma_records_bytes_len(es: Seq<Entity>)
    ensures
        spec_records_bytes(es).len() == RECORD_LEN * es.len(),
    decreases es.len(),
{
    if es.len() == 0 {
    } else {
        lemma_record_round_trip(es[0]);
        lemma_records_bytes_len(es.skip(1));
    }
}

/// Appending one entity to a sequence appends its record to the bytes.
pub proof fn lemma_records_bytes_push(es: Seq<Entity>, e: Entity)
    ensures
        spec_records_bytes(es.push(e)) == spec_records_bytes(es) + spec_record_bytes(e),
    decreases es.len(),
{
    if es.len() == 0 {
        assert(es.push(e)[0] == e);
        assert(es.push(e).skip(1) =~= Seq::<Entity>::empty());
        assert(es =~= Seq::<Entity>::empty());
        assert(spec_records_bytes(es.push(e)) == spec_record_bytes(e) + spec_records_bytes(
            Seq::<Entity>::empty(),
        ));
        assert(spec_records_bytes(es.push(e)) =~= spec_records_bytes(es) + spec_record_bytes(e));
    } else {
        lemma_records_bytes_push(es.skip(1), e);
        assert(es.push(e)[0] == es[0]);
        assert(es.push(e).skip(1) =~= es.skip(1).push(e));
        assert(spec_records_bytes(es.push(e)) == spec_record_bytes(es[0]) + spec_records_bytes(
            es.skip(1).push(e),
        ));
        assert(spec_records_bytes(es.push(e)) =~= spec_records_bytes(es) + spec_record_bytes(e));
    }
}

/// Reading records back from an encoded entity sequence gives the same
/// sequence: the record reader inverts the record writer.
pub proof fn lemma_entities_round_trip(es: Seq<Entity>)
    ensures
        spec_entities_from(spec_records_bytes(es)) == es,
    decreases es.len(),
{
    let s = spec_records_bytes(es);
    if es.len() == 0 {
        assert(spec_entities_from(s) =~= es);
    } else {
        lemma_record_round_trip(es[0]);
        lemma_entities_round_trip(es.skip(1));
        assert(s.take(RECORD_LEN as int) =~= spec_record_bytes(es[0]));
        assert(s.skip(RECORD_LEN as int) =~= spec_records_bytes(es.skip(1)));
        assert(spec_entities_from(s) =~= es);
    }
}

/// The wire bytes of the stream header: width, height and scale, each four
/// bytes little-endian.
pub open spec fn spec_header_bytes(size: Rect, scale: i32) -> Seq<u8> {
    spec_i32_to_le_bytes(size.width) + spec_i32_to_le_bytes(size.height) + spec_i32_to_le_bytes(
        scale,
    )
}

/// What a byte stream decodes to: `None` when it is too short to hold the
/// header, otherwise the size, the scale and the entities of the stream.
pub open spec fn spec_decode(s: Seq<u8>) -> Option<(Rect, i32, Seq<Entity>)> {
    if s.len() < HEADER_LEN {
        None
    } else {
        Some(
            (
                Rect {
                    width: spec_i32_from_le_bytes(s.subrange(0, 4)),
                    height: spec_i32_from_le_bytes(s.subrange(4, 8)),
                },
                spec_i32_from_le_bytes(s.subrange(8, 12)),
                spec_entities_from(s.skip(HEADER_LEN as int)),
            ),
        )
    }
}

impl Board {
    /// The full wire image of this board: the header, then one record per
    /// entity in stored order.
    pub open spec fn spec_bytes(self) -> Seq<u8> {
        spec_header_bytes(self.size, self.scale) + spec_records_bytes(self.entities@)
    }

    /// Attempt to read one entity record at byte offset `at`.
    ///
    /// A full record always decodes to an entity — an unrecognised
    /// tile-type byte falls back to `TileType::Unknown` rather than
    /// failing. Anything short of a full record ends the entity list.
    pub fn read_wall(bytes: &[u8], at: usize) -> (r: RecordRead)
        requires
            at <= bytes@.len(),
        ensures
            r is Record <==> at + RECORD_LEN <= bytes@.len(),
            at + RECORD_LEN <= bytes@.len() ==> r == RecordRead::Record(
                spec_record_of(bytes@.subrange(at as int, at + RECORD_LEN)),
            ),
            at == bytes@.len() ==> r == RecordRead::CleanEnd,
            at < bytes@.len() < at + RECORD_LEN ==> r == RecordRead::Truncated,
    {
        let remaining = bytes.len() - at;
        if remaining >= RECORD_LEN {
            let x = i32_from_le_bytes(slice_subrange(bytes, at, at + 4));
            let y = i32_from_le_bytes(slice_subrange(bytes, at + 4, at + 8));
            let is_movement_blocking = byte_to_bool(*slice_index_get(bytes, at + 8));
            let is_vision_blocking = byte_to_bool(*slice_index_get(bytes, at + 9));
            let tile_type = TileType::from_u8(*slice_index_get(bytes, at + 10));
            proof {
                let rec = bytes@.subrange(at as int, at + RECORD_LEN);
                assert(rec.subrange(0, 4) =~= bytes@.subrange(at as int, at + 4));
                assert(rec.subrange(4, 8) =~= bytes@.subrange(at + 4, at + 8));
            }
            RecordRead::Record(
                Entity {
                    pos: Position { x, y },
                    tile: Tile { tile_type, is_movement_blocking, is_vision_blocking },
                },
            )
        } else if remaining == 0 {
            RecordRead::CleanEnd
        } else {
            RecordRead::Truncated
        }
    }

    /// Decode a whole byte stream into a board.
    ///
    /// A stream shorter than the 12-byte header is a hard error. After the
    /// header, records are read until fewer bytes than a full record
    /// remain; trailing partial bytes are silently discarded, so the
    /// result is exactly what `spec_decode` says of the stream.
    pub fn load(bytes: &[u8]) -> (r: Result<Board, LoadError>)
        ensures
            bytes@.len() < HEADER_LEN ==> r == Err::<Board, LoadError>(LoadError::HeaderRead),
            bytes@.len() >= HEADER_LEN ==> (r matches Ok(b) && spec_decode(bytes@) == Some(
                (b.size, b.scale, b.entities@),
            )),
    {
        if bytes.len() < HEADER_LEN {
            return Err(LoadError::HeaderRead);
        }
        let width = i32_from_le_bytes(slice_subrange(bytes, 0, 4));
        let height = i32_from_le_bytes(slice_subrange(bytes, 4, 8));
        let scale = i32_from_le_bytes(slice_subrange(bytes, 8, 12));
        let len = bytes.len();
        let mut entities: Vec<Entity> = Vec::new();
        let mut at: usize = HEADER_LEN;
        loop
            invariant
                len == bytes@.len(),
                HEADER_LEN <= at <= bytes@.len(),
                spec_entities_from(bytes@.skip(HEADER_LEN as int)) == entities@
                    + spec_entities_from(bytes@.skip(at as int)),
            ensures
                at <= bytes@.len() < at + RECORD_LEN,
                spec_entities_from(bytes@.skip(HEADER_LEN as int)) == entities@
                    + spec_entities_from(bytes@.skip(at as int)),
            decreases bytes@.len() - at,
        {
            match Board::read_wall(bytes, at) {
                RecordRead::Record(e) => {
                    proof {
                        let tail = bytes@.skip(at as int);
                        assert(tail.take(RECORD_LEN as int) =~= bytes@.subrange(
                            at as int,
                            at + RECORD_LEN,
                        ));
                        assert(tail.skip(RECORD_LEN as int) =~= bytes@.skip(at + RECORD_LEN));
                        assert(entities@ + spec_entities_from(tail) =~= entities@.push(e)
                            + spec_entities_from(bytes@.skip(at + RECORD_LEN)));
                    }
                    entities.push(e);
                    at = at + RECORD_LEN;
                },
                _ => {
                    break;
                },
            }
        }
        proof {
            assert(spec_entities_from(bytes@.skip(at as int)) =~= Seq::<Entity>::empty());
            assert(entities@ + Seq::<Entity>::empty() =~= entities@);
        }
        Ok(Board { size: Rect { width, height }, scale, entities })
    }

    /// Encode this board as its wire image.
    ///
    /// The output is the header followed by one record per entity in
    /// stored order, so its length is always exactly `HEADER_LEN` plus
    /// `RECORD_LEN` per entity.
    pub fn write(&self) -> (out: Vec<u8>)
        ensures
            out@ == self.spec_bytes(),
            out@.len() == HEADER_LEN + RECORD_LEN * self.entities@.len(),
    {
        let mut out: Vec<u8> = Vec::new();
        let mut field = i32_to_le_bytes(self.size.width);
        out.append(&mut field);
        let mut field = i32_to_le_bytes(self.size.height);
        out.append(&mut field);
        let mut field = i32_to_le_bytes(self.scale);
        out.append(&mut field);
        proof {
            assert(out@ =~= spec_header_bytes(self.size, self.scale));
        }
        let n = self.entities.len();
        let mut i: usize = 0;
        while i < n
            invariant
                i <= n == self.entities@.len(),
                out@ == spec_header_bytes(self.size, self.scale) + spec_records_bytes(
                    self.entities@.take(i as int),
                ),
            decreases n - i,
        {
            let e = self.entities[i];
            push_record(&mut out, &e);
            proof {
                lemma_records_bytes_push(self.entities@.take(i as int), e);
                assert(self.entities@.take(i as int).push(e) =~= self.entities@.take(i + 1));
                assert(out@ =~= spec_header_bytes(self.size, self.scale) + spec_records_bytes(
                    self.entities@.take(i + 1),
                ));
            }
            i = i + 1;
        }
        proof {
            assert(self.entities@.take(n as int) =~= self.entities@);
            lemma_records_bytes_len(self.entities@);
        }
        out
    }
}

/// Append the wire record of one entity to the output bytes.
fn push_record(out: &mut Vec<u8>, e: &Entity)
    ensures
        final(out)@ == old(out)@ + spec_record_bytes(*e),
{
    let mut field = i32_to_le_bytes(e.pos.x);
    out.append(&mut field);
    let mut field = i32_to_le_bytes(e.pos.y);
    out.append(&mut field);
    out.push(bool_to_byte(e.tile.is_movement_blocking));
    out.push(bool_to_byte(e.tile.is_vision_blocking));
    out.push(e.tile.tile_type.to_u8());
    proof {
        assert(out@ =~= old(out)@ + spec_record_bytes(*e));
    }
}

/// Round trip: decoding the wire image of any board — whatever its size,
/// scale, entity count and entity field values — yields exactly the
/// board's size, scale and entity sequence, in order.
pub proof fn lemma_load_inverts_write(b: Board)
    ensures
        spec_decode(b.spec_bytes()) == Some((b.size, b.scale, b.entities@)),
{
    lemma_i32_to_from_le_bytes(b.size.width);
    lemma_i32_to_from_le_bytes(b.size.height);
    lemma_i32_to_from_le_bytes(b.scale);
    lemma_records_bytes_len(b.entities@);
    let s = b.spec_bytes();
    assert(s.subrange(0, 4) =~= spec_i32_to_le_bytes(b.size.width));
    assert(s.subrange(4, 8) =~= spec_i32_to_le_bytes(b.size.height));
    assert(s.subrange(8, 12) =~= spec_i32_to_le_bytes(b.scale));
    assert(s.skip(HEADER_LEN as int) =~= spec_records_bytes(b.entities@));
    lemma_entities_round_trip(b.entities@);
}

/// Encode determinism: the wire image is a function of the board alone,
/// so any two encodings of the same board are byte-identical.
pub proof fn lemma_write_deterministic(b: Board, first: Seq<u8>, second: Seq<u8>)
    requires
        first == b.spec_bytes(),
        second == b.spec_bytes(),
    ensures
        first == second,
{
}

} // verus!
