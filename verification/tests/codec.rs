use map_editor::board::{Board, LoadError, Rect, RecordRead};
use map_editor::entity::{Entity, Position};
use map_editor::tile::{Tile, TileType};

fn header(width: i32, height: i32, scale: i32) -> Vec<u8> {
    let mut bytes = Vec::new();
    bytes.extend_from_slice(&width.to_le_bytes());
    bytes.extend_from_slice(&height.to_le_bytes());
    bytes.extend_from_slice(&scale.to_le_bytes());
    bytes
}

fn record(x: i32, y: i32, movement: u8, vision: u8, tile_type: u8) -> Vec<u8> {
    let mut bytes = Vec::new();
    bytes.extend_from_slice(&x.to_le_bytes());
    bytes.extend_from_slice(&y.to_le_bytes());
    bytes.push(movement);
    bytes.push(vision);
    bytes.push(tile_type);
    bytes
}

fn entity(x: i32, y: i32, movement: bool, vision: bool, tile_type: TileType) -> Entity {
    Entity {
        pos: Position { x, y },
        tile: Tile {
            tile_type,
            is_movement_blocking: movement,
            is_vision_blocking: vision,
        },
    }
}

#[test]
fn header_only_file() {
    let bytes = header(10, 5, 2);
    assert_eq!(bytes.len(), 12);
    let board = Board::load(&bytes).unwrap();
    assert_eq!(board.size, Rect { width: 10, height: 5 });
    assert_eq!(board.scale, 2);
    assert!(board.entities.is_empty());
}

#[test]
fn single_record() {
    let mut bytes = header(10, 5, 2);
    bytes.extend_from_slice(&record(3, -7, 1, 0, 2));
    let board = Board::load(&bytes).unwrap();
    assert_eq!(board.entities.len(), 1);
    let e = board.entities[0];
    assert_eq!(e.pos, Position { x: 3, y: -7 });
    assert!(e.tile.is_movement_blocking);
    assert!(!e.tile.is_vision_blocking);
    assert_eq!(e.tile.tile_type, TileType::from_u8(2));
}

#[test]
fn nonzero_boolean_bytes_normalize_to_true() {
    let mut bytes = header(1, 1, 1);
    bytes.extend_from_slice(&record(0, 0, 7, 200, 0));
    let board = Board::load(&bytes).unwrap();
    let e = board.entities[0];
    assert!(e.tile.is_movement_blocking);
    assert!(e.tile.is_vision_blocking);
}

#[test]
fn truncated_trailing_record() {
    let mut bytes = header(4, 4, 1);
    bytes.extend_from_slice(&record(1, 2, 0, 1, 1));
    bytes.extend_from_slice(&[9, 9, 9]);
    let board = Board::load(&bytes).unwrap();
    assert_eq!(board.entities.len(), 1);
    assert_eq!(board.entities[0].pos, Position { x: 1, y: 2 });
}

#[test]
fn unknown_tile_type_falls_back() {
    let mut bytes = header(4, 4, 1);
    bytes.extend_from_slice(&record(0, 0, 0, 0, 255));
    let board = Board::load(&bytes).unwrap();
    assert_eq!(board.entities[0].tile.tile_type, TileType::Unknown);
}

#[test]
fn empty_stream_is_a_header_error() {
    assert_eq!(Board::load(&[]), Err(LoadError::HeaderRead));
}

#[test]
fn truncated_header_is_a_header_error() {
    let bytes = header(10, 5, 2);
    assert_eq!(Board::load(&bytes[..11]), Err(LoadError::HeaderRead));
}

#[test]
fn round_trip_reproduces_the_board() {
    let board = Board {
        size: Rect { width: -3, height: 2_000_000_000 },
        scale: -1,
        entities: vec![
            entity(3, -7, true, false, TileType::Door),
            entity(i32::MIN, i32::MAX, false, true, TileType::Floor),
            entity(0, 0, true, true, TileType::Unknown),
            entity(-1, 1, false, false, TileType::Wall),
        ],
    };
    let reloaded = Board::load(&board.write()).unwrap();
    assert_eq!(reloaded, board);
}

#[test]
fn round_trip_of_the_empty_board() {
    let board = Board { size: Rect { width: 0, height: 0 }, scale: 0, entities: vec![] };
    let reloaded = Board::load(&board.write()).unwrap();
    assert_eq!(reloaded, board);
}

#[test]
fn encode_is_deterministic() {
    let board = Board {
        size: Rect { width: 8, height: 9 },
        scale: 3,
        entities: vec![entity(-5, 6, true, false, TileType::Wall)],
    };
    assert_eq!(board.write(), board.write());
}

#[test]
fn write_produces_the_exact_wire_bytes() {
    let board = Board {
        size: Rect { width: 1, height: 2 },
        scale: 3,
        entities: vec![entity(-1, 256, false, true, TileType::Wall)],
    };
    let expected = vec![
        1, 0, 0, 0, // width
        2, 0, 0, 0, // height
        3, 0, 0, 0, // scale
        0xff, 0xff, 0xff, 0xff, // x = -1
        0, 1, 0, 0, // y = 256
        0, // not movement blocking
        1, // vision blocking
        1, // TileType::Wall
    ];
    assert_eq!(board.write(), expected);
}

#[test]
fn write_length_is_header_plus_records() {
    let board = Board {
        size: Rect { width: 1, height: 1 },
        scale: 1,
        entities: vec![
            entity(0, 0, false, false, TileType::Floor),
            entity(1, 1, true, true, TileType::Wall),
        ],
    };
    assert_eq!(board.write().len(), 12 + 11 * 2);
}

#[test]
fn read_wall_reads_a_full_record() {
    let bytes = record(3, -7, 1, 0, 2);
    match Board::read_wall(&bytes, 0) {
        RecordRead::Record(e) => {
            assert_eq!(e, entity(3, -7, true, false, TileType::Door));
        }
        other => panic!("expected a record, got {:?}", other),
    }
}

#[test]
fn read_wall_reports_a_clean_end() {
    let bytes = record(3, -7, 1, 0, 2);
    assert_eq!(Board::read_wall(&bytes, bytes.len()), RecordRead::CleanEnd);
}

#[test]
fn read_wall_reports_a_truncated_record() {
    let bytes = record(3, -7, 1, 0, 2);
    assert_eq!(Board::read_wall(&bytes, 4), RecordRead::Truncated);
}
