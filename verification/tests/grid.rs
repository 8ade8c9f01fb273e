use befunge::grid::{advance, Direction, Grid, InitError, Position, GRID_HEIGHT, GRID_WIDTH};

#[test]
fn wraparound_right_and_up() {
    let p = Position { x: GRID_WIDTH - 1, y: 3 };
    assert_eq!(advance(p, Direction::Right), Position { x: 0, y: 3 });
    let q = Position { x: 7, y: 0 };
    assert_eq!(advance(q, Direction::Up), Position { x: 7, y: GRID_HEIGHT - 1 });
}

#[test]
fn wraparound_left_and_down() {
    let p = Position { x: 0, y: 3 };
    assert_eq!(advance(p, Direction::Left), Position { x: GRID_WIDTH - 1, y: 3 });
    let q = Position { x: 7, y: GRID_HEIGHT - 1 };
    assert_eq!(advance(q, Direction::Down), Position { x: 7, y: 0 });
}

#[test]
fn advance_inside_grid() {
    let p = Position { x: 4, y: 5 };
    assert_eq!(advance(p, Direction::Right), Position { x: 5, y: 5 });
    assert_eq!(advance(p, Direction::Left), Position { x: 3, y: 5 });
    assert_eq!(advance(p, Direction::Up), Position { x: 4, y: 4 });
    assert_eq!(advance(p, Direction::Down), Position { x: 4, y: 6 });
}

#[test]
fn load_pads_with_spaces() {
    let g = Grid::load(b"ab\ncde\n").unwrap();
    assert_eq!(g.get(0, 0), Some(97));
    assert_eq!(g.get(1, 0), Some(98));
    assert_eq!(g.get(2, 0), Some(32));
    assert_eq!(g.get(2, 1), Some(101));
    assert_eq!(g.get(0, 2), Some(32));
    assert_eq!(g.get((GRID_WIDTH - 1) as i64, (GRID_HEIGHT - 1) as i64), Some(32));
}

#[test]
fn load_without_trailing_newline() {
    let g = Grid::load(b"@").unwrap();
    assert_eq!(g.get(0, 0), Some(64));
    assert_eq!(g.get(1, 0), Some(32));
}

#[test]
fn load_empty_source() {
    let g = Grid::load(b"").unwrap();
    assert_eq!(g.get(0, 0), Some(32));
}

#[test]
fn get_out_of_bounds_is_none() {
    let g = Grid::load(b"x").unwrap();
    assert_eq!(g.get(-1, 0), None);
    assert_eq!(g.get(0, -1), None);
    assert_eq!(g.get(GRID_WIDTH as i64, 0), None);
    assert_eq!(g.get(0, GRID_HEIGHT as i64), None);
}

#[test]
fn put_then_get_roundtrip() {
    let mut g = Grid::load(b"").unwrap();
    g.put(3, 4, 99);
    assert_eq!(g.get(3, 4), Some(99));
    g.put(3, 4, -1000);
    assert_eq!(g.get(3, 4), Some(-1000));
}

#[test]
fn put_out_of_bounds_is_noop() {
    let mut g = Grid::load(b"xy").unwrap();
    g.put(-1, 0, 99);
    g.put(0, -1, 99);
    g.put(GRID_WIDTH as i64, 0, 99);
    g.put(0, GRID_HEIGHT as i64, 99);
    assert_eq!(g.get(0, 0), Some(120));
    assert_eq!(g.get(1, 0), Some(121));
}

#[test]
fn load_rejects_too_many_rows() {
    let mut src: Vec<u8> = Vec::new();
    for _ in 0..GRID_HEIGHT {
        src.extend_from_slice(b"a\n");
    }
    src.extend_from_slice(b"b\n");
    match Grid::load(&src) {
        Err(InitError::TooManyRows { read, rest }) => {
            assert_eq!(read.len(), GRID_HEIGHT);
            assert_eq!(read[0], b"a".to_vec());
            assert_eq!(rest, b"b\n".to_vec());
        }
        other => panic!("expected a row-count error, got {other:?}"),
    }
}

#[test]
fn load_rejects_too_many_columns() {
    let mut src: Vec<u8> = Vec::new();
    src.extend_from_slice(b"ok\n");
    for _ in 0..GRID_WIDTH + 1 {
        src.push(b'x');
    }
    src.extend_from_slice(b"\ntail");
    match Grid::load(&src) {
        Err(InitError::TooManyCols { read, rest }) => {
            assert_eq!(read.len(), 2);
            assert_eq!(read[0], b"ok".to_vec());
            assert_eq!(read[1].len(), GRID_WIDTH);
            assert_eq!(rest, b"x\ntail".to_vec());
        }
        other => panic!("expected a column-count error, got {other:?}"),
    }
}

#[test]
fn load_rejects_non_ascii() {
    match Grid::load(b"ab\xc3\xa9") {
        Err(InitError::NonAscii { index }) => assert_eq!(index, 2),
        other => panic!("expected a non-ASCII error, got {other:?}"),
    }
}

#[test]
fn load_line_of_exactly_grid_width_is_fine() {
    let mut src: Vec<u8> = Vec::new();
    for _ in 0..GRID_WIDTH {
        src.push(b'z');
    }
    let g = Grid::load(&src).unwrap();
    assert_eq!(g.get((GRID_WIDTH - 1) as i64, 0), Some(122));
}
