use rc_game::{
    centered_origin, create_blank_map, frame_delay, intent_of, GameState, InputEvent, Intent,
    KeyCode, KeyEvent, Offset, Position, TileMap, TileType,
};
use rc_game::xy_idx;

fn key(code: KeyCode) -> Option<InputEvent> {
    Some(InputEvent::Key(KeyEvent { code, plain: true }))
}

fn grid_with_walls(cols: u16, rows: u16, walls: &[(usize, usize)]) -> TileMap {
    let mut tiles = vec![TileType::Empty; cols as usize * rows as usize];
    for &(x, y) in walls {
        tiles[y * cols as usize + x] = TileType::Wall;
    }
    TileMap::new(tiles, cols, rows)
}

#[test]
fn offset_new_and_apply() {
    let o = Offset::new(3, -2);
    assert_eq!(o, Offset { x: 3, y: -2 });
    assert_eq!(o.apply(-1, -1), (2, -3));
    assert_eq!(o._translate_xy(10, 20), Offset { x: 13, y: 18 });
    assert_eq!(o.translate(&Offset::new(1, 1)), Offset { x: 4, y: -1 });
    assert_eq!(Offset::default(), Offset { x: 0, y: 0 });
}

#[test]
fn position_offset_conversions() {
    let o = Offset::new(7, 9);
    let p: Position = (&o).into();
    assert_eq!(p, Position { x: 7, y: 9 });
    let q: Position = Position::from(o);
    assert_eq!(q, p);
    let back = Offset::from(&Position { x: -4, y: 5 });
    assert_eq!(back, Offset { x: -4, y: 5 });
}

#[test]
fn position_clamp_each_axis() {
    let mut p = Position { x: -3, y: 30 };
    p.clamp(0, 79, 0, 24);
    assert_eq!(p, Position { x: 0, y: 24 });
    let mut q = Position { x: 5, y: 6 };
    q.clamp(0, 79, 0, 24);
    assert_eq!(q, Position { x: 5, y: 6 });
}

#[test]
fn blocked_off_grid_and_on_walls() {
    let map = grid_with_walls(4, 3, &[(2, 1)]);
    assert!(map.blocked(2, 1));
    assert!(!map.blocked(1, 1));
    assert!(map.blocked(-1, 0));
    assert!(map.blocked(4, 0));
    assert!(map.blocked(0, 3));
    assert!(!map.blocked(3, 2));
}

#[test]
fn player_blocked_by_wall_to_the_right() {
    let map = grid_with_walls(80, 25, &[(41, 12)]);
    let start = Position { x: 40, y: 12 };
    assert_eq!(map.try_move(start, 1, 0), Position { x: 40, y: 12 });
}

#[test]
fn wall_blocks_moves_of_either_sign() {
    let map = grid_with_walls(10, 10, &[(3, 5), (5, 5), (4, 4), (4, 6)]);
    let p = Position { x: 4, y: 5 };
    assert_eq!(map.try_move(p, -1, 0), p);
    assert_eq!(map.try_move(p, 1, 0), p);
    assert_eq!(map.try_move(p, 0, -1), p);
    assert_eq!(map.try_move(p, 0, 1), p);
    assert_eq!(map.try_move(Position { x: 1, y: 5 }, 2, 0), Position { x: 1, y: 5 });
}

#[test]
fn free_move_goes_through() {
    let map = grid_with_walls(10, 10, &[]);
    assert_eq!(map.try_move(Position { x: 4, y: 5 }, 1, 0), Position { x: 5, y: 5 });
    assert_eq!(map.try_move(Position { x: 4, y: 5 }, 0, -1), Position { x: 4, y: 4 });
}

#[test]
fn step_off_the_grid_stays_on_the_edge() {
    let map = grid_with_walls(3, 3, &[]);
    let corner = Position { x: 0, y: 0 };
    assert_eq!(map.try_move(corner, -1, 0), Position { x: 0, y: 0 });
    assert_eq!(map.try_move(corner, 0, -1), Position { x: 0, y: 0 });
    let far = Position { x: 2, y: 2 };
    assert_eq!(map.try_move(far, 1, 0), Position { x: 2, y: 2 });
    assert_eq!(map.try_move(far, 0, 1), Position { x: 2, y: 2 });
}

#[test]
fn blank_map_is_all_empty() {
    let gs = GameState::new(5, 4);
    let map = create_blank_map(&gs);
    assert_eq!(map.len(), 20);
    assert!(map.iter().all(|t| *t == TileType::Empty));
}

#[test]
fn intents_of_keys() {
    assert_eq!(intent_of(&key(KeyCode::Left)), Intent::Move { dx: -1, dy: 0 });
    assert_eq!(intent_of(&key(KeyCode::Char('a'))), Intent::Move { dx: -1, dy: 0 });
    assert_eq!(intent_of(&key(KeyCode::Right)), Intent::Move { dx: 1, dy: 0 });
    assert_eq!(intent_of(&key(KeyCode::Char('d'))), Intent::Move { dx: 1, dy: 0 });
    assert_eq!(intent_of(&key(KeyCode::Up)), Intent::Move { dx: 0, dy: -1 });
    assert_eq!(intent_of(&key(KeyCode::Char('w'))), Intent::Move { dx: 0, dy: -1 });
    assert_eq!(intent_of(&key(KeyCode::Down)), Intent::Move { dx: 0, dy: 1 });
    assert_eq!(intent_of(&key(KeyCode::Char('s'))), Intent::Move { dx: 0, dy: 1 });
    assert_eq!(intent_of(&key(KeyCode::Esc)), Intent::Exit);
    assert_eq!(intent_of(&key(KeyCode::Char('x'))), Intent::Ignore);
    assert_eq!(intent_of(&Some(InputEvent::Other)), Intent::Ignore);
    assert_eq!(intent_of(&None), Intent::Ignore);
    let with_modifier = Some(InputEvent::Key(KeyEvent { code: KeyCode::Left, plain: false }));
    assert_eq!(intent_of(&with_modifier), Intent::Ignore);
}

#[test]
fn frame_delay_fills_the_budget() {
    assert_eq!(frame_delay(0, 16), 16);
    assert_eq!(frame_delay(10, 16), 6);
    assert_eq!(frame_delay(16, 16), 0);
    assert_eq!(frame_delay(40, 16), 0);
}

#[test]
fn origin_centers_the_grid() {
    assert_eq!(centered_origin(80, 25, 100, 35), Offset { x: 11, y: 6 });
    assert_eq!(centered_origin(80, 25, 81, 26), Offset { x: 1, y: 1 });
    assert_eq!(centered_origin(80, 25, 40, 10), Offset { x: 1, y: 1 });
}

#[test]
fn row_major_index() {
    assert_eq!(xy_idx(0, 0, 80), 0);
    assert_eq!(xy_idx(5, 2, 80), 165);
    assert_eq!(xy_idx(79, 24, 80), 1999);
}

#[test]
fn tile_map_keeps_its_shape() {
    let map = grid_with_walls(4, 3, &[(1, 2)]);
    assert_eq!(map.cols(), 4);
    assert_eq!(map.rows(), 3);
    assert_eq!(map.tiles().len(), 12);
    assert_eq!(map.tiles()[9], TileType::Wall);
}
