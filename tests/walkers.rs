use rc_game::{
    step_left, LeftMover, LeftWalker, Position, RogueCrossGame, WalkerDemo, World, GAME_COLS,
    GAME_ROWS,
};
use specs::{Join, WorldExt};

fn walker_positions(world: &World) -> Vec<Position> {
    let movers = world.read_storage::<LeftMover>();
    let positions = world.read_storage::<Position>();
    (&movers, &positions).join().map(|(_, p)| *p).collect()
}

#[test]
fn default_mover_spans_the_grid() {
    let m = LeftMover::default();
    assert_eq!(m.min_col, 0);
    assert_eq!(m.max_col, GAME_COLS as i32);
    assert_eq!(m.min_row, 0);
    assert_eq!(m.max_row, GAME_ROWS as i32);
}

#[test]
fn step_left_wraps_at_the_left_edge() {
    let m = LeftMover::default();
    assert_eq!(step_left(Position { x: 5, y: 3 }, &m), Position { x: 4, y: 3 });
    assert_eq!(step_left(Position { x: 0, y: 3 }, &m), Position { x: 80, y: 3 });
    assert_eq!(step_left(Position { x: i32::MIN, y: 1 }, &m), Position { x: 80, y: 1 });
}

#[test]
fn walker_demo_populates_and_walks() {
    let mut game = RogueCrossGame::new(WalkerDemo {});
    game.init(80, 25).unwrap();
    let start = walker_positions(game.world());
    let expected: Vec<Position> = (0..10).map(|i| Position { x: i * 7, y: 10 }).collect();
    assert_eq!(start, expected);
    game.set_event(None);
    game.update().unwrap();
    let after = walker_positions(game.world());
    let mut stepped: Vec<Position> = (0..10).map(|i| Position { x: i * 7 - 1, y: 10 }).collect();
    stepped[0] = Position { x: 80, y: 10 };
    assert_eq!(after, stepped);
}

#[test]
fn walker_system_needs_its_storage() {
    let mut world = World::new();
    world.register::<Position>();
    let mut walker = LeftWalker {};
    assert!(!walker.run(&mut world));
    world.register::<LeftMover>();
    assert!(walker.run(&mut world));
}

#[test]
fn default_session_runs_the_demo_content() {
    let mut game: RogueCrossGame<WalkerDemo> = Default::default();
    assert_eq!(game.game_state().cols, GAME_COLS);
    game.init(80, 25).unwrap();
    assert_eq!(walker_positions(game.world()).len(), 10);
}

#[test]
fn walker_system_needs_the_entity_table() {
    let mut world = World::default();
    world.register::<Position>();
    world.register::<LeftMover>();
    let mut walker = LeftWalker {};
    assert!(!walker.run(&mut world));
}
