use rc_game::{
    init_outcome, TermCell, create_map, place_walls, TITLE, CellWrite, Color, Game, GameError, GameState, InputEvent, KeyCode, KeyEvent,
    Offset, Phase, Player, Position, Renderable, RogueCrossGame, TileType, World, MS_PER_FRAME,
};
use specs::{Builder, Join, WorldExt};

struct NoContent;

impl Game for NoContent {}

struct DropsPositions;

impl Game for DropsPositions {
    fn init(&self, _gs: &GameState, ecs: &mut World) -> Result<(), GameError> {
        ecs.remove::<specs::storage::MaskedStorage<Position>>();
        Ok(())
    }
}

struct DropsEntities;

impl Game for DropsEntities {
    fn init(&self, _gs: &GameState, ecs: &mut World) -> Result<(), GameError> {
        ecs.remove::<specs::world::EntitiesRes>();
        Ok(())
    }
}

struct FailsToStart;

impl Game for FailsToStart {
    fn init(&self, _gs: &GameState, _ecs: &mut World) -> Result<(), GameError> {
        Err(GameError::ContentFailed)
    }
}

struct HalfDrawn;

impl Game for HalfDrawn {
    fn init(&self, _gs: &GameState, ecs: &mut World) -> Result<(), GameError> {
        ecs.create_entity().with(Position { x: 0, y: 0 }).build();
        ecs.create_entity()
            .with(Renderable { glyph: 'r', fg: Color::Red, bg: None })
            .build();
        ecs.create_entity()
            .with(Position { x: 2, y: 0 })
            .with(Renderable { glyph: 'b', fg: Color::Blue, bg: None })
            .build();
        Ok(())
    }
}

fn key(code: KeyCode) -> Option<InputEvent> {
    Some(InputEvent::Key(KeyEvent { code, plain: true }))
}

fn player_at(game: &RogueCrossGame<NoContent>) -> Vec<Position> {
    let positions = game.world().read_storage::<Position>();
    let players = game.world().read_storage::<Player>();
    (&players, &positions).join().map(|(_, p)| *p).collect()
}

fn player_look() -> Renderable {
    Renderable { glyph: '@', fg: Color::Yellow, bg: None }
}

#[test]
fn standard_session_defaults() {
    let game = RogueCrossGame::new(NoContent);
    assert_eq!(game.game_state().cols, 80);
    assert_eq!(game.game_state().rows, 25);
    assert_eq!(game.player_start(), Offset { x: 40, y: 12 });
    assert_eq!(game.millis_per_frame(), MS_PER_FRAME);
    assert_eq!(game.phase(), Phase::Uninitialized);
    assert_eq!(game.title(), "Rogue Cross Game");
    assert!(game.storages_ready());
}

#[test]
fn init_centers_grid_and_spawns_map_and_player() {
    let mut game = RogueCrossGame::new(NoContent);
    let frame = game.init(100, 35).unwrap();
    assert_eq!(frame[0].x, 10);
    assert_eq!(frame[0].y, 5);
    assert_eq!(game.phase(), Phase::Running);
    assert_eq!(game.world().read_storage::<Position>().join().count(), 80 * 25 + 1);
    assert_eq!(player_at(&game), vec![Position { x: 40, y: 12 }]);
}

#[test]
fn first_render_draws_only_the_player_on_a_blank_map() {
    let mut game = RogueCrossGame::with_size(NoContent, 3, 3);
    game.set_player_start(Offset::new(1, 1));
    game.init(3, 3).unwrap();
    let writes = game.render().unwrap();
    assert_eq!(writes, vec![CellWrite { x: 2, y: 2, cell: player_look() }]);
}

#[test]
fn moving_up_repaints_two_cells() {
    let mut game = RogueCrossGame::with_size(NoContent, 3, 3);
    game.set_player_start(Offset::new(1, 1));
    game.init(3, 3).unwrap();
    game.render().unwrap();
    game.set_event(key(KeyCode::Up));
    game.update().unwrap();
    assert_eq!(player_at(&game), vec![Position { x: 1, y: 0 }]);
    let writes = game.render().unwrap();
    assert_eq!(
        writes,
        vec![
            CellWrite { x: 2, y: 1, cell: player_look() },
            CellWrite { x: 2, y: 2, cell: Renderable::default() },
        ]
    );
}

#[test]
fn idle_ticks_write_nothing_the_second_time() {
    let mut game = RogueCrossGame::with_size(NoContent, 5, 4);
    game.init(20, 10).unwrap();
    game.set_event(None);
    game.update().unwrap();
    assert_eq!(game.render().unwrap().len(), 1);
    game.set_event(None);
    game.update().unwrap();
    assert!(game.render().unwrap().is_empty());
}

#[test]
fn walls_block_the_player_in_a_session() {
    let mut game = RogueCrossGame::new(NoContent);
    let mut tiles = vec![TileType::Empty; 80 * 25];
    tiles[12 * 80 + 41] = TileType::Wall;
    game.build_map(tiles);
    game.init(80, 25).unwrap();
    game.set_event(key(KeyCode::Right));
    game.update().unwrap();
    assert_eq!(player_at(&game), vec![Position { x: 40, y: 12 }]);
    game.set_event(key(KeyCode::Left));
    game.update().unwrap();
    assert_eq!(player_at(&game), vec![Position { x: 39, y: 12 }]);
}

#[test]
fn wall_tiles_are_drawn() {
    let mut game = RogueCrossGame::with_size(NoContent, 2, 1);
    game.set_player_start(Offset::new(0, 0));
    game.build_map(vec![TileType::Empty, TileType::Wall]);
    game.init(2, 1).unwrap();
    let writes = game.render().unwrap();
    assert_eq!(writes.len(), 2);
    assert_eq!(writes[1].cell.glyph, '#');
}

#[test]
fn escape_shuts_the_session_down() {
    let mut game = RogueCrossGame::with_size(NoContent, 4, 4);
    game.init(10, 10).unwrap();
    game.set_event(key(KeyCode::Esc));
    game.update().unwrap();
    assert!(game.should_exit());
    assert_eq!(game.phase(), Phase::ShuttingDown);
    assert_eq!(game.render(), Err(GameError::NotRunning));
    game.deinit();
    assert_eq!(game.phase(), Phase::Terminated);
}

#[test]
fn render_before_init_is_refused() {
    let mut game = RogueCrossGame::with_size(NoContent, 4, 4);
    assert_eq!(game.render(), Err(GameError::NotRunning));
}

#[test]
fn missing_position_storage_is_reported() {
    let mut game = RogueCrossGame::with_size(DropsPositions, 4, 4);
    game.init(10, 10).unwrap();
    assert!(!game.storages_ready());
    assert_eq!(game.render(), Err(GameError::MissingStorage));
    game.set_event(key(KeyCode::Up));
    assert_eq!(game.update(), Err(GameError::MissingStorage));
}

#[test]
fn pacing_sleeps_for_the_rest_of_the_budget() {
    let game = RogueCrossGame::new(NoContent);
    assert_eq!(game.enforce_framerate(0), MS_PER_FRAME);
    assert_eq!(game.enforce_framerate(MS_PER_FRAME - 5), 5);
    assert_eq!(game.enforce_framerate(MS_PER_FRAME + 30), 0);
}

#[test]
fn generated_level_is_walled_and_leaves_the_start_free() {
    let gs = GameState::new(20, 10);
    let start = Offset::new(5, 5);
    for _ in 0..20 {
        let map = create_map(&gs, &start);
        assert_eq!(map.len(), 200);
        for y in 0..10usize {
            for x in 0..20usize {
                let t = map[y * 20 + x];
                if x == 0 || y == 0 || x == 19 || y == 9 {
                    assert_eq!(t, TileType::Wall);
                }
            }
        }
        assert_eq!(map[5 * 20 + 5], TileType::Empty);
        let inner_walls = (1..9usize)
            .flat_map(|y| (1..19usize).map(move |x| (x, y)))
            .filter(|&(x, y)| map[y * 20 + x] == TileType::Wall)
            .count();
        assert!(inner_walls > 1);
    }
}

#[test]
fn only_entities_with_both_components_are_drawn() {
    let mut game = RogueCrossGame::with_size(HalfDrawn, 3, 2);
    game.set_player_start(Offset::new(1, 1));
    game.init(3, 2).unwrap();
    let writes = game.render().unwrap();
    assert_eq!(
        writes,
        vec![
            CellWrite { x: 3, y: 1, cell: Renderable { glyph: 'b', fg: Color::Blue, bg: None } },
            CellWrite { x: 2, y: 2, cell: player_look() },
        ]
    );
}

#[test]
fn missing_entity_table_is_reported() {
    let mut game = RogueCrossGame::with_size(DropsEntities, 4, 4);
    assert_eq!(game.init(10, 10), Err(GameError::MissingStorage));
    assert_eq!(game.render(), Err(GameError::MissingStorage));
    game.set_event(key(KeyCode::Up));
    assert_eq!(game.update(), Err(GameError::MissingStorage));
}

#[test]
fn content_failure_is_passed_on() {
    let mut game = RogueCrossGame::with_size(FailsToStart, 4, 4);
    assert_eq!(game.init(10, 10), Err(GameError::ContentFailed));
}

#[test]
fn title_is_the_game_name() {
    let game = RogueCrossGame::new(NoContent);
    assert_eq!(game.title(), TITLE);
}

#[test]
fn placed_walls_follow_the_draws() {
    let gs = GameState::new(5, 4);
    let start = Offset::new(2, 1);
    let map = place_walls(&gs, &start, &vec![(1, 1), (2, 1), (3, 2), (1, 1)]);
    let w = TileType::Wall;
    let e = TileType::Empty;
    assert_eq!(
        map,
        vec![
            w, w, w, w, w, //
            w, w, e, e, w, //
            w, e, e, w, w, //
            w, w, w, w, w,
        ]
    );
}

#[test]
fn level_entities_follow_the_map() {
    let mut game = RogueCrossGame::with_size(NoContent, 2, 2);
    game.build_map(vec![TileType::Wall, TileType::Floor, TileType::Empty, TileType::Wall]);
    game.init(2, 2).unwrap();
    let world = game.world();
    let entities = world.entities();
    let positions = world.read_storage::<Position>();
    let renderables = world.read_storage::<Renderable>();
    let all: Vec<(u32, Position, char)> = (&entities, &positions, &renderables)
        .join()
        .map(|(e, p, r)| (e.id(), *p, r.glyph))
        .collect();
    assert_eq!(
        all,
        vec![
            (0, Position { x: 0, y: 0 }, '#'),
            (1, Position { x: 1, y: 0 }, '.'),
            (2, Position { x: 0, y: 1 }, ' '),
            (3, Position { x: 1, y: 1 }, '#'),
            (4, Position { x: 1, y: 1 }, '@'),
        ]
    );
}

#[test]
fn init_outcome_cases() {
    let frame = vec![TermCell { x: 0, y: 0, glyph: 'x' }];
    assert_eq!(init_outcome(Ok(()), true, true, frame.clone()), Ok(frame.clone()));
    assert_eq!(
        init_outcome(Ok(()), false, true, frame.clone()),
        Err(GameError::MissingStorage)
    );
    assert_eq!(
        init_outcome(Ok(()), true, false, frame.clone()),
        Err(GameError::MissingStorage)
    );
    assert_eq!(
        init_outcome(Err(GameError::ContentFailed), true, true, frame),
        Err(GameError::ContentFailed)
    );
}

#[test]
fn tick_updates_then_renders_until_escape() {
    let mut game = RogueCrossGame::with_size(NoContent, 3, 3);
    game.set_player_start(Offset::new(1, 1));
    game.init(3, 3).unwrap();
    let first = game.tick(None).unwrap().unwrap();
    assert_eq!(first, vec![CellWrite { x: 2, y: 2, cell: player_look() }]);
    let moved = game.tick(key(KeyCode::Up)).unwrap().unwrap();
    assert_eq!(moved.len(), 2);
    assert_eq!(game.tick(None).unwrap(), Some(vec![]));
    assert_eq!(game.tick(key(KeyCode::Esc)).unwrap(), None);
    assert_eq!(game.phase(), Phase::ShuttingDown);
}
