use vstd::prelude::*;

use crate::components::{blank, Color, Position, Renderable};
use crate::offset::Offset;
use crate::rc_terminal::{draw_terminal_frame, frame_cells, TermCell};
use crate::renderables::{floor_look, renderable_floor, renderable_wall, wall_look};
use crate::renderer::{changed_writes, lemma_no_writes_when_equal, CellWrite, Renderer};
use crate::tiles::{cell_index, grid_size, in_grid, TileMap, TileType};
use crate::world::{
    collider_store, drawables, entities_ready, entity_bound, has_entities, has_freed_ids,
    has_lazy_updates, has_players, has_positions, has_renderables, joined, lazy_ready,
    lemma_common_ids_all, lemma_overwrite, maintain, mover_store, new_world, overwrite,
    player_ids, player_positions, player_store, position_store,
    register_colliders, register_players, register_positions, register_renderables,
    renderable_store, same_allocator, spawn_drawable, spawn_player, storages_ready,
    write_player_positions,
};

verus! {

pub const FRAMES_PER_SEC: u64 = 60;
pub const MS_PER_FRAME: u64 = 1_000 / FRAMES_PER_SEC;

pub const GAME_COLS: u16 = 80;
pub const GAME_ROWS: u16 = 25;

/// A key, as far as the game tells keys apart.
#[derive(Clone, Copy, Debug, PartialEq, Eq, Structural)]
pub enum KeyCode {
    Left,
    Right,
    Up,
    Down,
    Esc,
    Char(char),
    Other,
}

/// A key press; `plain` when no modifier key was held.
#[derive(Clone, Copy, Debug, PartialEq, Eq, Structural)]
pub struct KeyEvent {
    pub code: KeyCode,
    pub plain: bool,
}

/// An input event: a key press, or anything else the terminal reports.
#[derive(Clone, Copy, Debug, PartialEq, Eq, Structural)]
pub enum InputEvent {
    Key(KeyEvent),
    Other,
}

/// What the core does with an input event.
#[derive(Clone, Copy, Debug, PartialEq, Eq, Structural)]
pub enum Intent {
    Move { dx: i32, dy: i32 },
    Exit,
    Ignore,
}

/// Arrows and WASD without modifiers move the player by one cell, Escape
/// without modifiers exits, anything else is left to the content module.
pub open spec fn intent_spec(event: Option<InputEvent>) -> Intent {
    match event {
        Some(InputEvent::Key(KeyEvent { code, plain: true })) => match code {
            KeyCode::Left | KeyCode::Char('a') => Intent::Move { dx: -1i32, dy: 0i32 },
            KeyCode::Right | KeyCode::Char('d') => Intent::Move { dx: 1i32, dy: 0i32 },
            KeyCode::Up | KeyCode::Char('w') => Intent::Move { dx: 0i32, dy: -1i32 },
            KeyCode::Down | KeyCode::Char('s') => Intent::Move { dx: 0i32, dy: 1i32 },
            KeyCode::Esc => Intent::Exit,
            _ => Intent::Ignore,
        },
        _ => Intent::Ignore,
    }
}

pub fn intent_of(event: &Option<InputEvent>) -> (r: Intent)
    ensures
        r == intent_spec(*event),
{
    match event {
        Some(InputEvent::Key(KeyEvent { code, plain: true })) => match code {
            KeyCode::Left | KeyCode::Char('a') => Intent::Move { dx: -1, dy: 0 },
            KeyCode::Right | KeyCode::Char('d') => Intent::Move { dx: 1, dy: 0 },
            KeyCode::Up | KeyCode::Char('w') => Intent::Move { dx: 0, dy: -1 },
            KeyCode::Down | KeyCode::Char('s') => Intent::Move { dx: 0, dy: 1 },
            KeyCode::Esc => Intent::Exit,
            _ => Intent::Ignore,
        },
        _ => Intent::Ignore,
    }
}

/// Milliseconds to sleep after a tick whose work took `elapsed_ms`, so that
/// the tick lasts at least `budget_ms`; no sleep once the budget is spent.
pub fn frame_delay(elapsed_ms: u64, budget_ms: u64) -> (r: u64)
    ensures
        elapsed_ms < budget_ms ==> elapsed_ms + r == budget_ms,
        elapsed_ms >= budget_ms ==> r == 0,
{
    if elapsed_ms < budget_ms {
        budget_ms - elapsed_ms
    } else {
        0
    }
}

/// Left or top margin that centers `inner` cells in `outer` cells.
pub open spec fn margin(outer: int, inner: int) -> int {
    if outer > inner {
        (outer - inner) / 2
    } else {
        0
    }
}

/// The origin that centers a `cols` by `rows` grid in a terminal of `w` by
/// `h` cells, one cell in so that the frame fits around it.
pub fn centered_origin(cols: u16, rows: u16, w: u16, h: u16) -> (r: Offset)
    ensures
        r.x == margin(w as int, cols as int) + 1,
        r.y == margin(h as int, rows as int) + 1,
{
    let margin_x: u16 = if w > cols { (w - cols) / 2 } else { 0 };
    let margin_y: u16 = if h > rows { (h - rows) / 2 } else { 0 };
    Offset::new(margin_x as i32 + 1, margin_y as i32 + 1)
}

/// The grid size, and the input event of the current tick, as the content
/// module sees them.
pub struct GameState {
    pub cols: u16,
    pub rows: u16,
    pub event: Option<InputEvent>,
}

impl GameState {
    pub fn new(cols: u16, rows: u16) -> (r: GameState)
        ensures
            r.cols == cols,
            r.rows == rows,
            r.event == None::<InputEvent>,
    {
        GameState { cols, rows, event: None }
    }
}

/// A map of `gs.cols * gs.rows` empty tiles.
pub fn create_blank_map(gs: &GameState) -> (r: Vec<TileType>)
    ensures
        r@ == Seq::new((gs.cols * gs.rows) as nat, |i: int| TileType::Empty),
{
    let n = grid_size(gs.cols, gs.rows);
    let mut map: Vec<TileType> = Vec::new();
    let mut i: usize = 0;
    while i < n
        invariant
            i <= n,
            n == gs.cols * gs.rows,
            map@ == Seq::new(i as nat, |j: int| TileType::Empty),
        decreases n - i,
    {
        map.push(TileType::Empty);
        i += 1;
        assert(map@ =~= Seq::new(i as nat, |j: int| TileType::Empty));
    }
    map
}

/// The game-specific part of a game: it populates the world and may run its
/// own systems on it each tick.
pub trait Game {
    /// Runs once, after the map and the player are in the world; the world
    /// then has handed out at most one index per grid cell and the player,
    /// and none was freed.
    fn init(&self, gs: &GameState, ecs: &mut specs::World) -> (r: Result<(), GameError>)
        requires
            entity_bound(*old(ecs)) <= MAX_GRID_CELLS + 1,
            !has_freed_ids(*old(ecs)),
    {
        Ok(())
    }

    /// Runs once a tick, after the core has acted on the input.
    fn update(&mut self, gs: &GameState, ecs: &mut specs::World) -> (r: Result<(), GameError>) {
        Ok(())
    }
}

/// Where a session stands. It never goes back to running once it starts
/// shutting down.
#[derive(Clone, Copy, Debug, PartialEq, Eq, Structural)]
pub enum Phase {
    Uninitialized,
    Running,
    ShuttingDown,
    Terminated,
}

/// Why a step of the game could not be made.
#[derive(Clone, Copy, Debug, PartialEq, Eq, Structural)]
pub enum GameError {
    /// A component storage the core reads was not registered.
    MissingStorage,
    /// The step needs a running session.
    NotRunning,
    /// The content module could not do its part.
    ContentFailed,
}

/// The most cells a grid may have, so that the world never allocates an
/// entity index the bit sets refuse.
pub const MAX_GRID_CELLS: u32 = 0x8_0000;

/// `wanted` with each item drawn in turn at its position; items off the
/// `cols` by `rows` grid are skipped.
pub open spec fn paint(
    wanted: Seq<Renderable>,
    cols: int,
    rows: int,
    items: Seq<(Position, Renderable)>,
) -> Seq<Renderable>
    decreases items.len(),
{
    if items.len() == 0 {
        wanted
    } else {
        let before = paint(wanted, cols, rows, items.drop_last());
        let p = items.last().0;
        if in_grid(cols, rows, p.x as int, p.y as int) {
            before.update(cell_index(cols, p.x as int, p.y as int), items.last().1)
        } else {
            before
        }
    }
}

/// Draws each item in turn into the renderer, skipping those off the grid.
pub fn draw_entities(renderer: &mut Renderer, items: &Vec<(Position, Renderable)>)
    requires
        old(renderer).wf(),
    ensures
        final(renderer).wf(),
        final(renderer).wanted() == paint(
            old(renderer).wanted(),
            old(renderer).cols_spec(),
            old(renderer).rows_spec(),
            items@,
        ),
        final(renderer).shown() == old(renderer).shown(),
        final(renderer).origin_spec() == old(renderer).origin_spec(),
        final(renderer).cols_spec() == old(renderer).cols_spec(),
        final(renderer).rows_spec() == old(renderer).rows_spec(),
{
    let ghost start = renderer.wanted();
    let cols = renderer.cols();
    let rows = renderer.rows();
    let mut i: usize = 0;
    while i < items.len()
        invariant
            i <= items@.len(),
            renderer.wf(),
            cols == old(renderer).cols_spec(),
            rows == old(renderer).rows_spec(),
            renderer.wanted() == paint(start, cols as int, rows as int, items@.subrange(0, i as int)),
            renderer.shown() == old(renderer).shown(),
            renderer.origin_spec() == old(renderer).origin_spec(),
            renderer.cols_spec() == old(renderer).cols_spec(),
            renderer.rows_spec() == old(renderer).rows_spec(),
        decreases items@.len() - i,
    {
        let (pos, look) = items[i];
        assert(items@.subrange(0, i + 1).drop_last() =~= items@.subrange(0, i as int));
        if 0 <= pos.x && pos.x < cols as i32 && 0 <= pos.y && pos.y < rows as i32 {
            renderer.render(pos.x, pos.y, &look);
        }
        i += 1;
    }
    assert(items@.subrange(0, items@.len() as int) =~= items@);
}

/// The look that the last item drawn at cell `i` leaves there, if any item
/// is drawn there.
spec fn last_drawn(cols: int, rows: int, items: Seq<(Position, Renderable)>, i: int) -> Option<
    Renderable,
>
    decreases items.len(),
{
    if items.len() == 0 {
        None
    } else {
        let p = items.last().0;
        if in_grid(cols, rows, p.x as int, p.y as int) && cell_index(cols, p.x as int, p.y as int)
            == i {
            Some(items.last().1)
        } else {
            last_drawn(cols, rows, items.drop_last(), i)
        }
    }
}

proof fn lemma_paint_cell(
    wanted: Seq<Renderable>,
    cols: int,
    rows: int,
    items: Seq<(Position, Renderable)>,
)
    requires
        0 < cols,
        wanted.len() == cols * rows,
    ensures
        paint(wanted, cols, rows, items).len() == wanted.len(),
        forall|i: int|
            0 <= i < wanted.len() ==> #[trigger] paint(wanted, cols, rows, items)[i] == match last_drawn(
                cols,
                rows,
                items,
                i,
            ) {
                Some(v) => v,
                None => wanted[i],
            },
    decreases items.len(),
{
    if items.len() > 0 {
        lemma_paint_cell(wanted, cols, rows, items.drop_last());
        let p = items.last().0;
        if in_grid(cols, rows, p.x as int, p.y as int) {
            assert(0 <= cell_index(cols, p.x as int, p.y as int) < cols * rows) by (nonlinear_arith)
                requires
                    0 <= p.x < cols,
                    0 <= p.y < rows,
            ;
        }
    }
}

/// Drawing the same entities a second time onto what they produced changes
/// no cell: a tick whose world is the same as the tick before makes no
/// writes when it flushes.
pub proof fn lemma_same_scene_writes_nothing(
    wanted: Seq<Renderable>,
    origin: Offset,
    cols: int,
    rows: int,
    items: Seq<(Position, Renderable)>,
)
    requires
        0 < cols,
        wanted.len() == cols * rows,
    ensures
        paint(paint(wanted, cols, rows, items), cols, rows, items) == paint(
            wanted,
            cols,
            rows,
            items,
        ),
        changed_writes(
            paint(wanted, cols, rows, items),
            paint(paint(wanted, cols, rows, items), cols, rows, items),
            origin,
            cols,
            (cols * rows) as nat,
        ) == Seq::<CellWrite>::empty(),
{
    let once = paint(wanted, cols, rows, items);
    lemma_paint_cell(wanted, cols, rows, items);
    lemma_paint_cell(once, cols, rows, items);
    let twice = paint(once, cols, rows, items);
    assert(twice =~= once);
    lemma_no_writes_when_equal(once, origin, cols, (cols * rows) as nat);
}

/// How the player is drawn.
pub open spec fn player_look() -> Renderable {
    Renderable { glyph: '@', fg: Color::Yellow, bg: None }
}

/// Every position of a player entity, moved as `TileMap::try_move` says.
pub open spec fn players_moved(
    pm: Map<u32, Position>,
    players: Set<u32>,
    map: TileMap,
    dx: int,
    dy: int,
) -> Map<u32, Position> {
    Map::new(
        |id: u32| pm.contains_key(id),
        |id: u32|
            if players.contains(id) {
                map.moved(pm[id], dx, dy)
            } else {
                pm[id]
            },
    )
}

/// How the map shows the tile `t`.
pub open spec fn tile_look(t: TileType) -> Renderable {
    match t {
        TileType::Floor => floor_look(),
        TileType::Wall => wall_look(),
        TileType::Empty => blank(),
    }
}

/// A world as a new session has it: the four storages registered and
/// empty, no entity allocated yet.
pub open spec fn fresh_world(w: specs::World) -> bool {
    &&& position_store(w) == Some(Map::<u32, Position>::empty())
    &&& renderable_store(w) == Some(Map::<u32, Renderable>::empty())
    &&& player_store(w) == Some(Set::<u32>::empty())
    &&& collider_store(w) == Some(Set::<u32>::empty())
    &&& entity_bound(w) == 0
    &&& !has_freed_ids(w)
    &&& entities_ready(w)
    &&& lazy_ready(w)
}

/// The positions of the first `k` tile entities, entity `i` standing on the
/// cell with row-major index `i`.
pub open spec fn tile_positions(cols: int, k: int) -> Map<u32, Position> {
    Map::new(|id: u32| id < k, |id: u32| Position { x: (id as int % cols) as i32, y: (id as int / cols) as i32 })
}

/// The looks of the first `k` tile entities.
pub open spec fn tile_looks(tiles: Seq<TileType>, k: int) -> Map<u32, Renderable> {
    Map::new(|id: u32| id < k, |id: u32| tile_look(tiles[id as int]))
}

/// Puts the level into a fresh world: one entity per tile, entity `i` on the
/// cell with row-major index `i` drawn as its tile, then the player, at index
/// `n` (the number of tiles), on `start`.
pub fn populate_level(ecs: &mut specs::World, map: &TileMap, start: Offset)
    requires
        fresh_world(*old(ecs)),
        map.wf(),
        0 < map.cols_spec(),
        map.cols_spec() * map.rows_spec() <= MAX_GRID_CELLS,
    ensures
        ({
            let n = map.cols_spec() * map.rows_spec();
            &&& position_store(*final(ecs)) == Some(
                tile_positions(map.cols_spec(), n).insert(n as u32, Position { x: start.x, y: start.y }),
            )
            &&& renderable_store(*final(ecs)) == Some(
                tile_looks(map.tiles_spec(), n).insert(n as u32, player_look()),
            )
            &&& player_store(*final(ecs)) == Some(set![n as u32])
            &&& collider_store(*final(ecs)) == collider_store(*old(ecs))
            &&& mover_store(*final(ecs)) == mover_store(*old(ecs))
            &&& entity_bound(*final(ecs)) == n + 1
            &&& !has_freed_ids(*final(ecs))
            &&& entities_ready(*final(ecs))
            &&& lazy_ready(*final(ecs))
        }),
{
    let n = map.tiles().len();
    let cols = map.cols() as usize;
    let ghost tiles = map.tiles_spec();
    let mut idx: usize = 0;
    while idx < n
        invariant
            idx <= n,
            map.wf(),
            n == map.cols_spec() * map.rows_spec(),
            n <= MAX_GRID_CELLS,
            cols == map.cols_spec(),
            0 < cols,
            tiles == map.tiles_spec(),
            position_store(*ecs) == Some(tile_positions(cols as int, idx as int)),
            renderable_store(*ecs) == Some(tile_looks(tiles, idx as int)),
            player_store(*ecs) == player_store(*old(ecs)),
            collider_store(*ecs) == collider_store(*old(ecs)),
            mover_store(*ecs) == mover_store(*old(ecs)),
            entity_bound(*ecs) == idx,
            !has_freed_ids(*ecs),
            entities_ready(*ecs),
            lazy_ready(*ecs),
        decreases n - idx,
    {
        assert((idx as int) / (cols as int) < map.rows_spec()) by (nonlinear_arith)
            requires
                0 < cols,
                0 <= idx < cols * map.rows_spec(),
        ;
        let x = idx % cols;
        let y = idx / cols;
        let renderable = match map.tiles()[idx] {
            TileType::Floor => renderable_floor(),
            TileType::Wall => renderable_wall(),
            TileType::Empty => Renderable::default(),
        };
        let id = spawn_drawable(ecs, Position { x: x as i32, y: y as i32 }, renderable);
        proof {
            assert(id == idx);
            assert(position_store(*ecs).unwrap() =~= tile_positions(cols as int, idx + 1));
            assert(renderable_store(*ecs).unwrap() =~= tile_looks(tiles, idx + 1));
        }
        idx += 1;
    }
    let id = spawn_player(
        ecs,
        Position { x: start.x, y: start.y },
        Renderable { glyph: '@', fg: Color::Yellow, bg: None },
    );
    proof {
        assert(player_store(*ecs).unwrap() =~= set![n as u32]);
    }
}

/// What starting a session returns, once the content module's init hook has
/// run: the hook's error if it failed, else `MissingStorage` when the entity
/// table or the update queue is gone, else the frame.
pub fn init_outcome(
    hooked: Result<(), GameError>,
    entities: bool,
    lazy: bool,
    frame: Vec<TermCell>,
) -> (r: Result<Vec<TermCell>, GameError>)
    ensures
        hooked is Err ==> r == Err::<Vec<TermCell>, GameError>(hooked->Err_0),
        hooked is Ok && !(entities && lazy) ==> r == Err::<Vec<TermCell>, GameError>(
            GameError::MissingStorage,
        ),
        hooked is Ok && entities && lazy ==> r == Ok::<Vec<TermCell>, GameError>(frame),
{
    match hooked {
        Err(e) => Err(e),
        Ok(()) => {
            if entities && lazy {
                Ok(frame)
            } else {
                Err(GameError::MissingStorage)
            }
        },
    }
}

/// A game session: the world, the level map, the content module, the screen,
/// and where the session stands.
pub struct RogueCrossGame<TGame: Game> {
    ecs: specs::World,
    map: TileMap,
    game: TGame,
    game_state: GameState,
    millis_per_frame: u64,
    renderer: Option<Renderer>,
    should_exit: bool,
    title: String,
    player_start_position: Offset,
    built_map: bool,
    started: bool,
    phase: Phase,
}

impl<TGame: Game + Default> Default for RogueCrossGame<TGame> {
    /// A session on the standard grid with the content module's default.
    fn default() -> (r: Self)
        ensures
            r.wf(),
            r.cols_spec() == GAME_COLS,
            r.rows_spec() == GAME_ROWS,
            fresh_world(r.world_spec()),
            r.map_spec().tiles_spec() == Seq::new(
                (GAME_COLS * GAME_ROWS) as nat,
                |i: int| TileType::Empty,
            ),
            r.start_spec() == (Offset { x: 40, y: 12 }),
            r.phase_spec() == Phase::Uninitialized,
            r.renderer_spec() is None,
            r.event_spec() is None,
            !r.exit_spec(),
            !r.built_map_spec(),
            !r.started_spec(),
            r.budget_spec() == MS_PER_FRAME,
            r.title_spec()@ == TITLE@,
    {
        Self::new(TGame::default())
    }
}

/// The terminal window's title.
pub const TITLE: &'static str = "Rogue Cross Game";

impl<TGame: Game> RogueCrossGame<TGame> {
    pub closed spec fn world_spec(&self) -> specs::World {
        self.ecs
    }

    pub closed spec fn map_spec(&self) -> TileMap {
        self.map
    }

    pub closed spec fn cols_spec(&self) -> int {
        self.game_state.cols as int
    }

    pub closed spec fn rows_spec(&self) -> int {
        self.game_state.rows as int
    }

    pub closed spec fn event_spec(&self) -> Option<InputEvent> {
        self.game_state.event
    }

    pub closed spec fn budget_spec(&self) -> u64 {
        self.millis_per_frame
    }

    pub closed spec fn renderer_spec(&self) -> Option<Renderer> {
        self.renderer
    }

    pub closed spec fn exit_spec(&self) -> bool {
        self.should_exit
    }

    pub closed spec fn start_spec(&self) -> Offset {
        self.player_start_position
    }

    pub closed spec fn built_map_spec(&self) -> bool {
        self.built_map
    }

    pub closed spec fn started_spec(&self) -> bool {
        self.started
    }

    pub closed spec fn phase_spec(&self) -> Phase {
        self.phase
    }

    pub closed spec fn title_spec(&self) -> String {
        self.title
    }

    pub open spec fn wf(&self) -> bool {
        &&& self.map_spec().wf()
        &&& self.map_spec().cols_spec() == self.cols_spec()
        &&& self.map_spec().rows_spec() == self.rows_spec()
        &&& 0 < self.cols_spec()
        &&& 0 < self.rows_spec()
        &&& self.cols_spec() * self.rows_spec() <= MAX_GRID_CELLS
        &&& self.renderer_spec() is Some ==> {
            let r = self.renderer_spec().unwrap();
            &&& r.wf()
            &&& r.cols_spec() == self.cols_spec()
            &&& r.rows_spec() == self.rows_spec()
        }
        &&& self.phase_spec() == Phase::Running ==> self.renderer_spec() is Some
        &&& self.phase_spec() == Phase::Uninitialized ==> fresh_world(self.world_spec())
    }

    /// A session on the standard grid of `GAME_COLS` by `GAME_ROWS` cells.
    pub fn new(game: TGame) -> (r: Self)
        ensures
            r.wf(),
            r.cols_spec() == GAME_COLS,
            r.rows_spec() == GAME_ROWS,
            fresh_world(r.world_spec()),
            r.map_spec().tiles_spec() == Seq::new(
                (GAME_COLS * GAME_ROWS) as nat,
                |i: int| TileType::Empty,
            ),
            r.start_spec() == (Offset { x: 40, y: 12 }),
            r.phase_spec() == Phase::Uninitialized,
            r.renderer_spec() is None,
            r.event_spec() is None,
            !r.exit_spec(),
            !r.built_map_spec(),
            !r.started_spec(),
            r.budget_spec() == MS_PER_FRAME,
            r.title_spec()@ == TITLE@,
    {
        Self::with_size(game, GAME_COLS, GAME_ROWS)
    }

    /// A session on a `cols` by `rows` grid of empty tiles, the player to
    /// start at its center.
    pub fn with_size(game: TGame, cols: u16, rows: u16) -> (r: Self)
        requires
            cols > 0,
            rows > 0,
            cols * rows <= MAX_GRID_CELLS,
        ensures
            r.wf(),
            r.cols_spec() == cols,
            r.rows_spec() == rows,
            fresh_world(r.world_spec()),
            r.map_spec().tiles_spec() == Seq::new(
                (cols * rows) as nat,
                |i: int| TileType::Empty,
            ),
            r.start_spec() == (Offset { x: (cols / 2) as i32, y: (rows / 2) as i32 }),
            r.phase_spec() == Phase::Uninitialized,
            r.renderer_spec() is None,
            r.event_spec() is None,
            !r.exit_spec(),
            !r.built_map_spec(),
            !r.started_spec(),
            r.budget_spec() == MS_PER_FRAME,
            r.title_spec()@ == TITLE@,
    {
        let mut ecs = new_world();
        register_positions(&mut ecs);
        register_renderables(&mut ecs);
        register_colliders(&mut ecs);
        register_players(&mut ecs);
        let game_state = GameState::new(cols, rows);
        let tiles = create_blank_map(&game_state);
        let map = TileMap::new(tiles, cols, rows);
        let player_start_position = Offset::new(cols as i32 / 2, rows as i32 / 2);
        let title = TITLE.to_string();
        proof {
            assert(position_store(ecs).unwrap() =~= Map::<u32, Position>::empty());
            assert(renderable_store(ecs).unwrap() =~= Map::<u32, Renderable>::empty());
        }
        RogueCrossGame {
            ecs,
            map,
            game,
            game_state,
            millis_per_frame: MS_PER_FRAME,
            renderer: None,
            should_exit: false,
            title,
            player_start_position,
            built_map: false,
            started: false,
            phase: Phase::Uninitialized,
        }
    }

    /// Puts the level map in place; the session must not have started.
    pub fn build_map(&mut self, map: Vec<TileType>)
        requires
            old(self).wf(),
            !old(self).started_spec(),
            map@.len() == old(self).cols_spec() * old(self).rows_spec(),
        ensures
            final(self).wf(),
            final(self).map_spec().tiles_spec() == map@,
            final(self).built_map_spec(),
            final(self).world_spec() == old(self).world_spec(),
            final(self).cols_spec() == old(self).cols_spec(),
            final(self).rows_spec() == old(self).rows_spec(),
            final(self).start_spec() == old(self).start_spec(),
            final(self).phase_spec() == old(self).phase_spec(),
            final(self).renderer_spec() == old(self).renderer_spec(),
            final(self).event_spec() == old(self).event_spec(),
            final(self).exit_spec() == old(self).exit_spec(),
            final(self).started_spec() == old(self).started_spec(),
            final(self).budget_spec() == old(self).budget_spec(),
    {
        self.map = TileMap::new(map, self.game_state.cols, self.game_state.rows);
        self.built_map = true;
    }

    /// Sets where the player starts; this comes before the map is built and
    /// before the session starts.
    pub fn set_player_start(&mut self, pos: Offset)
        requires
            old(self).wf(),
            !old(self).started_spec(),
            !old(self).built_map_spec(),
        ensures
            final(self).wf(),
            final(self).start_spec() == pos,
            final(self).world_spec() == old(self).world_spec(),
            final(self).map_spec() == old(self).map_spec(),
            final(self).cols_spec() == old(self).cols_spec(),
            final(self).rows_spec() == old(self).rows_spec(),
            final(self).phase_spec() == old(self).phase_spec(),
            final(self).renderer_spec() == old(self).renderer_spec(),
            final(self).event_spec() == old(self).event_spec(),
            final(self).exit_spec() == old(self).exit_spec(),
            final(self).built_map_spec() == old(self).built_map_spec(),
            final(self).started_spec() == old(self).started_spec(),
            final(self).budget_spec() == old(self).budget_spec(),
    {
        self.player_start_position = pos;
    }

    pub fn game_state(&self) -> (r: &GameState)
        ensures
            r.cols == self.cols_spec(),
            r.rows == self.rows_spec(),
            r.event == self.event_spec(),
    {
        &self.game_state
    }

    pub fn world(&self) -> (r: &specs::World)
        ensures
            *r == self.world_spec(),
    {
        &self.ecs
    }

    pub fn map(&self) -> (r: &TileMap)
        ensures
            *r == self.map_spec(),
    {
        &self.map
    }

    pub fn title(&self) -> (r: &String)
        ensures
            r@ == self.title_spec()@,
    {
        &self.title
    }

    pub fn player_start(&self) -> (r: Offset)
        ensures
            r == self.start_spec(),
    {
        self.player_start_position
    }

    pub fn millis_per_frame(&self) -> (r: u64)
        ensures
            r == self.budget_spec(),
    {
        self.millis_per_frame
    }

    pub fn phase(&self) -> (r: Phase)
        ensures
            r == self.phase_spec(),
    {
        self.phase
    }

    pub fn should_exit(&self) -> (r: bool)
        ensures
            r == self.exit_spec(),
    {
        self.should_exit
    }

    /// Starts the session on a terminal of `term_w` by `term_h` cells: the
    /// level and the player are put into the world (`populate_level`), the
    /// grid is centered, then the content module populates the world and the
    /// world is maintained. Returns the frame to draw around the grid.
    pub fn init(&mut self, term_w: u16, term_h: u16) -> (r: Result<Vec<TermCell>, GameError>)
        requires
            old(self).wf(),
            old(self).phase_spec() == Phase::Uninitialized,
        ensures
            final(self).wf(),
            final(self).cols_spec() == old(self).cols_spec(),
            final(self).rows_spec() == old(self).rows_spec(),
            final(self).map_spec() == old(self).map_spec(),
            final(self).start_spec() == old(self).start_spec(),
            final(self).phase_spec() == Phase::Running,
            final(self).started_spec(),
            ({
                let origin = Offset {
                    x: (margin(term_w as int, old(self).cols_spec()) + 1) as i32,
                    y: (margin(term_h as int, old(self).rows_spec()) + 1) as i32,
                };
                let n = (old(self).cols_spec() * old(self).rows_spec()) as nat;
                let rd = final(self).renderer_spec().unwrap();
                &&& final(self).renderer_spec() is Some
                &&& rd.origin_spec() == origin
                &&& rd.shown() == Seq::new(n, |i: int| blank())
                &&& rd.wanted() == Seq::new(n, |i: int| blank())
                &&& r is Ok ==> r.unwrap()@ == frame_cells(
                    origin.x - 1,
                    origin.y - 1,
                    origin.x + old(self).cols_spec(),
                    origin.y + old(self).rows_spec(),
                )
            }),
    {
        populate_level(&mut self.ecs, &self.map, self.player_start_position);
        let cols = self.game_state.cols;
        let rows = self.game_state.rows;
        let origin = centered_origin(cols, rows, term_w, term_h);
        let frame = draw_terminal_frame(&origin, cols, rows);
        self.renderer = Some(Renderer::new(origin, cols, rows));
        self.started = true;
        self.phase = Phase::Running;
        let hooked = self.game.init(&self.game_state, &mut self.ecs);
        let entities = has_entities(&self.ecs);
        let lazy = has_lazy_updates(&self.ecs);
        let outcome = init_outcome(hooked, entities, lazy, frame);
        if outcome.is_ok() {
            maintain(&mut self.ecs);
        }
        outcome
    }

    /// One tick after the poll: the event is recorded, the update step runs,
    /// and then, unless the session is to exit, the render step. Returns the
    /// writes of the render step, or none when the session exits.
    pub fn tick(&mut self, event: Option<InputEvent>) -> (r: Result<Option<Vec<CellWrite>>, GameError>)
        requires
            old(self).wf(),
            old(self).phase_spec() == Phase::Running,
        ensures
            final(self).wf(),
            final(self).event_spec() == event,
            final(self).map_spec() == old(self).map_spec(),
            final(self).exit_spec() == (old(self).exit_spec() || intent_spec(event) == Intent::Exit),
            final(self).exit_spec() && r is Ok ==> r == Ok::<Option<Vec<CellWrite>>, GameError>(None)
                && final(self).renderer_spec() == old(self).renderer_spec()
                && final(self).phase_spec() == Phase::ShuttingDown,
            !final(self).exit_spec() && r is Ok ==> r.unwrap() is Some && final(self).phase_spec()
                == Phase::Running,
            ({
                let w = old(self).world_spec();
                intent_spec(event) is Move && !(entities_ready(w) && position_store(w) is Some
                    && player_store(w) is Some) ==> r == Err::<Option<Vec<CellWrite>>, GameError>(
                    GameError::MissingStorage,
                ) && final(self).renderer_spec() == old(self).renderer_spec()
            }),
    {
        self.set_event(event);
        let updated = self.update();
        if let Err(e) = updated {
            return Err(e);
        }
        if self.should_exit {
            return Ok(None);
        }
        match self.render() {
            Ok(writes) => Ok(Some(writes)),
            Err(e) => Err(e),
        }
    }

    /// Records the input event of this tick (none when the poll timed out).
    pub fn set_event(&mut self, event: Option<InputEvent>)
        requires
            old(self).wf(),
        ensures
            final(self).wf(),
            final(self).event_spec() == event,
            final(self).world_spec() == old(self).world_spec(),
            final(self).map_spec() == old(self).map_spec(),
            final(self).cols_spec() == old(self).cols_spec(),
            final(self).rows_spec() == old(self).rows_spec(),
            final(self).phase_spec() == old(self).phase_spec(),
            final(self).renderer_spec() == old(self).renderer_spec(),
            final(self).exit_spec() == old(self).exit_spec(),
    {
        self.game_state.event = event;
    }

    /// Acts on this tick's event: a move intent moves every player entity as
    /// `TileMap::try_move` says, Escape raises the exit flag.
    pub fn process_input(&mut self) -> (r: Result<(), GameError>)
        requires
            old(self).wf(),
            old(self).phase_spec() != Phase::Uninitialized,
        ensures
            final(self).wf(),
            final(self).map_spec() == old(self).map_spec(),
            final(self).cols_spec() == old(self).cols_spec(),
            final(self).rows_spec() == old(self).rows_spec(),
            final(self).event_spec() == old(self).event_spec(),
            final(self).phase_spec() == old(self).phase_spec(),
            final(self).renderer_spec() == old(self).renderer_spec(),
            match intent_spec(old(self).event_spec()) {
                Intent::Move { dx, dy } => {
                    let w = old(self).world_spec();
                    if entities_ready(w) && position_store(w) is Some && player_store(w) is Some {
                        &&& r is Ok
                        &&& position_store(final(self).world_spec()) == Some(
                            players_moved(
                                position_store(w).unwrap(),
                                player_store(w).unwrap(),
                                old(self).map_spec(),
                                dx as int,
                                dy as int,
                            ),
                        )
                        &&& renderable_store(final(self).world_spec()) == renderable_store(w)
                        &&& player_store(final(self).world_spec()) == player_store(w)
                        &&& collider_store(final(self).world_spec()) == collider_store(w)
                        &&& mover_store(final(self).world_spec()) == mover_store(w)
                        &&& same_allocator(w, final(self).world_spec())
                        &&& final(self).exit_spec() == old(self).exit_spec()
                    } else {
                        &&& r == Err::<(), GameError>(GameError::MissingStorage)
                        &&& final(self).world_spec() == w
                        &&& final(self).exit_spec() == old(self).exit_spec()
                    }
                },
                Intent::Exit => {
                    &&& r is Ok
                    &&& final(self).exit_spec()
                    &&& final(self).world_spec() == old(self).world_spec()
                },
                Intent::Ignore => {
                    &&& r is Ok
                    &&& final(self).exit_spec() == old(self).exit_spec()
                    &&& final(self).world_spec() == old(self).world_spec()
                },
            },
    {
        match intent_of(&self.game_state.event) {
            Intent::Move { dx, dy } => {
                if !has_entities(&self.ecs) || !has_positions(&self.ecs) || !has_players(&self.ecs) {
                    return Err(GameError::MissingStorage);
                }
                self.move_player(dx, dy);
            },
            Intent::Exit => {
                self.should_exit = true;
            },
            Intent::Ignore => {},
        }
        Ok(())
    }

    /// Moves every player entity as `TileMap::try_move` says.
    fn move_player(&mut self, dx: i32, dy: i32)
        requires
            old(self).wf(),
            old(self).phase_spec() != Phase::Uninitialized,
            entities_ready(old(self).world_spec()),
            position_store(old(self).world_spec()) is Some,
            player_store(old(self).world_spec()) is Some,
        ensures
            final(self).wf(),
            ({
                let w = old(self).world_spec();
                &&& position_store(final(self).world_spec()) == Some(
                    players_moved(
                        position_store(w).unwrap(),
                        player_store(w).unwrap(),
                        old(self).map_spec(),
                        dx as int,
                        dy as int,
                    ),
                )
                &&& renderable_store(final(self).world_spec()) == renderable_store(w)
                &&& player_store(final(self).world_spec()) == player_store(w)
                &&& collider_store(final(self).world_spec()) == collider_store(w)
                &&& mover_store(final(self).world_spec()) == mover_store(w)
                &&& same_allocator(w, final(self).world_spec())
            }),
            final(self).map == old(self).map,
            final(self).game_state == old(self).game_state,
            final(self).player_start_position == old(self).player_start_position,
            final(self).phase == old(self).phase,
            final(self).renderer == old(self).renderer,
            final(self).should_exit == old(self).should_exit,
            final(self).built_map == old(self).built_map,
            final(self).started == old(self).started,
            final(self).millis_per_frame == old(self).millis_per_frame,
    {
        let ghost w0 = self.ecs;
        let ghost ids = player_ids(w0);
        let ghost pm = position_store(w0).unwrap();
        let ghost ps = player_store(w0).unwrap();
        let olds = player_positions(&self.ecs);
        let mut moved: Vec<Position> = Vec::new();
        let mut k: usize = 0;
        while k < olds.len()
            invariant
                k <= olds@.len(),
                self.map.wf(),
                olds@ == ids.map_values(|id: u32| pm[id]),
                moved@.len() == k,
                forall|j: int|
                    0 <= j < k ==> #[trigger] moved@[j] == self.map.moved(pm[ids[j]], dx as int, dy as int),
            decreases olds@.len() - k,
        {
            moved.push(self.map.try_move(olds[k], dx, dy));
            k += 1;
        }
        write_player_positions(&mut self.ecs, &moved);
        proof {
            lemma_common_ids_all(ps, pm.dom());
            lemma_overwrite(pm, ids, moved@, moved@.len());
            let after = overwrite(pm, ids, moved@, moved@.len());
            let want = players_moved(pm, ps, self.map, dx as int, dy as int);
            assert forall|id: u32| after.contains_key(id) implies after[id] == want[id] by {
                if ids.contains(id) {
                    let j = choose|j: int| 0 <= j < ids.len() && ids[j] == id;
                } else {
                    assert(!ids.subrange(0, moved@.len() as int).contains(id)) by {
                        assert(ids.subrange(0, moved@.len() as int) =~= ids);
                    }
                }
            }
            assert(after =~= want);
        }
    }

    /// The update step of a tick: the core acts on the event, then the
    /// content module runs. Once the exit flag is up the session shuts down.
    pub fn update(&mut self) -> (r: Result<(), GameError>)
        requires
            old(self).wf(),
            old(self).phase_spec() != Phase::Uninitialized,
        ensures
            final(self).wf(),
            final(self).map_spec() == old(self).map_spec(),
            final(self).cols_spec() == old(self).cols_spec(),
            final(self).rows_spec() == old(self).rows_spec(),
            final(self).renderer_spec() == old(self).renderer_spec(),
            final(self).event_spec() == old(self).event_spec(),
            final(self).phase_spec() != Phase::Uninitialized,
            final(self).exit_spec() == (old(self).exit_spec() || intent_spec(old(self).event_spec())
                == Intent::Exit),
            r is Ok && final(self).exit_spec() && old(self).phase_spec() == Phase::Running
                ==> final(self).phase_spec() == Phase::ShuttingDown,
            r is Ok && !final(self).exit_spec() ==> final(self).phase_spec() == old(self).phase_spec(),
            r is Err ==> final(self).phase_spec() == old(self).phase_spec(),
            ({
                let w = old(self).world_spec();
                intent_spec(old(self).event_spec()) is Move && !(entities_ready(w) && position_store(w) is Some
                    && player_store(w) is Some) ==> r == Err::<(), GameError>(GameError::MissingStorage)
            }),
    {
        let moved = self.process_input();
        if moved.is_err() {
            return moved;
        }
        let hooked = self.game.update(&self.game_state, &mut self.ecs);
        if hooked.is_err() {
            return hooked;
        }
        if self.should_exit && self.phase == Phase::Running {
            self.phase = Phase::ShuttingDown;
        }
        Ok(())
    }

    /// The render step of a tick: every entity with a position and a
    /// renderable is drawn (those off the grid are skipped), then the screen
    /// is flushed. Returns the writes the flush makes.
    pub fn render(&mut self) -> (r: Result<Vec<CellWrite>, GameError>)
        requires
            old(self).wf(),
        ensures
            final(self).wf(),
            final(self).world_spec() == old(self).world_spec(),
            final(self).map_spec() == old(self).map_spec(),
            final(self).phase_spec() == old(self).phase_spec(),
            final(self).exit_spec() == old(self).exit_spec(),
            final(self).event_spec() == old(self).event_spec(),
            old(self).phase_spec() != Phase::Running ==> r == Err::<Vec<CellWrite>, GameError>(
                GameError::NotRunning,
            ) && final(self).renderer_spec() == old(self).renderer_spec(),
            old(self).phase_spec() == Phase::Running && !(entities_ready(old(self).world_spec())
                && position_store(old(self).world_spec()) is Some && renderable_store(
                old(self).world_spec(),
            ) is Some) ==> r == Err::<Vec<CellWrite>, GameError>(GameError::MissingStorage)
                && final(self).renderer_spec() == old(self).renderer_spec(),
            old(self).phase_spec() == Phase::Running && entities_ready(old(self).world_spec())
                && position_store(old(self).world_spec()) is Some && renderable_store(
                old(self).world_spec(),
            ) is Some ==> {
                let before = old(self).renderer_spec().unwrap();
                let after = final(self).renderer_spec().unwrap();
                let painted = paint(
                    before.wanted(),
                    before.cols_spec(),
                    before.rows_spec(),
                    joined(
                        position_store(old(self).world_spec()).unwrap(),
                        renderable_store(old(self).world_spec()).unwrap(),
                    ),
                );
                &&& r is Ok
                &&& r.unwrap()@ == changed_writes(
                    before.shown(),
                    painted,
                    before.origin_spec(),
                    before.cols_spec(),
                    before.size_spec() as nat,
                )
                &&& final(self).renderer_spec() is Some
                &&& after.shown() == painted
                &&& after.wanted() == painted
                &&& after.origin_spec() == before.origin_spec()
            },
    {
        if self.phase != Phase::Running {
            return Err(GameError::NotRunning);
        }
        if !has_entities(&self.ecs) || !has_positions(&self.ecs) || !has_renderables(&self.ecs) {
            return Err(GameError::MissingStorage);
        }
        let items = drawables(&self.ecs);
        match &mut self.renderer {
            Some(renderer) => {
                draw_entities(renderer, &items);
                Ok(renderer.flush())
            },
            None => Err(GameError::NotRunning),
        }
    }

    /// How long to sleep after a tick whose work took `elapsed_ms`.
    pub fn enforce_framerate(&self, elapsed_ms: u64) -> (r: u64)
        ensures
            elapsed_ms < self.budget_spec() ==> elapsed_ms + r == self.budget_spec(),
            elapsed_ms >= self.budget_spec() ==> r == 0,
    {
        frame_delay(elapsed_ms, self.millis_per_frame)
    }

    /// Ends the session, once the terminal has been restored.
    pub fn deinit(&mut self)
        requires
            old(self).wf(),
        ensures
            final(self).wf(),
            final(self).phase_spec() == Phase::Terminated,
            final(self).world_spec() == old(self).world_spec(),
            final(self).renderer_spec() == old(self).renderer_spec(),
    {
        self.phase = Phase::Terminated;
    }

    /// True when the storages that the core reads and writes are registered.
    pub fn storages_ready(&self) -> (r: bool)
        ensures
            r == storages_ready(self.world_spec()),
    {
        has_positions(&self.ecs) && has_renderables(&self.ecs) && has_players(&self.ecs)
    }
}

} // verus!
