mod components;
mod game;
mod offset;
mod rc_terminal;
mod renderables;
mod renderer;
mod tiles;
mod walkers;
mod walkmap;
mod world;

pub use components::{clamp_coord, Collider, Color, Player, Position, Renderable};
pub use game::{
    centered_origin, create_blank_map, draw_entities, init_outcome, lemma_same_scene_writes_nothing, populate_level, frame_delay, intent_of, Game, GameError,
    GameState, InputEvent, Intent, KeyCode, KeyEvent, Phase, RogueCrossGame, FRAMES_PER_SEC,
    GAME_COLS, GAME_ROWS, MAX_GRID_CELLS, MS_PER_FRAME, TITLE,
};
pub use offset::Offset;
pub use rc_terminal::{
    cls, draw_terminal_frame, ClearRow, TermCell, HORIZONTAL_WALL, LOWER_LEFT_CORNER,
    LOWER_RIGHT_CORNER, UPPER_LEFT_CORNER, UPPER_RIGHT_CORNER, VERTICAL_WALL,
};
pub use renderables::{renderable_floor, renderable_wall};
pub use renderer::{
    lemma_flush_writes_changed_cells, lemma_second_flush_writes_nothing, CellWrite, Renderer,
};
pub use specs::World;
pub use tiles::{lemma_step_off_grid_is_clamped, TileMap, TileType};
pub use walkers::{step_left, WalkerDemo, LeftMover, LeftWalker, WALKERS, WALKER_SPACING};
pub use walkmap::{create_map, place_walls, xy_idx, RANDOM_WALLS};
pub use world::{lemma_join_is_intersection, MAX_ENTITIES};
