use vstd::prelude::*;

use crate::components::{Color, Position, Renderable};
use crate::game::{player_look, Game, GameError, GameState, GAME_COLS, GAME_ROWS};
use crate::world::{
    collider_store, entities_ready, entity_bound, has_entities, has_freed_ids, has_movers,
    has_players, has_positions, has_renderables, lazy_ready, lemma_common_ids_all,
    lemma_overwrite, mover_ids, mover_positions, mover_store, overwrite, player_store,
    position_store, register_left_movers, registered, renderable_store, same_allocator,
    spawn_mover, spawn_player, storages_ready, write_mover_positions, MAX_ENTITIES,
};

verus! {

/// Marks an entity that walks left one cell per tick and wraps around to
/// `max_col` when it leaves the grid.
#[derive(Clone, Copy, Debug, PartialEq, Eq, Structural)]
pub struct LeftMover {
    pub min_col: i32,
    pub max_col: i32,
    pub min_row: i32,
    pub max_row: i32,
}

impl Default for LeftMover {
    fn default() -> (r: LeftMover)
        ensures
            r == default_mover(),
    {
        LeftMover { min_col: 0, max_col: GAME_COLS as i32, min_row: 0, max_row: GAME_ROWS as i32 }
    }
}

impl specs::Component for LeftMover {
    type Storage = specs::VecStorage<Self>;
}

/// One cell to the left, or back to `max_col` once off the left edge.
pub open spec fn stepped_left(p: Position, m: LeftMover) -> Position {
    if p.x - 1 < 0 {
        Position { x: m.max_col, y: p.y }
    } else {
        Position { x: (p.x - 1) as i32, y: p.y }
    }
}

pub fn step_left(pos: Position, mover: &LeftMover) -> (r: Position)
    ensures
        r == stepped_left(pos, *mover),
{
    if (pos.x as i64) - 1 < 0 {
        Position { x: mover.max_col, y: pos.y }
    } else {
        Position { x: pos.x - 1, y: pos.y }
    }
}

/// Every position of an entity with a `LeftMover`, stepped left.
pub open spec fn movers_stepped(pm: Map<u32, Position>, mm: Map<u32, LeftMover>) -> Map<
    u32,
    Position,
> {
    Map::new(
        |id: u32| pm.contains_key(id),
        |id: u32|
            if mm.contains_key(id) {
                stepped_left(pm[id], mm[id])
            } else {
                pm[id]
            },
    )
}

/// The system that walks every `LeftMover` entity one cell left.
pub struct LeftWalker {}

impl LeftWalker {
    /// Steps every entity with a `LeftMover` and a position; returns false,
    /// changing nothing, when the entity table or either storage is missing.
    pub fn run(&mut self, ecs: &mut specs::World) -> (r: bool)
        ensures
            r == (entities_ready(*old(ecs)) && position_store(*old(ecs)) is Some && mover_store(
                *old(ecs),
            ) is Some),
            r ==> position_store(*final(ecs)) == Some(
                movers_stepped(
                    position_store(*old(ecs)).unwrap(),
                    mover_store(*old(ecs)).unwrap(),
                ),
            ),
            r ==> renderable_store(*final(ecs)) == renderable_store(*old(ecs)),
            r ==> player_store(*final(ecs)) == player_store(*old(ecs)),
            r ==> collider_store(*final(ecs)) == collider_store(*old(ecs)),
            r ==> mover_store(*final(ecs)) == mover_store(*old(ecs)),
            r ==> same_allocator(*old(ecs), *final(ecs)),
            !r ==> *final(ecs) == *old(ecs),
    {
        if !has_entities(ecs) || !has_positions(ecs) || !has_movers(ecs) {
            return false;
        }
        let ghost w0 = *ecs;
        let ghost ids = mover_ids(w0);
        let ghost pm = position_store(w0).unwrap();
        let ghost mm = mover_store(w0).unwrap();
        let items = mover_positions(ecs);
        let mut stepped: Vec<Position> = Vec::new();
        let mut k: usize = 0;
        while k < items.len()
            invariant
                k <= items@.len(),
                items@ == ids.map_values(|id: u32| (mm[id], pm[id])),
                stepped@.len() == k,
                forall|j: int| 0 <= j < k ==> #[trigger] stepped@[j] == stepped_left(pm[ids[j]], mm[ids[j]]),
            decreases items@.len() - k,
        {
            let (mover, pos) = items[k];
            stepped.push(step_left(pos, &mover));
            k += 1;
        }
        write_mover_positions(ecs, &stepped);
        proof {
            lemma_common_ids_all(mm.dom(), pm.dom());
            lemma_overwrite(pm, ids, stepped@, stepped@.len());
            let after = overwrite(pm, ids, stepped@, stepped@.len());
            assert forall|id: u32| after.contains_key(id) implies after[id] == movers_stepped(pm, mm)[id] by {
                if ids.contains(id) {
                    let j = choose|j: int| 0 <= j < ids.len() && ids[j] == id;
                } else {
                    assert(!ids.subrange(0, stepped@.len() as int).contains(id)) by {
                        assert(ids.subrange(0, stepped@.len() as int) =~= ids);
                    }
                }
            }
            assert(after =~= movers_stepped(pm, mm));
        }
        true
    }
}

/// How many walkers the demo starts with.
pub const WALKERS: i32 = 10;

/// How many columns apart the walkers start.
pub const WALKER_SPACING: i32 = 7;

/// Where the demo's player starts.
pub open spec fn demo_player_position() -> Position {
    Position { x: 40, y: 12 }
}

/// Where the `i`-th walker starts.
pub open spec fn walker_position(i: int) -> Position {
    Position { x: (i * WALKER_SPACING) as i32, y: 10 }
}

/// How the walkers are drawn.
pub open spec fn walker_look() -> Renderable {
    Renderable { glyph: '☺', fg: Color::Red, bg: None }
}

/// `m` with the first `k` walkers, which take the indices right after
/// `first`, each holding `f` of its number.
pub open spec fn with_walkers<V>(m: Map<u32, V>, first: int, k: int, f: spec_fn(int) -> V) -> Map<u32, V> {
    Map::new(
        |id: u32| m.contains_key(id) || first <= id < first + k,
        |id: u32| if first <= id < first + k { f(id - first) } else { m[id] },
    )
}

/// A demo: a player at the center and a row of walkers that cross the
/// screen from right to left.
pub struct WalkerDemo {}

impl Default for WalkerDemo {
    fn default() -> (r: WalkerDemo) {
        WalkerDemo {}
    }
}

impl WalkerDemo {
    /// Populates the world with the player, at the first free index, and the
    /// walkers, at the indices after it; returns false, changing nothing, when
    /// the entity table or one of the storages it fills is missing.
    pub fn populate(ecs: &mut specs::World) -> (r: bool)
        requires
            entity_bound(*old(ecs)) + WALKERS + 1 < MAX_ENTITIES,
            !has_freed_ids(*old(ecs)),
        ensures
            r == (entities_ready(*old(ecs)) && storages_ready(*old(ecs))),
            r ==> {
                let w = *old(ecs);
                let b = entity_bound(w) as int;
                &&& position_store(*final(ecs)) == Some(
                    with_walkers(
                        position_store(w).unwrap().insert(b as u32, demo_player_position()),
                        b + 1,
                        WALKERS as int,
                        |i: int| walker_position(i),
                    ),
                )
                &&& renderable_store(*final(ecs)) == Some(
                    with_walkers(
                        renderable_store(w).unwrap().insert(b as u32, player_look()),
                        b + 1,
                        WALKERS as int,
                        |i: int| walker_look(),
                    ),
                )
                &&& player_store(*final(ecs)) == Some(player_store(w).unwrap().insert(b as u32))
                &&& mover_store(*final(ecs)) == Some(
                    with_walkers(
                        registered(mover_store(w)).unwrap(),
                        b + 1,
                        WALKERS as int,
                        |i: int| default_mover(),
                    ),
                )
                &&& collider_store(*final(ecs)) == collider_store(w)
                &&& entity_bound(*final(ecs)) == b + 1 + WALKERS
                &&& !has_freed_ids(*final(ecs))
                &&& entities_ready(*final(ecs))
                &&& lazy_ready(*final(ecs)) == lazy_ready(w)
            },
            !r ==> *final(ecs) == *old(ecs),
    {
        if !has_entities(ecs) || !has_positions(ecs) || !has_renderables(ecs) || !has_players(ecs) {
            return false;
        }
        let ghost w = *ecs;
        let ghost b = entity_bound(w) as int;
        spawn_player(
            ecs,
            Position { x: 40, y: 12 },
            Renderable { glyph: '@', fg: Color::Yellow, bg: None },
        );
        register_left_movers(ecs);
        let ghost pm1 = position_store(*ecs).unwrap();
        let ghost rm1 = renderable_store(*ecs).unwrap();
        let ghost mm1 = mover_store(*ecs).unwrap();
        let mut i: i32 = 0;
        while i < WALKERS
            invariant
                0 <= i <= WALKERS,
                b == entity_bound(w),
                b + WALKERS + 1 < MAX_ENTITIES,
                entity_bound(*ecs) == b + 1 + i,
                !has_freed_ids(*ecs),
                entities_ready(*ecs),
                lazy_ready(*ecs) == lazy_ready(w),
                pm1 == position_store(w).unwrap().insert(b as u32, demo_player_position()),
                rm1 == renderable_store(w).unwrap().insert(b as u32, player_look()),
                mm1 == registered(mover_store(w)).unwrap(),
                position_store(*ecs) == Some(with_walkers(pm1, b + 1, i as int, |j: int| walker_position(j))),
                renderable_store(*ecs) == Some(with_walkers(rm1, b + 1, i as int, |j: int| walker_look())),
                mover_store(*ecs) == Some(with_walkers(mm1, b + 1, i as int, |j: int| default_mover())),
                player_store(*ecs) == Some(player_store(w).unwrap().insert(b as u32)),
                collider_store(*ecs) == collider_store(w),
            decreases WALKERS - i,
        {
            let ghost before = *ecs;
            let id = spawn_mover(
                ecs,
                Position { x: i * WALKER_SPACING, y: 10 },
                Renderable { glyph: '☺', fg: Color::Red, bg: None },
                LeftMover::default(),
            );
            proof {
                let n = i as int;
                assert(position_store(*ecs).unwrap() =~= with_walkers(pm1, b + 1, n + 1, |j: int| walker_position(j)));
                assert(renderable_store(*ecs).unwrap() =~= with_walkers(rm1, b + 1, n + 1, |j: int| walker_look()));
                assert(mover_store(*ecs).unwrap() =~= with_walkers(mm1, b + 1, n + 1, |j: int| default_mover()));
            }
            i += 1;
        }
        true
    }
}

/// The mover that `LeftMover::default` gives.
pub open spec fn default_mover() -> LeftMover {
    LeftMover { min_col: 0, max_col: GAME_COLS as i32, min_row: 0, max_row: GAME_ROWS as i32 }
}

impl Game for WalkerDemo {
    fn init(&self, _gs: &GameState, ecs: &mut specs::World) -> (r: Result<(), GameError>) {
        if WalkerDemo::populate(ecs) {
            Ok(())
        } else {
            Err(GameError::MissingStorage)
        }
    }

    fn update(&mut self, _gs: &GameState, ecs: &mut specs::World) -> (r: Result<(), GameError>) {
        let mut walker = LeftWalker {};
        if walker.run(ecs) {
            Ok(())
        } else {
            Err(GameError::MissingStorage)
        }
    }
}

} // verus!
