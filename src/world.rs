use vstd::prelude::*;

use crate::components::{Collider, Player, Position, Renderable};
use crate::walkers::LeftMover;
use specs::Builder;

verus! {

#[verifier::external_type_specification]
#[verifier::external_body]
pub struct ExWorld(specs::World);

/// What the world's `Position` storage holds, by entity index; `None` while
/// that storage is not registered.
pub uninterp spec fn position_store(w: specs::World) -> Option<Map<u32, Position>>;

/// What the world's `Renderable` storage holds, by entity index; `None` while
/// that storage is not registered.
pub uninterp spec fn renderable_store(w: specs::World) -> Option<Map<u32, Renderable>>;

/// The indices of the entities that the world's `Player` storage marks;
/// `None` while that storage is not registered.
pub uninterp spec fn player_store(w: specs::World) -> Option<Set<u32>>;

/// The indices of the entities that the world's `Collider` storage marks;
/// `None` while that storage is not registered.
pub uninterp spec fn collider_store(w: specs::World) -> Option<Set<u32>>;

/// What the world's `LeftMover` storage holds, by entity index; `None`
/// while that storage is not registered.
pub uninterp spec fn mover_store(w: specs::World) -> Option<Map<u32, LeftMover>>;

/// How many entity indices the world's allocator has handed out: every
/// index it allocates afresh is this number.
pub uninterp spec fn entity_bound(w: specs::World) -> nat;

/// True when the allocator holds indices of deleted entities to hand out
/// again before fresh ones.
pub uninterp spec fn has_freed_ids(w: specs::World) -> bool;

/// True when the world holds its entity table (`EntitiesRes`), which every
/// storage access and every allocation reads.
pub uninterp spec fn entities_ready(w: specs::World) -> bool;

/// True when the world holds its queue of deferred updates (`LazyUpdate`).
pub uninterp spec fn lazy_ready(w: specs::World) -> bool;

/// Entity indices at or above this bound make the entity bit sets panic, on
/// every target.
pub const MAX_ENTITIES: u32 = 0x10_0000;

/// True when the storages that the game reads and writes are registered.
pub open spec fn storages_ready(w: specs::World) -> bool {
    &&& position_store(w).is_some()
    &&& renderable_store(w).is_some()
    &&& player_store(w).is_some()
}

/// The allocator and the world's own resources are as they were.
pub open spec fn same_allocator(a: specs::World, b: specs::World) -> bool {
    &&& entity_bound(b) == entity_bound(a)
    &&& has_freed_ids(b) == has_freed_ids(a)
    &&& entities_ready(b) == entities_ready(a)
    &&& lazy_ready(b) == lazy_ready(a)
}

/// Where a new entity lands: a fresh index when no freed one waits, else
/// one below the bound.
pub open spec fn allocated(a: specs::World, b: specs::World, id: u32) -> bool {
    &&& !has_freed_ids(a) ==> id == entity_bound(a) && entity_bound(b) == entity_bound(a) + 1
        && !has_freed_ids(b)
    &&& has_freed_ids(a) ==> id < entity_bound(a) && entity_bound(b) == entity_bound(a)
    &&& entities_ready(b) == entities_ready(a)
    &&& lazy_ready(b) == lazy_ready(a)
}

/// A registered storage: what it held before, or nothing if it was new.
pub open spec fn registered<K, V>(before: Option<Map<K, V>>) -> Option<Map<K, V>> {
    match before {
        Some(m) => Some(m),
        None => Some(Map::empty()),
    }
}

/// A registered marker storage: what it held before, or nothing if new.
pub open spec fn registered_set<K>(before: Option<Set<K>>) -> Option<Set<K>> {
    match before {
        Some(s) => Some(s),
        None => Some(Set::empty()),
    }
}

/// The indices below `n` in both sets, in increasing order.
pub open spec fn common_ids(a: Set<u32>, b: Set<u32>, n: nat) -> Seq<u32>
    decreases n,
{
    if n == 0 {
        Seq::empty()
    } else {
        let before = common_ids(a, b, (n - 1) as nat);
        let id = (n - 1) as u32;
        if a.contains(id) && b.contains(id) {
            before.push(id)
        } else {
            before
        }
    }
}

/// Number of entity indices.
pub open spec fn index_count() -> nat {
    0x1_0000_0000
}

/// The indices that hold both a position and a renderable, in increasing
/// order.
pub open spec fn joined_ids(pm: Map<u32, Position>, rm: Map<u32, Renderable>) -> Seq<u32> {
    common_ids(pm.dom(), rm.dom(), index_count())
}

/// The position and renderable of every entity that has both, by increasing
/// entity index.
pub open spec fn joined(pm: Map<u32, Position>, rm: Map<u32, Renderable>) -> Seq<(Position, Renderable)> {
    joined_ids(pm, rm).map_values(|id: u32| (pm[id], rm[id]))
}

/// `m` with `values[k]` put under `ids[k]` for each `k < n`.
pub open spec fn overwrite<V>(m: Map<u32, V>, ids: Seq<u32>, values: Seq<V>, n: nat) -> Map<u32, V>
    decreases n,
{
    if n == 0 {
        m
    } else {
        overwrite(m, ids, values, (n - 1) as nat).insert(ids[n - 1], values[n - 1])
    }
}

/// The indices that are players and have a position, in increasing order.
pub open spec fn player_ids(w: specs::World) -> Seq<u32> {
    common_ids(player_store(w).unwrap(), position_store(w).unwrap().dom(), index_count())
}

/// The indices that have a `LeftMover` and a position, in increasing order.
pub open spec fn mover_ids(w: specs::World) -> Seq<u32> {
    common_ids(mover_store(w).unwrap().dom(), position_store(w).unwrap().dom(), index_count())
}

/// Relies on specs' `WorldExt::new`: a new world has its entity table and
/// update queue, no component storage, and an allocator that has handed out
/// nothing.
#[verifier::external_body]
pub(crate) fn new_world() -> (w: specs::World)
    ensures
        position_store(w).is_none(),
        renderable_store(w).is_none(),
        player_store(w).is_none(),
        collider_store(w).is_none(),
        mover_store(w).is_none(),
        entity_bound(w) == 0,
        !has_freed_ids(w),
        entities_ready(w),
        lazy_ready(w),
{
    <specs::World as specs::WorldExt>::new()
}

/// Relies on specs' `WorldExt::register`: it adds an empty `Position`
/// storage unless one is there, and leaves the rest of the world alone.
#[verifier::external_body]
pub(crate) fn register_positions(w: &mut specs::World)
    ensures
        position_store(*final(w)) == registered(position_store(*old(w))),
        renderable_store(*final(w)) == renderable_store(*old(w)),
        player_store(*final(w)) == player_store(*old(w)),
        collider_store(*final(w)) == collider_store(*old(w)),
        mover_store(*final(w)) == mover_store(*old(w)),
        same_allocator(*old(w), *final(w)),
{
    specs::WorldExt::register::<Position>(w)
}

/// Relies on specs' `WorldExt::register`, as `register_positions` does.
#[verifier::external_body]
pub(crate) fn register_renderables(w: &mut specs::World)
    ensures
        renderable_store(*final(w)) == registered(renderable_store(*old(w))),
        position_store(*final(w)) == position_store(*old(w)),
        player_store(*final(w)) == player_store(*old(w)),
        collider_store(*final(w)) == collider_store(*old(w)),
        mover_store(*final(w)) == mover_store(*old(w)),
        same_allocator(*old(w), *final(w)),
{
    specs::WorldExt::register::<Renderable>(w)
}

/// Relies on specs' `WorldExt::register`, as `register_positions` does.
#[verifier::external_body]
pub(crate) fn register_players(w: &mut specs::World)
    ensures
        player_store(*final(w)) == registered_set(player_store(*old(w))),
        position_store(*final(w)) == position_store(*old(w)),
        renderable_store(*final(w)) == renderable_store(*old(w)),
        collider_store(*final(w)) == collider_store(*old(w)),
        mover_store(*final(w)) == mover_store(*old(w)),
        same_allocator(*old(w), *final(w)),
{
    specs::WorldExt::register::<Player>(w)
}

/// Relies on specs' `WorldExt::register`, as `register_positions` does.
#[verifier::external_body]
pub(crate) fn register_colliders(w: &mut specs::World)
    ensures
        collider_store(*final(w)) == registered_set(collider_store(*old(w))),
        position_store(*final(w)) == position_store(*old(w)),
        renderable_store(*final(w)) == renderable_store(*old(w)),
        player_store(*final(w)) == player_store(*old(w)),
        mover_store(*final(w)) == mover_store(*old(w)),
        same_allocator(*old(w), *final(w)),
{
    specs::WorldExt::register::<Collider>(w)
}

/// Relies on specs' `WorldExt::register`, as `register_positions` does.
#[verifier::external_body]
pub(crate) fn register_left_movers(w: &mut specs::World)
    ensures
        mover_store(*final(w)) == registered(mover_store(*old(w))),
        position_store(*final(w)) == position_store(*old(w)),
        renderable_store(*final(w)) == renderable_store(*old(w)),
        player_store(*final(w)) == player_store(*old(w)),
        collider_store(*final(w)) == collider_store(*old(w)),
        same_allocator(*old(w), *final(w)),
{
    specs::WorldExt::register::<LeftMover>(w)
}

/// Relies on specs' `World::has_value`: true when the `Position` storage is
/// registered.
#[verifier::external_body]
pub(crate) fn has_positions(w: &specs::World) -> (r: bool)
    ensures
        r == position_store(*w).is_some(),
{
    w.has_value::<specs::storage::MaskedStorage<Position>>()
}

/// Relies on specs' `World::has_value`: true when the `Renderable` storage
/// is registered.
#[verifier::external_body]
pub(crate) fn has_renderables(w: &specs::World) -> (r: bool)
    ensures
        r == renderable_store(*w).is_some(),
{
    w.has_value::<specs::storage::MaskedStorage<Renderable>>()
}

/// Relies on specs' `World::has_value`: true when the `Player` storage is
/// registered.
#[verifier::external_body]
pub(crate) fn has_players(w: &specs::World) -> (r: bool)
    ensures
        r == player_store(*w).is_some(),
{
    w.has_value::<specs::storage::MaskedStorage<Player>>()
}

/// Relies on specs' `World::has_value`: true when the `LeftMover` storage
/// is registered.
#[verifier::external_body]
pub(crate) fn has_movers(w: &specs::World) -> (r: bool)
    ensures
        r == mover_store(*w).is_some(),
{
    w.has_value::<specs::storage::MaskedStorage<LeftMover>>()
}

/// Relies on specs' `World::has_value`: true when the entity table is there.
#[verifier::external_body]
pub(crate) fn has_entities(w: &specs::World) -> (r: bool)
    ensures
        r == entities_ready(*w),
{
    w.has_value::<specs::world::EntitiesRes>()
}

/// Relies on specs' `World::has_value`: true when the update queue is there.
#[verifier::external_body]
pub(crate) fn has_lazy_updates(w: &specs::World) -> (r: bool)
    ensures
        r == lazy_ready(*w),
{
    w.has_value::<specs::LazyUpdate>()
}

/// Relies on specs' `EntityBuilder`: `create_entity` allocates an index
/// (a freed one first, else the next fresh one) and adds it to the alive
/// bit set, which panics at `MAX_ENTITIES` on the smallest target; each
/// `with` stores a component under that index; `build` hands it out.
#[verifier::external_body]
pub(crate) fn spawn_drawable(w: &mut specs::World, p: Position, r: Renderable) -> (id: u32)
    requires
        entities_ready(*old(w)),
        entity_bound(*old(w)) < MAX_ENTITIES,
        position_store(*old(w)).is_some(),
        renderable_store(*old(w)).is_some(),
    ensures
        allocated(*old(w), *final(w), id),
        position_store(*final(w)) == Some(position_store(*old(w)).unwrap().insert(id, p)),
        renderable_store(*final(w)) == Some(renderable_store(*old(w)).unwrap().insert(id, r)),
        player_store(*final(w)) == player_store(*old(w)),
        collider_store(*final(w)) == collider_store(*old(w)),
        mover_store(*final(w)) == mover_store(*old(w)),
{
    specs::WorldExt::create_entity(w).with(p).with(r).build().id()
}

/// Relies on specs' `EntityBuilder`, as `spawn_drawable` does, with the
/// `Player` marker stored too.
#[verifier::external_body]
pub(crate) fn spawn_player(w: &mut specs::World, p: Position, r: Renderable) -> (id: u32)
    requires
        entities_ready(*old(w)),
        entity_bound(*old(w)) < MAX_ENTITIES,
        storages_ready(*old(w)),
    ensures
        allocated(*old(w), *final(w), id),
        position_store(*final(w)) == Some(position_store(*old(w)).unwrap().insert(id, p)),
        renderable_store(*final(w)) == Some(renderable_store(*old(w)).unwrap().insert(id, r)),
        player_store(*final(w)) == Some(player_store(*old(w)).unwrap().insert(id)),
        collider_store(*final(w)) == collider_store(*old(w)),
        mover_store(*final(w)) == mover_store(*old(w)),
{
    specs::WorldExt::create_entity(w).with(p).with(r).with(Player {}).build().id()
}

/// Relies on specs' `EntityBuilder`, as `spawn_drawable` does, with a
/// `LeftMover` stored too.
#[verifier::external_body]
pub(crate) fn spawn_mover(w: &mut specs::World, p: Position, r: Renderable, m: LeftMover) -> (id: u32)
    requires
        entities_ready(*old(w)),
        entity_bound(*old(w)) < MAX_ENTITIES,
        position_store(*old(w)).is_some(),
        renderable_store(*old(w)).is_some(),
        mover_store(*old(w)).is_some(),
    ensures
        allocated(*old(w), *final(w), id),
        position_store(*final(w)) == Some(position_store(*old(w)).unwrap().insert(id, p)),
        renderable_store(*final(w)) == Some(renderable_store(*old(w)).unwrap().insert(id, r)),
        mover_store(*final(w)) == Some(mover_store(*old(w)).unwrap().insert(id, m)),
        player_store(*final(w)) == player_store(*old(w)),
        collider_store(*final(w)) == collider_store(*old(w)),
{
    specs::WorldExt::create_entity(w).with(p).with(r).with(m).build().id()
}

/// Relies on specs' `Join` over two storages: it visits the indices that
/// both storages hold, in increasing order (a `hibitset` walk).
#[verifier::external_body]
pub(crate) fn drawables(w: &specs::World) -> (r: Vec<(Position, Renderable)>)
    requires
        entities_ready(*w),
        position_store(*w).is_some(),
        renderable_store(*w).is_some(),
    ensures
        r@ == joined(position_store(*w).unwrap(), renderable_store(*w).unwrap()),
{
    let positions = specs::WorldExt::read_storage::<Position>(w);
    let renderables = specs::WorldExt::read_storage::<Renderable>(w);
    specs::Join::join((&positions, &renderables)).map(|(p, r)| (*p, *r)).collect()
}

/// Relies on specs' `Join` of the `Player` mask with the `Position`
/// storage: it visits the indices in both, in increasing order.
#[verifier::external_body]
pub(crate) fn player_positions(w: &specs::World) -> (r: Vec<Position>)
    requires
        entities_ready(*w),
        position_store(*w).is_some(),
        player_store(*w).is_some(),
    ensures
        r@ == player_ids(*w).map_values(|id: u32| position_store(*w).unwrap()[id]),
{
    let players = specs::WorldExt::read_storage::<Player>(w);
    let positions = specs::WorldExt::read_storage::<Position>(w);
    specs::Join::join((players.mask(), &positions)).map(|(_, p)| *p).collect()
}

/// Relies on the same join as `player_positions`, over the positions
/// mutably: the `k`-th position it visits becomes `values[k]`.
#[verifier::external_body]
pub(crate) fn write_player_positions(w: &mut specs::World, values: &Vec<Position>)
    requires
        entities_ready(*old(w)),
        position_store(*old(w)).is_some(),
        player_store(*old(w)).is_some(),
        values@.len() == player_ids(*old(w)).len(),
    ensures
        position_store(*final(w)) == Some(
            overwrite(
                position_store(*old(w)).unwrap(),
                player_ids(*old(w)),
                values@,
                values@.len(),
            ),
        ),
        renderable_store(*final(w)) == renderable_store(*old(w)),
        player_store(*final(w)) == player_store(*old(w)),
        collider_store(*final(w)) == collider_store(*old(w)),
        mover_store(*final(w)) == mover_store(*old(w)),
        same_allocator(*old(w), *final(w)),
{
    let players = specs::WorldExt::read_storage::<Player>(&*w);
    let mut positions = specs::WorldExt::write_storage::<Position>(&*w);
    for ((_, pos), v) in specs::Join::join((players.mask(), &mut positions)).zip(values.iter()) {
        *pos = *v;
    }
}

/// Relies on specs' `Join` of the `LeftMover` storage with the `Position`
/// storage: it visits the indices in both, in increasing order.
#[verifier::external_body]
pub(crate) fn mover_positions(w: &specs::World) -> (r: Vec<(LeftMover, Position)>)
    requires
        entities_ready(*w),
        position_store(*w).is_some(),
        mover_store(*w).is_some(),
    ensures
        r@ == mover_ids(*w).map_values(
            |id: u32| (mover_store(*w).unwrap()[id], position_store(*w).unwrap()[id]),
        ),
{
    let movers = specs::WorldExt::read_storage::<LeftMover>(w);
    let positions = specs::WorldExt::read_storage::<Position>(w);
    specs::Join::join((&movers, &positions)).map(|(m, p)| (*m, *p)).collect()
}

/// Relies on the same join as `mover_positions`, over the positions
/// mutably: the `k`-th position it visits becomes `values[k]`.
#[verifier::external_body]
pub(crate) fn write_mover_positions(w: &mut specs::World, values: &Vec<Position>)
    requires
        entities_ready(*old(w)),
        position_store(*old(w)).is_some(),
        mover_store(*old(w)).is_some(),
        values@.len() == mover_ids(*old(w)).len(),
    ensures
        position_store(*final(w)) == Some(
            overwrite(
                position_store(*old(w)).unwrap(),
                mover_ids(*old(w)),
                values@,
                values@.len(),
            ),
        ),
        renderable_store(*final(w)) == renderable_store(*old(w)),
        player_store(*final(w)) == player_store(*old(w)),
        collider_store(*final(w)) == collider_store(*old(w)),
        mover_store(*final(w)) == mover_store(*old(w)),
        same_allocator(*old(w), *final(w)),
{
    let movers = specs::WorldExt::read_storage::<LeftMover>(&*w);
    let mut positions = specs::WorldExt::write_storage::<Position>(&*w);
    for ((_, pos), v) in specs::Join::join((movers.mask(), &mut positions)).zip(values.iter()) {
        *pos = *v;
    }
}

/// Relies on specs' `WorldExt::maintain`: it needs the entity table and the
/// update queue, removes the components of deleted entities and runs
/// deferred updates, which may change anything; nothing is claimed of the
/// world after it.
#[verifier::external_body]
pub(crate) fn maintain(w: &mut specs::World)
    requires
        entities_ready(*old(w)),
        lazy_ready(*old(w)),
{
    specs::WorldExt::maintain(w)
}

pub(crate) proof fn lemma_common_ids(a: Set<u32>, b: Set<u32>, n: nat)
    requires
        n <= index_count(),
    ensures
        forall|id: u32| common_ids(a, b, n).contains(id) <==> (id < n && a.contains(id) && b.contains(id)),
        forall|i: int, j: int|
            0 <= i < j < common_ids(a, b, n).len() ==> common_ids(a, b, n)[i] < common_ids(a, b, n)[j],
        forall|i: int| 0 <= i < common_ids(a, b, n).len() ==> common_ids(a, b, n)[i] < n,
    decreases n,
{
    if n > 0 {
        let m = (n - 1) as nat;
        lemma_common_ids(a, b, m);
        let before = common_ids(a, b, m);
        let id = m as u32;
        if a.contains(id) && b.contains(id) {
            let after = before.push(id);
            assert forall|k: u32| after.contains(k) <==> (k < n && a.contains(k) && b.contains(k)) by {
                if k == id {
                    assert(after[after.len() - 1] == k);
                } else if after.contains(k) {
                    let i = choose|i: int| 0 <= i < after.len() && after[i] == k;
                    assert(before[i] == k);
                } else if k < m && a.contains(k) && b.contains(k) {
                    let i = choose|i: int| 0 <= i < before.len() && before[i] == k;
                    assert(after[i] == k);
                }
            }
        }
    }
}

/// The indices that `common_ids` lists are all in both sets, each once.
pub(crate) proof fn lemma_common_ids_all(a: Set<u32>, b: Set<u32>)
    ensures
        forall|id: u32| common_ids(a, b, index_count()).contains(id) <==> (a.contains(id) && b.contains(id)),
        common_ids(a, b, index_count()).no_duplicates(),
        forall|i: int|
            0 <= i < common_ids(a, b, index_count()).len() ==> a.contains(
                #[trigger] common_ids(a, b, index_count())[i],
            ) && b.contains(common_ids(a, b, index_count())[i]),
{
    lemma_common_ids(a, b, index_count());
    let ids = common_ids(a, b, index_count());
    assert forall|i: int, j: int| 0 <= i < ids.len() && 0 <= j < ids.len() && i != j implies ids[i] != ids[j] by {
        if i < j {
            assert(ids[i] < ids[j]);
        } else {
            assert(ids[j] < ids[i]);
        }
    }
    assert forall|i: int| 0 <= i < ids.len() implies a.contains(#[trigger] ids[i]) && b.contains(ids[i]) by {
        assert(ids.contains(ids[i]));
    }
}

/// Writing `values[k]` under distinct existing keys `ids[k]` keeps the keys
/// and changes exactly those entries.
pub(crate) proof fn lemma_overwrite<V>(m: Map<u32, V>, ids: Seq<u32>, values: Seq<V>, n: nat)
    requires
        n <= ids.len(),
        ids.len() == values.len(),
        ids.no_duplicates(),
        forall|k: int| 0 <= k < ids.len() ==> m.contains_key(#[trigger] ids[k]),
    ensures
        overwrite(m, ids, values, n).dom() == m.dom(),
        forall|k: int| 0 <= k < n ==> #[trigger] overwrite(m, ids, values, n)[ids[k]] == values[k],
        forall|id: u32|
            m.contains_key(id) && !ids.subrange(0, n as int).contains(id) ==> #[trigger] overwrite(
                m,
                ids,
                values,
                n,
            )[id] == m[id],
    decreases n,
{
    if n > 0 {
        let k0 = n - 1;
        lemma_overwrite(m, ids, values, (n - 1) as nat);
        let before = overwrite(m, ids, values, (n - 1) as nat);
        assert(before.insert(ids[k0], values[k0]).dom() =~= m.dom());
        assert forall|id: u32| m.contains_key(id) && !ids.subrange(0, n as int).contains(id) implies #[trigger] overwrite(m, ids, values, n)[id] == m[id] by {
            assert(id != ids[k0]) by {
                assert(ids.subrange(0, n as int)[k0] == ids[k0]);
            }
            if ids.subrange(0, k0).contains(id) {
                let j = choose|j: int| 0 <= j < k0 && ids.subrange(0, k0)[j] == id;
                assert(ids.subrange(0, n as int)[j] == id);
            }
        }
    }
}

/// The join over positions and renderables yields exactly the entities that
/// hold both components, each once, by increasing index, with their own
/// components.
pub proof fn lemma_join_is_intersection(pm: Map<u32, Position>, rm: Map<u32, Renderable>)
    ensures
        forall|id: u32| joined_ids(pm, rm).contains(id) <==> (pm.contains_key(id) && rm.contains_key(id)),
        joined_ids(pm, rm).no_duplicates(),
        joined(pm, rm).len() == joined_ids(pm, rm).len(),
        forall|k: int|
            0 <= k < joined(pm, rm).len() ==> #[trigger] joined(pm, rm)[k] == (
                pm[joined_ids(pm, rm)[k]],
                rm[joined_ids(pm, rm)[k]],
            ),
{
    lemma_common_ids_all(pm.dom(), rm.dom());
}

} // verus!
