//! The entity store.
//!
//! Entities live in a `legion::World`. A vehicle is an entity that carries a
//! `Vehicle`, a projectile one that carries a `Projectile`. The simulation
//! reads and writes the store only through the functions of this module,
//! whose contracts speak of what the store holds. What is to enter the store
//! during a pass over it waits in a `legion::systems::CommandBuffer` until
//! the pass is over.
use vstd::prelude::*;
use legion::{EntityStore, IntoQuery};
use crate::components::{Projectile, Vehicle};

verus! {

/// `legion::World`, taken as it is. What a world holds is known only by the
/// names below and through the functions of this module.
#[verifier::external_type_specification]
#[verifier::external_body]
pub struct ExWorld(legion::World);

/// `legion::Entity`, the identifier of an entity, taken as it is.
#[verifier::external_type_specification]
#[verifier::external_body]
pub struct ExEntity(legion::Entity);

/// The vehicles that a world holds, by entity.
pub uninterp spec fn vehicles_of(world: legion::World) -> Map<legion::Entity, Vehicle>;

/// The projectiles that a world holds, by entity.
pub uninterp spec fn projectiles_of(world: legion::World) -> Map<legion::Entity, Projectile>;

/// The order in which a query over a world visits its vehicles.
pub uninterp spec fn vehicle_order(world: legion::World) -> Seq<legion::Entity>;

/// The order in which a query over a world visits its projectiles.
pub uninterp spec fn projectile_order(world: legion::World) -> Seq<legion::Entity>;

/// The number by which a world is told from every other; a world keeps it
/// for life.
pub uninterp spec fn identity(world: legion::World) -> int;

/// `legion::systems::CommandBuffer`, taken as it is. What a buffer holds is
/// known only by the names below and through the functions of this module.
#[verifier::external_type_specification]
#[verifier::external_body]
pub struct ExCommandBuffer(legion::systems::CommandBuffer);

/// The projectiles that wait in a buffer, each with the identifier under
/// which it will enter the world, in the order in which they were queued.
pub uninterp spec fn queued(cmds: legion::systems::CommandBuffer) -> Seq<(legion::Entity, Projectile)>;

/// Whether nothing waits in a buffer but the projectiles of `queued`.
pub uninterp spec fn holds_rounds_only(cmds: legion::systems::CommandBuffer) -> bool;

/// The number of the world that a buffer was made for.
pub uninterp spec fn parent(cmds: legion::systems::CommandBuffer) -> int;

/// The identifiers of what waits in a buffer.
pub open spec fn waiting_ids(q: Seq<(legion::Entity, Projectile)>) -> Seq<legion::Entity> {
    Seq::new(q.len(), |k: int| q[k].0)
}

/// The projectiles that wait in a buffer.
pub open spec fn waiting_rounds(q: Seq<(legion::Entity, Projectile)>) -> Seq<Projectile> {
    Seq::new(q.len(), |k: int| q[k].1)
}

/// Whether the store has taken the rounds in under the given identifiers:
/// every identifier is new and holds its round, and what the store held
/// before is still there unchanged.
pub open spec fn rounds_landed(
    before: Map<legion::Entity, Projectile>,
    after: Map<legion::Entity, Projectile>,
    ids: Seq<legion::Entity>,
    rounds: Seq<Projectile>,
) -> bool {
    &&& ids.len() == rounds.len()
    &&& ids.no_duplicates()
    &&& forall|k: int|
        0 <= k < ids.len() ==> !before.dom().contains(#[trigger] ids[k]) && after.dom().contains(
            ids[k],
        ) && after[ids[k]] == rounds[k]
    &&& forall|e: legion::Entity|
        #![trigger after.dom().contains(e)]
        #![trigger before.dom().contains(e)]
        #![trigger ids.contains(e)]
        after.dom().contains(e) <==> (before.dom().contains(e) || ids.contains(e))
    &&& forall|e: legion::Entity| #[trigger] before.dom().contains(e) ==> after[e] == before[e]
}

/// The value that `m` holds for `key`, if it holds one.
pub open spec fn lookup<V>(m: Map<legion::Entity, V>, key: legion::Entity) -> Option<V> {
    if m.dom().contains(key) {
        Some(m[key])
    } else {
        None
    }
}

/// Whether `order` lists the keys of `m`, each once.
pub open spec fn lists_keys<V>(order: Seq<legion::Entity>, m: Map<legion::Entity, V>) -> bool {
    &&& order.no_duplicates()
    &&& forall|e: legion::Entity| order.contains(e) <==> m.dom().contains(e)
}

/// Whether `now` holds, for every key of `before`, what `f` makes of the old
/// value where the key is in `done`, and the old value elsewhere.
pub open spec fn updated_on<V>(
    now: Map<legion::Entity, V>,
    before: Map<legion::Entity, V>,
    done: Seq<legion::Entity>,
    f: spec_fn(legion::Entity, V) -> V,
) -> bool {
    &&& now.dom() == before.dom()
    &&& forall|e: legion::Entity| #[trigger]
        before.dom().contains(e) ==> now[e] == (if done.contains(e) {
            f(e, before[e])
        } else {
            before[e]
        })
}

/// Writing the image of the next key's value carries `updated_on` one key further.
pub proof fn lemma_update_step<V>(
    now: Map<legion::Entity, V>,
    before: Map<legion::Entity, V>,
    order: Seq<legion::Entity>,
    i: int,
    f: spec_fn(legion::Entity, V) -> V,
)
    requires
        0 <= i < order.len(),
        lists_keys(order, before),
        updated_on(now, before, order.take(i), f),
    ensures
        now.dom().contains(order[i]),
        now[order[i]] == before[order[i]],
        updated_on(now.insert(order[i], f(order[i], before[order[i]])), before, order.take(i + 1), f),
{
    let e = order[i];
    assert(order.contains(e));
    assert(before.dom().contains(e));
    let head = order.take(i);
    let more = order.take(i + 1);
    assert(!head.contains(e)) by {
        if head.contains(e) {
            let j = choose|j: int| 0 <= j < head.len() && head[j] == e;
            assert(order[j] == e);
        }
    }
    let next = now.insert(e, f(e, before[e]));
    assert(next.dom() =~= before.dom());
    assert forall|k: legion::Entity| #[trigger] before.dom().contains(k) implies next[k] == (if order.take(
        i + 1,
    ).contains(k) {
        f(k, before[k])
    } else {
        before[k]
    }) by {
        if k == e {
            assert(more[i] == e);
        } else {
            if head.contains(k) {
                let j = choose|j: int| 0 <= j < head.len() && head[j] == k;
                assert(more[j] == k);
            }
            if more.contains(k) {
                let j = choose|j: int| 0 <= j < more.len() && more[j] == k;
                assert(j < i);
                assert(head[j] == k);
            }
        }
    }
}

/// Before any key is done, a map is `updated_on` itself; once all are done,
/// it holds the image of every value.
pub proof fn lemma_update_ends<V>(
    now: Map<legion::Entity, V>,
    before: Map<legion::Entity, V>,
    order: Seq<legion::Entity>,
    f: spec_fn(legion::Entity, V) -> V,
)
    requires
        lists_keys(order, before),
    ensures
        updated_on(before, before, order.take(0), f),
        updated_on(now, before, order.take(order.len() as int), f) ==> (forall|e: legion::Entity| #[trigger]
            before.dom().contains(e) ==> now[e] == f(e, before[e])),
{
    assert(order.take(order.len() as int) =~= order);
}

/// `legion::Entity`'s `==`: two identifiers are equal exactly if they name the same entity.
#[verifier::external_body]
pub(crate) fn same_entity(a: legion::Entity, b: legion::Entity) -> (same: bool)
    ensures
        same == (a == b),
{
    a == b
}

/// A query for `(Entity, &Vehicle)`, run with `Query::iter` and collected:
/// it visits every entity that carries a `Vehicle` once, in the world's own order.
#[verifier::external_body]
pub(crate) fn vehicle_ids(world: &legion::World) -> (ids: Vec<legion::Entity>)
    ensures
        ids@ == vehicle_order(*world),
        lists_keys(ids@, vehicles_of(*world)),
{
    <(legion::Entity, &Vehicle)>::query().iter(world).map(|(id, _)| *id).collect()
}

/// A query for `(Entity, &Projectile)`, run with `Query::iter` and collected:
/// it visits every entity that carries a `Projectile` once, in the world's own order.
#[verifier::external_body]
pub(crate) fn projectile_ids(world: &legion::World) -> (ids: Vec<legion::Entity>)
    ensures
        ids@ == projectile_order(*world),
        lists_keys(ids@, projectiles_of(*world)),
{
    <(legion::Entity, &Projectile)>::query().iter(world).map(|(id, _)| *id).collect()
}

/// `EntityStore::entry_ref` and `EntryRef::get_component`: a copy of the
/// entity's `Vehicle`, or nothing if the world has no such entity or the
/// entity carries no `Vehicle`.
#[verifier::external_body]
pub(crate) fn read_vehicle(world: &legion::World, id: legion::Entity) -> (found: Option<Vehicle>)
    ensures
        found == lookup(vehicles_of(*world), id),
{
    match world.entry_ref(id) {
        Ok(entry) => match entry.get_component::<Vehicle>() {
            Ok(vehicle) => Some(*vehicle),
            Err(_) => None,
        },
        Err(_) => None,
    }
}

/// `EntityStore::entry_ref` and `EntryRef::get_component`: a copy of the
/// entity's `Projectile`, or nothing if the world has no such entity or the
/// entity carries no `Projectile`.
#[verifier::external_body]
pub(crate) fn read_projectile(world: &legion::World, id: legion::Entity) -> (found: Option<
    Projectile,
>)
    ensures
        found == lookup(projectiles_of(*world), id),
{
    match world.entry_ref(id) {
        Ok(entry) => match entry.get_component::<Projectile>() {
            Ok(projectile) => Some(*projectile),
            Err(_) => None,
        },
        Err(_) => None,
    }
}

/// `World::entry` and `Entry::get_component_mut`: overwrites the entity's
/// `Vehicle` in place and says whether there was one to overwrite. Nothing
/// else in the world changes, and the world is the same world as before.
#[verifier::external_body]
pub(crate) fn write_vehicle(world: &mut legion::World, id: legion::Entity, vehicle: Vehicle) -> (written: bool)
    ensures
        written == vehicles_of(*old(world)).dom().contains(id),
        written ==> vehicles_of(*final(world)) == vehicles_of(*old(world)).insert(id, vehicle),
        !written ==> vehicles_of(*final(world)) == vehicles_of(*old(world)),
        projectiles_of(*final(world)) == projectiles_of(*old(world)),
        identity(*final(world)) == identity(*old(world)),
{
    match world.entry(id) {
        Some(mut entry) => match entry.get_component_mut::<Vehicle>() {
            Ok(slot) => {
                *slot = vehicle;
                true
            },
            Err(_) => false,
        },
        None => false,
    }
}

/// `World::entry` and `Entry::get_component_mut`: overwrites the entity's
/// `Projectile` in place and says whether there was one to overwrite. Nothing
/// else in the world changes.
#[verifier::external_body]
pub(crate) fn write_projectile(
    world: &mut legion::World,
    id: legion::Entity,
    projectile: Projectile,
) -> (written: bool)
    ensures
        written == projectiles_of(*old(world)).dom().contains(id),
        written ==> projectiles_of(*final(world)) == projectiles_of(*old(world)).insert(id, projectile),
        !written ==> projectiles_of(*final(world)) == projectiles_of(*old(world)),
        vehicles_of(*final(world)) == vehicles_of(*old(world)),
{
    match world.entry(id) {
        Some(mut entry) => match entry.get_component_mut::<Projectile>() {
            Ok(slot) => {
                *slot = projectile;
                true
            },
            Err(_) => false,
        },
        None => false,
    }
}

/// `CommandBuffer::new`: an empty buffer for the given world.
#[verifier::external_body]
pub(crate) fn new_buffer(world: &legion::World) -> (cmds: legion::systems::CommandBuffer)
    ensures
        queued(cmds) == Seq::<(legion::Entity, Projectile)>::empty(),
        holds_rounds_only(cmds),
        parent(cmds) == identity(*world),
{
    legion::systems::CommandBuffer::new(world)
}

/// `CommandBuffer::push` with a `Projectile` as the only component: the
/// projectile waits behind those that wait already, under the identifier
/// that is returned. The buffer stays with its world.
#[verifier::external_body]
pub(crate) fn queue_projectile(cmds: &mut legion::systems::CommandBuffer, projectile: Projectile) -> (id:
    legion::Entity)
    ensures
        queued(*final(cmds)) == queued(*old(cmds)).push((id, projectile)),
        holds_rounds_only(*final(cmds)) == holds_rounds_only(*old(cmds)),
        parent(*final(cmds)) == parent(*old(cmds)),
{
    cmds.push((projectile,))
}

/// `CommandBuffer::flush`, which panics for any world but the one that the
/// buffer was made for: what waited enters the world in the order in which
/// it was queued, and the buffer is empty. Like those of `World::push`, the
/// identifiers were drawn from the counter that all worlds and buffers of
/// the process share, so each of them is new to the world and none occurs
/// twice. Nothing else in the world changes.
#[verifier::external_body]
pub(crate) fn flush_into(cmds: &mut legion::systems::CommandBuffer, world: &mut legion::World)
    requires
        parent(*old(cmds)) == identity(*old(world)),
        holds_rounds_only(*old(cmds)),
    ensures
        rounds_landed(
            projectiles_of(*old(world)),
            projectiles_of(*final(world)),
            waiting_ids(queued(*old(cmds))),
            waiting_rounds(queued(*old(cmds))),
        ),
        vehicles_of(*final(world)) == vehicles_of(*old(world)),
        identity(*final(world)) == identity(*old(world)),
        queued(*final(cmds)) == Seq::<(legion::Entity, Projectile)>::empty(),
        holds_rounds_only(*final(cmds)),
        parent(*final(cmds)) == parent(*old(cmds)),
{
    cmds.flush(world)
}

/// `World::remove`: takes the entity with all it carries out of the world
/// and says whether the world held it. Nothing else in the world changes.
#[verifier::external_body]
pub(crate) fn remove_entity(world: &mut legion::World, id: legion::Entity) -> (removed: bool)
    ensures
        projectiles_of(*final(world)) == projectiles_of(*old(world)).remove(id),
        vehicles_of(*final(world)) == vehicles_of(*old(world)).remove(id),
{
    world.remove(id)
}

/// Two listings of the keys of maps with the same keys are equally long.
pub proof fn listings_are_equally_long<V>(
    first: Seq<legion::Entity>,
    second: Seq<legion::Entity>,
    m: Map<legion::Entity, V>,
    n: Map<legion::Entity, V>,
)
    requires
        lists_keys(first, m),
        lists_keys(second, n),
        m.dom() == n.dom(),
    ensures
        first.len() == second.len(),
{
    first.unique_seq_to_set();
    second.unique_seq_to_set();
    assert(first.to_set() =~= second.to_set());
}

/// The vehicles of a world in the order in which a query visits them: every
/// entity that is a vehicle, once.
pub fn list_vehicles(world: &legion::World) -> (ids: Vec<legion::Entity>)
    ensures
        ids@ == vehicle_order(*world),
        lists_keys(vehicle_order(*world), vehicles_of(*world)),
{
    vehicle_ids(world)
}

/// The projectiles of a world in the order in which a query visits them:
/// every entity that is a projectile, once.
pub fn list_projectiles(world: &legion::World) -> (ids: Vec<legion::Entity>)
    ensures
        ids@ == projectile_order(*world),
        lists_keys(projectile_order(*world), projectiles_of(*world)),
{
    projectile_ids(world)
}

/// Takes every entity on the list out of the world, with all it carries.
pub fn remove_all(world: &mut legion::World, doomed: &Vec<legion::Entity>)
    ensures
        projectiles_of(*final(world)) == projectiles_of(*old(world)).remove_keys(doomed@.to_set()),
        vehicles_of(*final(world)) == vehicles_of(*old(world)).remove_keys(doomed@.to_set()),
{
    let mut j: usize = 0;
    proof {
        assert(doomed@.take(0).to_set() =~= Set::<legion::Entity>::empty());
        assert(projectiles_of(*world).remove_keys(Set::<legion::Entity>::empty()) =~= projectiles_of(*world));
        assert(vehicles_of(*world).remove_keys(Set::<legion::Entity>::empty()) =~= vehicles_of(*world));
    }
    while j < doomed.len()
        invariant
            0 <= j <= doomed.len(),
            projectiles_of(*world) == projectiles_of(*old(world)).remove_keys(
                doomed@.take(j as int).to_set(),
            ),
            vehicles_of(*world) == vehicles_of(*old(world)).remove_keys(doomed@.take(j as int).to_set()),
        decreases doomed.len() - j,
    {
        let id = doomed[j];
        remove_entity(world, id);
        proof {
            let done = doomed@.take(j as int).to_set();
            let more = doomed@.take(j + 1).to_set();
            assert(doomed@.take(j + 1) =~= doomed@.take(j as int).push(id));
            assert(more =~= done.insert(id)) by {
                assert forall|e: legion::Entity| more.contains(e) <==> done.insert(id).contains(e) by {
                    if doomed@.take(j as int).push(id).contains(e) {
                        let k = choose|k: int|
                            0 <= k < doomed@.take(j as int).push(id).len() && doomed@.take(
                                j as int,
                            ).push(id)[k] == e;
                        if k < j {
                            assert(doomed@.take(j as int)[k] == e);
                        }
                    }
                    if done.contains(e) {
                        let k = choose|k: int|
                            0 <= k < doomed@.take(j as int).len() && doomed@.take(j as int)[k] == e;
                        assert(doomed@.take(j as int).push(id)[k] == e);
                    }
                    if e == id {
                        assert(doomed@.take(j as int).push(id)[j as int] == e);
                    }
                }
            }
            assert(projectiles_of(*old(world)).remove_keys(done).remove(id) =~= projectiles_of(
                *old(world),
            ).remove_keys(more));
            assert(vehicles_of(*old(world)).remove_keys(done).remove(id) =~= vehicles_of(
                *old(world),
            ).remove_keys(more));
        }
        j += 1;
    }
    proof {
        assert(doomed@.take(doomed.len() as int) =~= doomed@);
    }
}

} // verus!
