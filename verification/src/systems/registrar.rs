//! The registrar gives every hitbox its handle in the spatial index and
//! keeps the handle map, which says for each handle whose shape it is.
//!
//! The spatial index itself lives with the caller. The registrar says which
//! hitboxes still wait for a handle, and records the handle that the index
//! gave for one of them.

use vstd::prelude::*;
use std::collections::HashMap;
use crate::components::{BoxShape, CollisionHandle, Components, Hitbox};
use crate::world::{collect, entity_of, is_live, lemma_collect_step, Entity, Record, World};

verus! {

/// For each handle of the spatial index, the entity whose shape it names.
pub type HandleMap = HashMap<CollisionHandle, Entity>;

/// Whether `e` holds a hitbox that has no handle yet.
pub open spec fn awaits_handle<S>(records: Seq<Record<S>>, e: Entity) -> bool {
    &&& is_live(records, e)
    &&& records[e.index as int].components.hitbox matches Some(hitbox)
    &&& hitbox.slap_handle is None
}

/// The entities whose hitbox has no handle yet, each with its shape, in the
/// order of the slots.
pub open spec fn unregistered<S>(records: Seq<Record<S>>) -> Seq<(Entity, BoxShape<S>)> {
    collect(
        records,
        |e: Entity, r: Record<S>|
            match r.components.hitbox {
                Some(hitbox) => if hitbox.slap_handle is None {
                    Some((e, hitbox.shape))
                } else {
                    None
                },
                None => None,
            },
    )
}

/// `records` with `handle` noted on the hitbox of `e`.
pub open spec fn with_handle<S>(
    records: Seq<Record<S>>,
    e: Entity,
    handle: CollisionHandle,
) -> Seq<Record<S>>
    recommends
        awaits_handle(records, e),
{
    let record = records[e.index as int];
    let hitbox = record.components.hitbox->Some_0;
    records.update(
        e.index as int,
        Record {
            components: Components {
                hitbox: Some(Hitbox { slap_handle: Some(handle), ..hitbox }),
                ..record.components
            },
            ..record
        },
    )
}

/// The handle map and the hitboxes agree: every handle of the map names an
/// entity whose hitbox carries that handle, and every handle on a hitbox is
/// in the map under its entity.
pub open spec fn registry_consistent<S>(
    records: Seq<Record<S>>,
    map: Map<CollisionHandle, Entity>,
) -> bool {
    &&& forall|h: CollisionHandle| #[trigger]
        map.contains_key(h) ==> {
            &&& is_live(records, map[h])
            &&& records[map[h].index as int].components.hitbox matches Some(hitbox)
            &&& hitbox.slap_handle == Some(h)
        }
    &&& forall|i: int|
        0 <= i < records.len() ==> match (#[trigger] records[i]).components.hitbox {
            Some(hitbox) => match hitbox.slap_handle {
                Some(h) => map.contains_key(h) && map[h] == entity_of(records, i),
                None => true,
            },
            None => true,
        }
}

/// The handle that the spatial index gave is already in the handle map, under
/// `holder`. This cannot happen while the handle map and the index agree, and
/// there is no way to go on from it.
#[derive(Clone, Copy, Debug, PartialEq, Eq)]
pub struct HandleTaken {
    pub handle: CollisionHandle,
    pub holder: Entity,
}

impl HandleTaken {
    /// What went wrong, in words.
    pub fn message(&self) -> (text: &'static str)
        ensures
            text@ == "entries in the entity collision handle map should logically not be swapped"@,
    {
        "entries in the entity collision handle map should logically not be swapped"
    }
}

/// The entities whose hitbox has no handle yet, each with the shape to
/// register.
pub fn unregistered_hitboxes<S: Copy>(world: &World<S>) -> (pending: Vec<(Entity, BoxShape<S>)>)
    requires
        world.wf(),
    ensures
        pending@ == unregistered(world@),
{
    let mut pending: Vec<(Entity, BoxShape<S>)> = Vec::new();
    let n = world.len();
    let mut i: usize = 0;
    assert(world@.take(0) =~= Seq::<Record<S>>::empty());
    while i < n
        invariant
            world.wf(),
            n == world@.len(),
            i <= n,
            pending@ == unregistered(world@.take(i as int)),
        decreases n - i,
    {
        let e = world.entity_at(i);
        proof {
            lemma_collect_step(
                world@,
                |e: Entity, r: Record<S>|
                    match r.components.hitbox {
                        Some(hitbox) => if hitbox.slap_handle is None {
                            Some((e, hitbox.shape))
                        } else {
                            None
                        },
                        None => None,
                    },
                i as int,
            );
        }
        match world.hitbox(e) {
            Some(hitbox) => {
                if hitbox.slap_handle.is_none() {
                    pending.push((e, hitbox.shape));
                }
            },
            None => {},
        }
        i += 1;
    }
    assert(world@.take(n as int) =~= world@);
    pending
}

/// Records that the spatial index knows the hitbox of `entity` under
/// `handle`: the handle is noted on the hitbox and entered in the handle map.
///
/// Where `entity` has no hitbox, or one that has its handle already, nothing
/// changes. Where the hitbox waits for a handle and `handle` is already in
/// the map, nothing changes either, and the entry that is in the way comes
/// back as the error.
pub fn map_entity_collision_handle<S: Copy>(
    world: &mut World<S>,
    map: &mut HandleMap,
    entity: Entity,
    handle: CollisionHandle,
) -> (done: Result<(), HandleTaken>)
    requires
        old(world).wf(),
    ensures
        final(world).wf(),
        done is Err <==> awaits_handle(old(world)@, entity) && old(map)@.contains_key(handle),
        match done {
            Ok(_) => if awaits_handle(old(world)@, entity) {
                &&& final(world)@ == with_handle(old(world)@, entity, handle)
                &&& final(map)@ == old(map)@.insert(handle, entity)
            } else {
                &&& final(world)@ == old(world)@
                &&& final(map)@ == old(map)@
            },
            Err(taken) => {
                &&& taken == (HandleTaken { handle, holder: old(map)@[handle] })
                &&& final(world)@ == old(world)@
                &&& final(map)@ == old(map)@
            },
        },
        registry_consistent(old(world)@, old(map)@) ==> registry_consistent(
            final(world)@,
            final(map)@,
        ),
{
    let waiting = match world.hitbox(entity) {
        Some(hitbox) => hitbox.slap_handle.is_none(),
        None => false,
    };
    if !waiting {
        return Ok(());
    }
    match map.get(&handle) {
        Some(holder) => {
            return Err(HandleTaken { handle, holder: *holder });
        },
        None => {},
    }
    match world.hitbox_mut(entity) {
        Some(hitbox) => {
            hitbox.slap_handle = Some(handle);
        },
        None => {},
    }
    map.insert(handle, entity);
    proof {
        assert(world@ =~= with_handle(old(world)@, entity, handle));
        if registry_consistent(old(world)@, old(map)@) {
            lemma_registration_keeps_consistency(old(world)@, old(map)@, entity, handle);
        }
    }
    Ok(())
}

/// Registering a waiting hitbox under a handle that the map does not hold
/// yet keeps the handle map and the hitboxes in agreement.
pub proof fn lemma_registration_keeps_consistency<S>(
    records: Seq<Record<S>>,
    map: Map<CollisionHandle, Entity>,
    e: Entity,
    handle: CollisionHandle,
)
    requires
        registry_consistent(records, map),
        awaits_handle(records, e),
        !map.contains_key(handle),
    ensures
        registry_consistent(with_handle(records, e, handle), map.insert(handle, e)),
{
    let after = with_handle(records, e, handle);
    let entries = map.insert(handle, e);
    assert forall|h: CollisionHandle| #[trigger] entries.contains_key(h) implies {
        &&& is_live(after, entries[h])
        &&& after[entries[h].index as int].components.hitbox matches Some(hitbox)
        &&& hitbox.slap_handle == Some(h)
    } by {
        if h != handle {
            assert(map.contains_key(h));
            assert(map[h] != e);
        }
    }
    assert forall|i: int| 0 <= i < after.len() implies match (#[trigger] after[i]).components
        .hitbox {
        Some(hitbox) => match hitbox.slap_handle {
            Some(h) => entries.contains_key(h) && entries[h] == entity_of(after, i),
            None => true,
        },
        None => true,
    } by {
        if i != e.index {
            assert(after[i] == records[i]);
        }
    }
}

/// While the handle map and the hitboxes agree, handles and registered
/// entities stand in a one-to-one relation: two handles never name the same
/// entity, and the handle on an entity's hitbox is the one handle that names
/// it.
pub proof fn lemma_registry_is_one_to_one<S>(
    records: Seq<Record<S>>,
    map: Map<CollisionHandle, Entity>,
    h1: CollisionHandle,
    h2: CollisionHandle,
)
    requires
        registry_consistent(records, map),
        map.contains_key(h1),
        map.contains_key(h2),
        map[h1] == map[h2],
    ensures
        h1 == h2,
        records[map[h1].index as int].components.hitbox->Some_0.slap_handle == Some(h1),
{
}

/// Once a hitbox has its handle it waits no longer, and no other hitbox is
/// touched: running the registrar again finds nothing to do for it.
pub proof fn lemma_registered_waits_no_longer<S>(
    records: Seq<Record<S>>,
    e: Entity,
    handle: CollisionHandle,
    other: Entity,
)
    requires
        awaits_handle(records, e),
    ensures
        !awaits_handle(with_handle(records, e, handle), e),
        other.index != e.index ==> awaits_handle(with_handle(records, e, handle), other)
            == awaits_handle(records, other),
{
}

/// A store in which no hitbox has a handle agrees with the empty handle map.
pub proof fn lemma_nothing_registered_is_consistent<S>(records: Seq<Record<S>>)
    requires
        forall|i: int|
            0 <= i < records.len() ==> match (#[trigger] records[i]).components.hitbox {
                Some(hitbox) => hitbox.slap_handle is None,
                None => true,
            },
    ensures
        registry_consistent(records, Map::<CollisionHandle, Entity>::empty()),
{
}

/// A new entity whose hitbox, if it has one, has no handle yet leaves the
/// handle map and the hitboxes in agreement.
pub proof fn lemma_newcomer_keeps_consistency<S>(
    records: Seq<Record<S>>,
    map: Map<CollisionHandle, Entity>,
    newcomer: Record<S>,
)
    requires
        registry_consistent(records, map),
        match newcomer.components.hitbox {
            Some(hitbox) => hitbox.slap_handle is None,
            None => true,
        },
    ensures
        registry_consistent(records.push(newcomer), map),
{
    let after = records.push(newcomer);
    assert forall|h: CollisionHandle| #[trigger] map.contains_key(h) implies {
        &&& is_live(after, map[h])
        &&& after[map[h].index as int].components.hitbox matches Some(hitbox)
        &&& hitbox.slap_handle == Some(h)
    } by {
        assert(after[map[h].index as int] == records[map[h].index as int]);
    }
    assert forall|i: int| 0 <= i < after.len() implies match (#[trigger] after[i]).components
        .hitbox {
        Some(hitbox) => match hitbox.slap_handle {
            Some(h) => map.contains_key(h) && map[h] == entity_of(after, i),
            None => true,
        },
        None => true,
    } by {
        if i < records.len() {
            assert(after[i] == records[i]);
        }
    }
}

/// Whether two stores hold the same entities with the same hitboxes.
pub open spec fn same_hitboxes<S>(a: Seq<Record<S>>, b: Seq<Record<S>>) -> bool {
    &&& a.len() == b.len()
    &&& forall|i: int|
        0 <= i < a.len() ==> (#[trigger] a[i]).generation == b[i].generation
            && a[i].components.hitbox == b[i].components.hitbox
}

/// Whether the handle map and the hitboxes agree depends on the entities and
/// their hitboxes alone: whatever else changes in the store, they go on
/// agreeing.
pub proof fn lemma_consistency_rests_on_hitboxes<S>(
    before: Seq<Record<S>>,
    after: Seq<Record<S>>,
    map: Map<CollisionHandle, Entity>,
)
    requires
        registry_consistent(before, map),
        same_hitboxes(before, after),
    ensures
        registry_consistent(after, map),
{
    assert forall|h: CollisionHandle| #[trigger] map.contains_key(h) implies {
        &&& is_live(after, map[h])
        &&& after[map[h].index as int].components.hitbox matches Some(hitbox)
        &&& hitbox.slap_handle == Some(h)
    } by {
        assert(before[map[h].index as int].generation == after[map[h].index as int].generation);
    }
    assert forall|i: int| 0 <= i < after.len() implies match (#[trigger] after[i]).components
        .hitbox {
        Some(hitbox) => match hitbox.slap_handle {
            Some(h) => map.contains_key(h) && map[h] == entity_of(after, i),
            None => true,
        },
        None => true,
    } by {
        assert(before[i].components.hitbox == after[i].components.hitbox);
    }
}

} // verus!
