//! The collision detector. Each tick it tells the spatial index where every
//! registered shape now is, and publishes the pairs of entities that the
//! index then finds in proximity.
//!
//! The spatial index itself lives with the caller: the detector says which
//! poses to set, and turns the pairs of handles that come back into pairs of
//! entities.

use vstd::prelude::*;
use crate::components::{CollisionHandle, Vec2};
use crate::systems::registrar::{registry_consistent, HandleMap};
use crate::world::{
    collect, entity_of, is_live, lemma_collect_item, lemma_collect_step, Entity, Record, World,
};

verus! {

/// Where the shape behind `handle` is to stand. The scale of an entity has
/// no part in it: shapes do not grow or shrink.
#[derive(Clone, Copy, Debug, PartialEq)]
pub struct Pose<S> {
    pub handle: CollisionHandle,
    pub location: Vec2<S>,
    pub rotation: S,
}

/// The pose of every entity that has a transformation and a hitbox with a
/// handle, in the order of the slots.
pub open spec fn poses<S>(records: Seq<Record<S>>) -> Seq<Pose<S>> {
    collect(
        records,
        |e: Entity, r: Record<S>|
            match (r.components.transformation, r.components.hitbox) {
                (Some(t), Some(hitbox)) => match hitbox.slap_handle {
                    Some(handle) => Some(
                        Pose { handle, location: t.location, rotation: t.rotation },
                    ),
                    None => None,
                },
                _ => None,
            },
    )
}

/// The poses to set in the spatial index before it looks for pairs: for
/// every entity with a transformation and a registered hitbox, its current
/// location and rotation under the hitbox' handle.
pub fn collision_poses<S: Copy>(world: &World<S>) -> (out: Vec<Pose<S>>)
    requires
        world.wf(),
    ensures
        out@ == poses(world@),
{
    let mut out: Vec<Pose<S>> = Vec::new();
    let n = world.len();
    let mut i: usize = 0;
    assert(world@.take(0) =~= Seq::<Record<S>>::empty());
    while i < n
        invariant
            world.wf(),
            n == world@.len(),
            i <= n,
            out@ == poses(world@.take(i as int)),
        decreases n - i,
    {
        let e = world.entity_at(i);
        proof {
            lemma_collect_step(
                world@,
                |e: Entity, r: Record<S>|
                    match (r.components.transformation, r.components.hitbox) {
                        (Some(t), Some(hitbox)) => match hitbox.slap_handle {
                            Some(handle) => Some(
                                Pose { handle, location: t.location, rotation: t.rotation },
                            ),
                            None => None,
                        },
                        _ => None,
                    },
                i as int,
            );
        }
        match (world.transformation(e), world.hitbox(e)) {
            (Some(t), Some(hitbox)) => {
                match hitbox.slap_handle {
                    Some(handle) => {
                        out.push(Pose { handle, location: t.location, rotation: t.rotation });
                    },
                    None => {},
                }
            },
            _ => {},
        }
        i += 1;
    }
    assert(world@.take(n as int) =~= world@);
    out
}

/// While the handle map and the hitboxes agree, every pose is that of a
/// registered shape: its handle is in the handle map, under an entity that
/// stands at that location with that rotation.
pub proof fn lemma_poses_are_registered<S>(
    records: Seq<Record<S>>,
    map: Map<CollisionHandle, Entity>,
    k: int,
)
    requires
        registry_consistent(records, map),
        records.len() <= usize::MAX,
        0 <= k < poses(records).len(),
    ensures
        map.contains_key(poses(records)[k].handle),
        is_live(records, map[poses(records)[k].handle]),
        ({
            let pose = poses(records)[k];
            let record = records[map[pose.handle].index as int];
            &&& record.components.transformation matches Some(t)
            &&& t.location == pose.location
            &&& t.rotation == pose.rotation
        }),
{
    let pick = |e: Entity, r: Record<S>|
        match (r.components.transformation, r.components.hitbox) {
            (Some(t), Some(hitbox)) => match hitbox.slap_handle {
                Some(handle) => Some(Pose { handle, location: t.location, rotation: t.rotation }),
                None => None,
            },
            _ => None,
        };
    lemma_collect_item(records, pick, k);
    let i = choose|i: int|
        0 <= i < records.len() && #[trigger] pick(entity_of(records, i), records[i]) == Some(
            collect(records, pick)[k],
        );
    assert(records[i].components.hitbox is Some);
    assert(map[poses(records)[k].handle] == entity_of(records, i));
}

/// Whether the handle map knows both handles of every pair.
pub open spec fn all_known(
    map: Map<CollisionHandle, Entity>,
    pairs: Seq<(CollisionHandle, CollisionHandle)>,
) -> bool {
    forall|k: int|
        0 <= k < pairs.len() ==> map.contains_key((#[trigger] pairs[k]).0) && map.contains_key(
            pairs[k].1,
        )
}

/// The pairs of handles, each handle replaced by the entity that the handle
/// map gives for it.
pub open spec fn resolved(
    map: Map<CollisionHandle, Entity>,
    pairs: Seq<(CollisionHandle, CollisionHandle)>,
) -> Seq<Seq<Entity>> {
    Seq::new(pairs.len(), |k: int| seq![map[pairs[k].0], map[pairs[k].1]])
}

/// The pairs of a list, each as the sequence of its two entities.
pub open spec fn pairs_of(colliders: Seq<[Entity; 2]>) -> Seq<Seq<Entity>> {
    Seq::new(colliders.len(), |k: int| colliders[k]@)
}

/// Whether the handle map knows both handles of every pair.
pub fn knows_all(
    map: &HandleMap,
    proximity: &Vec<(CollisionHandle, CollisionHandle)>,
) -> (known: bool)
    ensures
        known == all_known(map@, proximity@),
{
    let n = proximity.len();
    let mut i: usize = 0;
    while i < n
        invariant
            n == proximity@.len(),
            i <= n,
            all_known(map@, proximity@.take(i as int)),
        decreases n - i,
    {
        let (first, second) = proximity[i];
        if !map.contains_key(&first) || !map.contains_key(&second) {
            return false;
        }
        assert forall|k: int| 0 <= k < i + 1 implies map@.contains_key(
            (#[trigger] proximity@.take(i + 1)[k]).0,
        ) && map@.contains_key(proximity@.take(i + 1)[k].1) by {
            if k < i {
                assert(proximity@.take(i + 1)[k] == proximity@.take(i as int)[k]);
            }
        }
        i += 1;
    }
    assert(proximity@.take(n as int) =~= proximity@);
    true
}

/// Publishes this tick's colliding pairs: `colliders` is emptied and then
/// holds, for each pair of handles in proximity and in their order, the two
/// entities that the handle map gives. Nothing of what the list held before
/// stays.
pub fn do_collision(
    map: &HandleMap,
    proximity: &Vec<(CollisionHandle, CollisionHandle)>,
    colliders: &mut Vec<[Entity; 2]>,
)
    requires
        all_known(map@, proximity@),
    ensures
        pairs_of(final(colliders)@) == resolved(map@, proximity@),
{
    colliders.clear();
    let n = proximity.len();
    let mut i: usize = 0;
    while i < n
        invariant
            n == proximity@.len(),
            i <= n,
            all_known(map@, proximity@),
            colliders@.len() == i,
            forall|k: int|
                0 <= k < i ==> (#[trigger] colliders@[k])@ == seq![
                    map@[proximity@[k].0],
                    map@[proximity@[k].1],
                ],
        decreases n - i,
    {
        let (first, second) = proximity[i];
        assert(map@.contains_key(proximity@[i as int].0));
        let a = *map.get(&first).unwrap();
        let b = *map.get(&second).unwrap();
        let pair = [a, b];
        assert(pair@ =~= seq![a, b]);
        colliders.push(pair);
        i += 1;
    }
    assert(pairs_of(colliders@) =~= resolved(map@, proximity@));
}

} // verus!
