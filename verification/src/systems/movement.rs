//! The movement step: every entity that has a velocity moves along its
//! heading.

use vstd::prelude::*;
use crate::components::{CollisionHandle, Components, Transformation, Vec2, Velocity};
use crate::systems::registrar::{lemma_consistency_rests_on_hitboxes, registry_consistent};
use crate::world::{Entity, Record, World};

verus! {

/// Whether `after` is `from` moved by `speed` along one axis, where `turn`
/// gives that axis' share of the heading `angle`: `after` is a sum of `from`
/// and a product of `turn(angle)` and `speed`.
pub open spec fn stepped<S, T: Fn(S) -> S, M: Fn(S, S) -> S, A: Fn(S, S) -> S>(
    turn: T,
    times: M,
    plus: A,
    from: S,
    angle: S,
    speed: S,
    after: S,
) -> bool {
    exists|share: S, by: S|
        {
            &&& turn.ensures((angle,), share)
            &&& #[trigger] times.ensures((share, speed), by)
            &&& plus.ensures((from, by), after)
        }
}

/// Whether `after` is `before` advanced by one step at velocity `v`: the
/// location has moved by the velocity times (cos, sin) of the rotation, and
/// scale and rotation are as they were.
pub open spec fn advanced<
    S,
    C: Fn(S) -> S,
    N: Fn(S) -> S,
    M: Fn(S, S) -> S,
    A: Fn(S, S) -> S,
>(
    cos: C,
    sin: N,
    times: M,
    plus: A,
    before: Transformation<S>,
    v: Velocity<S>,
    after: Transformation<S>,
) -> bool {
    &&& stepped(cos, times, plus, before.location.x, before.rotation, v.velocity, after.location.x)
    &&& stepped(sin, times, plus, before.location.y, before.rotation, v.velocity, after.location.y)
    &&& after.scale == before.scale
    &&& after.rotation == before.rotation
}

/// What the movement step does to one entity: one that has both a velocity
/// and a transformation is advanced, and nothing else about it changes; any
/// other entity stays as it is.
pub open spec fn moved<S, C: Fn(S) -> S, N: Fn(S) -> S, M: Fn(S, S) -> S, A: Fn(S, S) -> S>(
    cos: C,
    sin: N,
    times: M,
    plus: A,
    before: Record<S>,
    after: Record<S>,
) -> bool {
    match (before.components.velocity, before.components.transformation) {
        (Some(v), Some(t)) => {
            &&& after.components.transformation matches Some(moved_to)
            &&& advanced(cos, sin, times, plus, t, v, moved_to)
            &&& after == (Record {
                components: Components { transformation: Some(moved_to), ..before.components },
                ..before
            })
        },
        _ => after == before,
    }
}

/// Advances every entity that has both a velocity and a transformation by
/// one step: its new location is its old one plus the velocity times
/// (cos, sin) of its rotation. Entities that lack either stay untouched.
///
/// `cos`, `sin`, `times` and `plus` are the arithmetic of the scalar type. The
/// product is taken as `times(cos(rotation), velocity)` and the sum as
/// `plus(location, product)`, coordinate by coordinate.
pub fn do_movement<S: Copy, C: Fn(S) -> S, N: Fn(S) -> S, M: Fn(S, S) -> S, A: Fn(S, S) -> S>(
    world: &mut World<S>,
    cos: C,
    sin: N,
    times: M,
    plus: A,
)
    requires
        old(world).wf(),
        forall|a: S| cos.requires((a,)),
        forall|a: S| sin.requires((a,)),
        forall|a: S, b: S| times.requires((a, b)),
        forall|a: S, b: S| plus.requires((a, b)),
    ensures
        final(world).wf(),
        final(world)@.len() == old(world)@.len(),
        forall|i: int|
            0 <= i < old(world)@.len() ==> moved(
                cos,
                sin,
                times,
                plus,
                old(world)@[i],
                #[trigger] final(world)@[i],
            ),
{
    let n = world.len();
    let mut i: usize = 0;
    while i < n
        invariant
            world.wf(),
            n == old(world)@.len(),
            world@.len() == n,
            i <= n,
            forall|a: S| cos.requires((a,)),
            forall|a: S| sin.requires((a,)),
            forall|a: S, b: S| times.requires((a, b)),
            forall|a: S, b: S| plus.requires((a, b)),
            forall|k: int|
                0 <= k < i ==> moved(cos, sin, times, plus, old(world)@[k], #[trigger] world@[k]),
            forall|k: int| i <= k < n ==> old(world)@[k] == #[trigger] world@[k],
        decreases n - i,
    {
        let e = world.entity_at(i);
        let speed = match world.velocity(e) {
            Some(v) => Some(v.velocity),
            None => None,
        };
        let ghost before = world@;
        match speed {
            Some(speed) => {
                match world.transformation_mut(e) {
                    Some(t) => {
                        let dx = times(cos(t.rotation), speed);
                        let dy = times(sin(t.rotation), speed);
                        let target = Vec2 { x: plus(t.location.x, dx), y: plus(t.location.y, dy) };
                        t.location = target;
                    },
                    None => {},
                }
            },
            None => {},
        }
        proof {
            assert(forall|k: int| 0 <= k < n && k != i ==> world@[k] == before[k]);
            assert(moved(cos, sin, times, plus, old(world)@[i as int], world@[i as int]));
        }
        i += 1;
    }
}

/// The movement step keeps the handle map and the hitboxes in agreement: it
/// touches no hitbox.
pub proof fn lemma_movement_keeps_registry<
    S,
    C: Fn(S) -> S,
    N: Fn(S) -> S,
    M: Fn(S, S) -> S,
    A: Fn(S, S) -> S,
>(
    cos: C,
    sin: N,
    times: M,
    plus: A,
    before: Seq<Record<S>>,
    after: Seq<Record<S>>,
    map: Map<CollisionHandle, Entity>,
)
    requires
        after.len() == before.len(),
        forall|i: int|
            0 <= i < before.len() ==> moved(cos, sin, times, plus, before[i], #[trigger] after[i]),
        registry_consistent(before, map),
    ensures
        registry_consistent(after, map),
{
    assert forall|i: int| 0 <= i < before.len() implies (#[trigger] before[i]).generation
        == after[i].generation && before[i].components.hitbox == after[i].components.hitbox by {
        assert(moved(cos, sin, times, plus, before[i], after[i]));
    }
    lemma_consistency_rests_on_hitboxes(before, after, map);
}

} // verus!
