//! The collision responder: a ball that meets a barrier turns around.

use vstd::prelude::*;
use crate::components::{
    Ball, Barrier, CollisionHandle, Components, Tag, TagKind, Transformation,
};
use crate::systems::registrar::{
    lemma_consistency_rests_on_hitboxes, registry_consistent, same_hitboxes,
};
use crate::world::{is_tagged, Entity, Record, World};

verus! {

/// The two entities of `pair` in the order (`first`, `second`) of the tags
/// they carry, if they carry them.
///
/// The side that carries `first` is looked for at the pair's first entity
/// before its second. Once it is found, the other side must carry `second`;
/// where it does not, the pair does not match, even if the two would match
/// the other way round.
pub open spec fn sorted_pair<S>(
    records: Seq<Record<S>>,
    pair: Seq<Entity>,
    first: TagKind,
    second: TagKind,
) -> Option<(Entity, Entity)>
    recommends
        pair.len() == 2,
{
    if is_tagged(records, pair[0], first) {
        if is_tagged(records, pair[1], second) {
            Some((pair[0], pair[1]))
        } else {
            None
        }
    } else if is_tagged(records, pair[1], first) {
        if is_tagged(records, pair[0], second) {
            Some((pair[1], pair[0]))
        } else {
            None
        }
    } else {
        None
    }
}

/// Sorts a colliding pair by tag: the entity tagged `T1` first, the one
/// tagged `T2` second. `None` where the pair is not one of a `T1` and a `T2`.
pub fn sort_collision_pair_by_tag<T1: Tag, T2: Tag, S: Copy>(
    world: &World<S>,
    pair: &[Entity; 2],
) -> (sorted: Option<(Entity, Entity)>)
    requires
        world.wf(),
    ensures
        sorted == sorted_pair(world@, pair@, T1::tag(), T2::tag()),
{
    if world.has_tag::<T1>(pair[0]) {
        if world.has_tag::<T2>(pair[1]) {
            Some((pair[0], pair[1]))
        } else {
            None
        }
    } else if world.has_tag::<T1>(pair[1]) {
        if world.has_tag::<T2>(pair[0]) {
            Some((pair[1], pair[0]))
        } else {
            None
        }
    } else {
        None
    }
}

/// The ball of `pair`, if the pair is one of a ball and a barrier.
pub open spec fn ball_of<S>(records: Seq<Record<S>>, pair: Seq<Entity>) -> Option<Entity> {
    match sorted_pair(records, pair, TagKind::Ball, TagKind::Barrier) {
        Some((ball, _)) => Some(ball),
        None => None,
    }
}

/// Whether every ball that meets a barrier in `pairs` has a transformation
/// to turn.
pub open spec fn balls_can_turn<S>(records: Seq<Record<S>>, pairs: Seq<[Entity; 2]>) -> bool {
    forall|k: int|
        0 <= k < pairs.len() ==> match ball_of(records, (#[trigger] pairs[k])@) {
            Some(ball) => records[ball.index as int].components.transformation is Some,
            None => true,
        }
}

/// Whether every ball that meets a barrier in `colliders` has a
/// transformation to turn.
pub fn balls_have_transformations<S: Copy>(
    world: &World<S>,
    colliders: &Vec<[Entity; 2]>,
) -> (ok: bool)
    requires
        world.wf(),
    ensures
        ok == balls_can_turn(world@, colliders@),
{
    let n = colliders.len();
    let mut i: usize = 0;
    while i < n
        invariant
            world.wf(),
            n == colliders@.len(),
            i <= n,
            forall|k: int|
                0 <= k < i ==> match ball_of(world@, (#[trigger] colliders@[k])@) {
                    Some(ball) => world@[ball.index as int].components.transformation is Some,
                    None => true,
                },
        decreases n - i,
    {
        match sort_collision_pair_by_tag::<Ball, Barrier, S>(world, &colliders[i]) {
            Some((ball, _)) => {
                if world.transformation(ball).is_none() {
                    assert(!(match ball_of(world@, colliders@[i as int]@) {
                        Some(ball) => world@[ball.index as int].components.transformation is Some,
                        None => true,
                    }));
                    return false;
                }
            },
            None => {},
        }
        i += 1;
    }
    true
}

/// What the response to one pair does: where the pair is one of a ball and
/// a barrier, the ball's rotation becomes a sum of its rotation and
/// `half_turn`, and nothing else changes; any other pair changes nothing.
pub open spec fn turned<S, A: Fn(S, S) -> S>(
    plus: A,
    half_turn: S,
    before: Seq<Record<S>>,
    pair: Seq<Entity>,
    after: Seq<Record<S>>,
) -> bool {
    match ball_of(before, pair) {
        Some(ball) => {
            let record = before[ball.index as int];
            match record.components.transformation {
                Some(t) => {
                    &&& after.len() == before.len()
                    &&& after[ball.index as int].components.transformation matches Some(now)
                    &&& plus.ensures((t.rotation, half_turn), now.rotation)
                    &&& after == before.update(
                        ball.index as int,
                        Record {
                            components: Components {
                                transformation: Some(
                                    Transformation { rotation: now.rotation, ..t },
                                ),
                                ..record.components
                            },
                            ..record
                        },
                    )
                },
                None => after == before,
            }
        },
        None => after == before,
    }
}

/// Whether `after` comes from `before` by responding to the pairs one after
/// the other, from the first to the last.
pub open spec fn responded<S, A: Fn(S, S) -> S>(
    plus: A,
    half_turn: S,
    before: Seq<Record<S>>,
    pairs: Seq<[Entity; 2]>,
    after: Seq<Record<S>>,
) -> bool
    decreases pairs.len(),
{
    if pairs.len() == 0 {
        after == before
    } else {
        exists|between: Seq<Record<S>>|
            responded(plus, half_turn, before, pairs.drop_last(), between) && #[trigger] turned(
                plus,
                half_turn,
                between,
                pairs.last()@,
                after,
            )
    }
}

/// Whether two stores hold the same entities with the same tags, and a
/// transformation for the same ones.
pub open spec fn same_cast<S>(a: Seq<Record<S>>, b: Seq<Record<S>>) -> bool {
    &&& a.len() == b.len()
    &&& forall|i: int|
        0 <= i < a.len() ==> {
            &&& (#[trigger] a[i]).generation == b[i].generation
            &&& a[i].tags == b[i].tags
            &&& a[i].components.transformation is Some
                == b[i].components.transformation is Some
        }
}

/// A response changes a rotation and nothing else: which entities there
/// are, what they are tagged and which of them has a transformation stays.
pub proof fn lemma_turned_keeps_cast<S, A: Fn(S, S) -> S>(
    plus: A,
    half_turn: S,
    before: Seq<Record<S>>,
    pair: Seq<Entity>,
    after: Seq<Record<S>>,
)
    requires
        turned(plus, half_turn, before, pair, after),
    ensures
        same_cast(before, after),
{
}

/// Responds to this tick's collisions, pair by pair in the order of the
/// list: where a pair is one of a ball and a barrier, `half_turn` is added to
/// the ball's rotation, with no wrap-around. The ball is looked for at the
/// pair's first entity before its second.
///
/// `plus` is the addition of the scalar type.
pub fn handle_ball_barrier_collision<S: Copy, A: Fn(S, S) -> S>(
    world: &mut World<S>,
    colliders: &Vec<[Entity; 2]>,
    plus: A,
    half_turn: S,
)
    requires
        old(world).wf(),
        balls_can_turn(old(world)@, colliders@),
        forall|a: S, b: S| plus.requires((a, b)),
    ensures
        final(world).wf(),
        responded(plus, half_turn, old(world)@, colliders@, final(world)@),
{
    let n = colliders.len();
    let mut i: usize = 0;
    assert(colliders@.take(0) =~= Seq::<[Entity; 2]>::empty());
    while i < n
        invariant
            world.wf(),
            n == colliders@.len(),
            i <= n,
            balls_can_turn(old(world)@, colliders@),
            same_cast(old(world)@, world@),
            forall|a: S, b: S| plus.requires((a, b)),
            responded(plus, half_turn, old(world)@, colliders@.take(i as int), world@),
        decreases n - i,
    {
        let ghost before = world@;
        let ghost pair = colliders@[i as int]@;
        assert(ball_of(before, pair) == ball_of(old(world)@, pair));
        match sort_collision_pair_by_tag::<Ball, Barrier, S>(world, &colliders[i]) {
            Some((ball, _)) => {
                match world.transformation_mut(ball) {
                    Some(t) => {
                        t.rotation = plus(t.rotation, half_turn);
                    },
                    None => {},
                }
            },
            None => {},
        }
        proof {
            assert(turned(plus, half_turn, before, pair, world@));
            lemma_turned_keeps_cast(plus, half_turn, before, pair, world@);
            let upto = colliders@.take(i + 1);
            assert(upto.drop_last() =~= colliders@.take(i as int));
            assert(upto.last()@ == pair);
        }
        i += 1;
    }
    assert(colliders@.take(n as int) =~= colliders@);
}

/// A ball and a barrier are recognised in either order: whichever of the two
/// stands first in the pair, the ball comes out first. The barrier must not
/// be tagged as a ball too, or it would be taken for the ball where it
/// stands first.
pub proof fn lemma_ball_found_in_either_order<S>(
    records: Seq<Record<S>>,
    ball: Entity,
    barrier: Entity,
)
    requires
        is_tagged(records, ball, TagKind::Ball),
        is_tagged(records, barrier, TagKind::Barrier),
        !is_tagged(records, barrier, TagKind::Ball),
    ensures
        sorted_pair(records, seq![ball, barrier], TagKind::Ball, TagKind::Barrier) == Some(
            (ball, barrier),
        ),
        sorted_pair(records, seq![barrier, ball], TagKind::Ball, TagKind::Barrier) == Some(
            (ball, barrier),
        ),
{
}

/// A ball that meets a barrier, in either order of the pair, has `half_turn`
/// added to its rotation: the new rotation is a sum of the old one and
/// `half_turn` and nothing else, its location and scale stay, and so does
/// every other entity.
pub proof fn lemma_ball_turns_at_barrier<S, A: Fn(S, S) -> S>(
    plus: A,
    half_turn: S,
    before: Seq<Record<S>>,
    pair: [Entity; 2],
    ball: Entity,
    barrier: Entity,
    after: Seq<Record<S>>,
)
    requires
        pair@ == seq![ball, barrier] || pair@ == seq![barrier, ball],
        is_tagged(before, ball, TagKind::Ball),
        is_tagged(before, barrier, TagKind::Barrier),
        !is_tagged(before, barrier, TagKind::Ball),
        before[ball.index as int].components.transformation is Some,
        responded(plus, half_turn, before, seq![pair], after),
    ensures
        ({
            let record = before[ball.index as int];
            let t = record.components.transformation->Some_0;
            &&& after[ball.index as int].components.transformation matches Some(now)
            &&& plus.ensures((t.rotation, half_turn), now.rotation)
            &&& after == before.update(
                ball.index as int,
                Record {
                    components: Components {
                        transformation: Some(Transformation { rotation: now.rotation, ..t }),
                        ..record.components
                    },
                    ..record
                },
            )
        }),
{
    lemma_ball_found_in_either_order(before, ball, barrier);
    let pairs = seq![pair];
    assert(pairs.drop_last() =~= Seq::<[Entity; 2]>::empty());
    assert(pairs.last() == pair);
    let between = choose|between: Seq<Record<S>>|
        responded(plus, half_turn, before, pairs.drop_last(), between) && #[trigger] turned(
            plus,
            half_turn,
            between,
            pairs.last()@,
            after,
        );
    assert(between == before);
}

/// Responding to collisions keeps the handle map and the hitboxes in
/// agreement: it touches no hitbox.
pub proof fn lemma_response_keeps_registry<S, A: Fn(S, S) -> S>(
    plus: A,
    half_turn: S,
    before: Seq<Record<S>>,
    pairs: Seq<[Entity; 2]>,
    after: Seq<Record<S>>,
    map: Map<CollisionHandle, Entity>,
)
    requires
        responded(plus, half_turn, before, pairs, after),
        registry_consistent(before, map),
    ensures
        registry_consistent(after, map),
    decreases pairs.len(),
{
    if pairs.len() > 0 {
        let between = choose|between: Seq<Record<S>>|
            responded(plus, half_turn, before, pairs.drop_last(), between) && #[trigger] turned(
                plus,
                half_turn,
                between,
                pairs.last()@,
                after,
            );
        lemma_response_keeps_registry(plus, half_turn, before, pairs.drop_last(), between, map);
        assert(same_hitboxes(between, after));
        lemma_consistency_rests_on_hitboxes(between, after, map);
    }
}

} // verus!
