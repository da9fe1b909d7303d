//! The render dispatcher: what is to be painted this frame.

use vstd::prelude::*;
use crate::components::{ComponentKind, RenderInfo, RenderShape, Vec2};
use crate::world::{
    collect, lemma_collect_len, lemma_collect_same_len, lemma_collect_step, matching, Entity,
    Record, World,
};

verus! {

/// The entities to draw, in the order of the slots: for each one that has a
/// transformation and a render shape, its location and that shape.
pub open spec fn drawables<S>(records: Seq<Record<S>>) -> Seq<(Vec2<S>, RenderShape<S>)> {
    collect(
        records,
        |e: Entity, r: Record<S>|
            match (r.components.transformation, r.components.render_shape) {
                (Some(t), Some(shape)) => Some((t.location, shape)),
                _ => None,
            },
    )
}

/// Whether `info` is the box of `shape` drawn at `at`: the colour of the
/// shape, and the four corners
///
/// 1. `at + (-hx, hy)`
/// 2. `at - (hx, hy)`
/// 3. `at + (hx, hy)`
/// 4. `at + (hx, -hy)`
///
/// in this order, where `(hx, hy)` are the half-extents. The rotation of the
/// entity has no part in it.
pub open spec fn outlined<S, A: Fn(S, S) -> S, B: Fn(S, S) -> S, G: Fn(S) -> S>(
    plus: A,
    minus: B,
    negate: G,
    at: Vec2<S>,
    shape: RenderShape<S>,
    info: RenderInfo<S>,
) -> bool {
    let half = shape.half_extents;
    let corners = info.shape@;
    &&& info.color == shape.color
    &&& corners.len() == 4
    &&& exists|left: S| #[trigger]
        negate.ensures((half.x,), left) && plus.ensures((at.x, left), corners[0].x)
    &&& plus.ensures((at.y, half.y), corners[0].y)
    &&& minus.ensures((at.x, half.x), corners[1].x)
    &&& minus.ensures((at.y, half.y), corners[1].y)
    &&& plus.ensures((at.x, half.x), corners[2].x)
    &&& plus.ensures((at.y, half.y), corners[2].y)
    &&& plus.ensures((at.x, half.x), corners[3].x)
    &&& exists|down: S| #[trigger]
        negate.ensures((half.y,), down) && plus.ensures((at.y, down), corners[3].y)
}

/// Whether `infos` is what there is to paint of `records`: one box for each
/// entity to draw, in the order of the slots.
pub open spec fn dispatched<S, A: Fn(S, S) -> S, B: Fn(S, S) -> S, G: Fn(S) -> S>(
    plus: A,
    minus: B,
    negate: G,
    records: Seq<Record<S>>,
    infos: Seq<RenderInfo<S>>,
) -> bool {
    &&& infos.len() == drawables(records).len()
    &&& forall|k: int|
        0 <= k < infos.len() ==> outlined(
            plus,
            minus,
            negate,
            drawables(records)[k].0,
            drawables(records)[k].1,
            #[trigger] infos[k],
        )
}

/// The list of what to paint is as long as there are entities with both a
/// transformation and a render shape, whatever it held before and however
/// often it is rebuilt.
pub proof fn lemma_one_box_per_drawable<S, A: Fn(S, S) -> S, B: Fn(S, S) -> S, G: Fn(S) -> S>(
    plus: A,
    minus: B,
    negate: G,
    records: Seq<Record<S>>,
    infos: Seq<RenderInfo<S>>,
)
    requires
        dispatched(plus, minus, negate, records, infos),
    ensures
        infos.len() == matching(
            records,
            seq![ComponentKind::Transformation, ComponentKind::RenderShape],
        ).len(),
        infos.len() <= records.len(),
{
    let kinds = seq![ComponentKind::Transformation, ComponentKind::RenderShape];
    let draw = |e: Entity, r: Record<S>|
        match (r.components.transformation, r.components.render_shape) {
            (Some(t), Some(shape)) => Some((t.location, shape)),
            _ => None,
        };
    let keep = |e: Entity, r: Record<S>|
        if r.components.holds_all(kinds) {
            Some(e)
        } else {
            None
        };
    assert forall|e: Entity, r: Record<S>| #[trigger]
        draw(e, r) is Some <==> keep(e, r) is Some by {
        assert(kinds[0] == ComponentKind::Transformation);
        assert(kinds[1] == ComponentKind::RenderShape);
        if r.components.holds_all(kinds) {
            assert(r.components.holds(kinds[0]));
            assert(r.components.holds(kinds[1]));
        }
    }
    lemma_collect_same_len(records, draw, keep);
    lemma_collect_len(records, draw);
}

/// Rebuilds the list of what to paint: `infos` is emptied and then holds one
/// box for every entity that has both a transformation and a render shape,
/// in the order of the slots. Nothing of an earlier frame stays.
///
/// `plus`, `minus` and `negate` are the arithmetic of the scalar type.
pub fn dispatch_render<S: Copy, A: Fn(S, S) -> S, B: Fn(S, S) -> S, G: Fn(S) -> S>(
    world: &World<S>,
    infos: &mut Vec<RenderInfo<S>>,
    plus: A,
    minus: B,
    negate: G,
)
    requires
        world.wf(),
        forall|a: S, b: S| plus.requires((a, b)),
        forall|a: S, b: S| minus.requires((a, b)),
        forall|a: S| negate.requires((a,)),
    ensures
        dispatched(plus, minus, negate, world@, final(infos)@),
{
    infos.clear();
    let n = world.len();
    let mut i: usize = 0;
    assert(world@.take(0) =~= Seq::<Record<S>>::empty());
    while i < n
        invariant
            world.wf(),
            n == world@.len(),
            i <= n,
            forall|a: S, b: S| plus.requires((a, b)),
            forall|a: S, b: S| minus.requires((a, b)),
            forall|a: S| negate.requires((a,)),
            dispatched(plus, minus, negate, world@.take(i as int), infos@),
        decreases n - i,
    {
        let e = world.entity_at(i);
        proof {
            lemma_collect_step(
                world@,
                |e: Entity, r: Record<S>|
                    match (r.components.transformation, r.components.render_shape) {
                        (Some(t), Some(shape)) => Some((t.location, shape)),
                        _ => None,
                    },
                i as int,
            );
        }
        match (world.transformation(e), world.render_shape(e)) {
            (Some(t), Some(shape)) => {
                let at = t.location;
                let half = shape.half_extents;
                let mut corners: Vec<Vec2<S>> = Vec::new();
                corners.push(Vec2 { x: plus(at.x, negate(half.x)), y: plus(at.y, half.y) });
                corners.push(Vec2 { x: minus(at.x, half.x), y: minus(at.y, half.y) });
                corners.push(Vec2 { x: plus(at.x, half.x), y: plus(at.y, half.y) });
                corners.push(Vec2 { x: plus(at.x, half.x), y: plus(at.y, negate(half.y)) });
                let info = RenderInfo { shape: corners, color: shape.color };
                assert(outlined(plus, minus, negate, at, *shape, info));
                infos.push(info);
            },
            _ => {},
        }
        i += 1;
    }
    assert(world@.take(n as int) =~= world@);
}

} // verus!
