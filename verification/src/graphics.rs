//! What the renderer is handed: the boxes of a frame cut into triangles.

use vstd::prelude::*;
use crate::components::RenderInfo;

verus! {

/// One corner of a triangle, with its colour.
#[derive(Clone, Copy, Debug, PartialEq)]
pub struct Vertex<S> {
    pub vertex: [S; 2],
    pub color: [S; 3],
}

/// The corner at `k` of `info`, in the colour of `info`.
pub open spec fn corner_at<S>(info: RenderInfo<S>, k: int) -> Vertex<S> {
    Vertex { vertex: [info.shape@[k].x, info.shape@[k].y], color: info.color }
}

/// Up to three corners of `info`, starting with the corner at `from`, each
/// in the colour of `info`.
pub open spec fn corner_run<S>(info: RenderInfo<S>, from: int) -> Seq<Vertex<S>>
    recommends
        from >= 0,
{
    let corners = info.shape@;
    let first = if from < corners.len() {
        from
    } else {
        corners.len() as int
    };
    let end = if from + 3 < corners.len() {
        from + 3
    } else {
        corners.len() as int
    };
    Seq::new((end - first) as nat, |k: int| corner_at(info, first + k))
}

/// The corner runs of all `infos` one after the other.
pub open spec fn corner_runs<S>(infos: Seq<RenderInfo<S>>, from: int) -> Seq<Vertex<S>>
    decreases infos.len(),
{
    if infos.len() == 0 {
        Seq::empty()
    } else {
        corner_runs(infos.drop_last(), from) + corner_run(infos.last(), from)
    }
}

/// Appends to `out` up to three corners of each of `infos`, starting with
/// the corner at `from`.
fn push_corner_runs<S: Copy>(out: &mut Vec<Vertex<S>>, infos: &Vec<RenderInfo<S>>, from: usize)
    requires
        from <= 1,
    ensures
        final(out)@ == old(out)@ + corner_runs(infos@, from as int),
{
    let n = infos.len();
    let mut i: usize = 0;
    assert(infos@.take(0) =~= Seq::<RenderInfo<S>>::empty());
    assert(out@ =~= old(out)@ + corner_runs(infos@.take(0), from as int));
    while i < n
        invariant
            from <= 1,
            n == infos@.len(),
            i <= n,
            out@ == old(out)@ + corner_runs(infos@.take(i as int), from as int),
        decreases n - i,
    {
        let info = &infos[i];
        let corners = info.shape.len();
        let first = if from < corners {
            from
        } else {
            corners
        };
        let end = if corners > 3 && from < corners - 3 {
            from + 3
        } else {
            corners
        };
        let ghost done = out@;
        let mut k: usize = first;
        while k < end
            invariant
                first <= k <= end <= info.shape@.len(),
                out@ == done + Seq::new((k - first) as nat, |j: int| corner_at(*info, first + j)),
            decreases end - k,
        {
            let at = info.shape[k];
            out.push(Vertex { vertex: [at.x, at.y], color: info.color });
            assert(out@ =~= done + Seq::new(
                (k + 1 - first) as nat,
                |j: int| corner_at(*info, first + j),
            ));
            k += 1;
        }
        proof {
            let upto = infos@.take(i + 1);
            assert(upto.drop_last() =~= infos@.take(i as int));
            assert(upto.last() == infos@[i as int]);
            assert(out@ =~= done + corner_run(*info, from as int));
            assert(out@ =~= old(out)@ + corner_runs(upto, from as int));
        }
        i += 1;
    }
    assert(infos@.take(n as int) =~= infos@);
}

/// The corners to hand to the renderer, three for each triangle: first, for
/// every box in the order of the list, its first three corners; then, for
/// every box again, the three corners behind its first. A box of four
/// corners is so covered by two triangles.
pub fn triangle_vertices<S: Copy>(infos: &Vec<RenderInfo<S>>) -> (out: Vec<Vertex<S>>)
    ensures
        out@ == corner_runs(infos@, 0) + corner_runs(infos@, 1),
{
    let mut out: Vec<Vertex<S>> = Vec::new();
    push_corner_runs(&mut out, infos, 0);
    push_corner_runs(&mut out, infos, 1);
    assert(out@ =~= corner_runs(infos@, 0) + corner_runs(infos@, 1));
    out
}

} // verus!
