//! The entity store: one table per kind of component, keyed by entity.

use vstd::prelude::*;
use crate::components::{
    ComponentKind, Components, Hitbox, RenderShape, Tag, TagKind, Tags, Transformation, Velocity,
};

verus! {

/// The name of an entity: a slot of the store and the generation of that
/// slot. It carries no data of its own.
#[derive(Clone, Copy, Debug, PartialEq, Eq, Structural, Hash)]
pub struct Entity {
    pub index: usize,
    pub generation: u32,
}

/// What the store holds for one entity.
pub struct Record<S> {
    pub generation: u32,
    pub tags: Tags,
    pub components: Components<S>,
}

/// The entity that names slot `i` of `records`.
pub open spec fn entity_of<S>(records: Seq<Record<S>>, i: int) -> Entity {
    Entity { index: i as usize, generation: records[i].generation }
}

/// Whether `e` names a slot of `records`.
pub open spec fn is_live<S>(records: Seq<Record<S>>, e: Entity) -> bool {
    e.index < records.len() && records[e.index as int].generation == e.generation
}

/// The components of `e`, where `e` names a slot of `records`.
pub open spec fn components_of<S>(records: Seq<Record<S>>, e: Entity) -> Option<Components<S>> {
    if is_live(records, e) {
        Some(records[e.index as int].components)
    } else {
        None
    }
}

/// Whether `e` names a slot of `records` that carries the tag `kind`.
pub open spec fn is_tagged<S>(records: Seq<Record<S>>, e: Entity, kind: TagKind) -> bool {
    is_live(records, e) && records[e.index as int].tags.contains(kind)
}

/// Walks the slots from the first to the last and keeps, in that order, what
/// `pick` yields for each.
pub open spec fn collect<S, T>(
    records: Seq<Record<S>>,
    pick: spec_fn(Entity, Record<S>) -> Option<T>,
) -> Seq<T>
    decreases records.len(),
{
    if records.len() == 0 {
        Seq::empty()
    } else {
        let before = collect(records.drop_last(), pick);
        match pick(entity_of(records, records.len() - 1), records.last()) {
            Some(item) => before.push(item),
            None => before,
        }
    }
}

/// One more slot adds to `collect` what `pick` yields for it, at the end.
pub proof fn lemma_collect_step<S, T>(
    records: Seq<Record<S>>,
    pick: spec_fn(Entity, Record<S>) -> Option<T>,
    i: int,
)
    requires
        0 <= i < records.len(),
    ensures
        collect(records.take(i + 1), pick) == match pick(entity_of(records, i), records[i]) {
            Some(item) => collect(records.take(i), pick).push(item),
            None => collect(records.take(i), pick),
        },
{
    let upto = records.take(i + 1);
    assert(upto.drop_last() =~= records.take(i));
    assert(upto.last() == records[i]);
    assert(entity_of(upto, upto.len() - 1) == entity_of(records, i));
}

/// `collect` yields at most one item for each slot.
pub proof fn lemma_collect_len<S, T>(
    records: Seq<Record<S>>,
    pick: spec_fn(Entity, Record<S>) -> Option<T>,
)
    ensures
        collect(records, pick).len() <= records.len(),
    decreases records.len(),
{
    if records.len() > 0 {
        lemma_collect_len(records.drop_last(), pick);
    }
}

/// Every item of `collect` is what `pick` yields for some slot.
pub proof fn lemma_collect_item<S, T>(
    records: Seq<Record<S>>,
    pick: spec_fn(Entity, Record<S>) -> Option<T>,
    k: int,
)
    requires
        0 <= k < collect(records, pick).len(),
    ensures
        exists|i: int|
            0 <= i < records.len() && #[trigger] pick(entity_of(records, i), records[i]) == Some(
                collect(records, pick)[k],
            ),
    decreases records.len(),
{
    let before = collect(records.drop_last(), pick);
    let last = records.len() - 1;
    if k < before.len() {
        lemma_collect_item(records.drop_last(), pick, k);
        let i = choose|i: int|
            0 <= i < records.drop_last().len() && #[trigger] pick(
                entity_of(records.drop_last(), i),
                records.drop_last()[i],
            ) == Some(before[k]);
        assert(entity_of(records.drop_last(), i) == entity_of(records, i));
        assert(pick(entity_of(records, i), records[i]) == Some(collect(records, pick)[k]));
    } else {
        assert(pick(entity_of(records, last), records[last]) == Some(collect(records, pick)[k]));
    }
}

/// Whatever `pick` yields for a slot is an item of `collect`.
pub proof fn lemma_collect_covers<S, T>(
    records: Seq<Record<S>>,
    pick: spec_fn(Entity, Record<S>) -> Option<T>,
    i: int,
)
    requires
        0 <= i < records.len(),
        pick(entity_of(records, i), records[i]) is Some,
    ensures
        collect(records, pick).contains(pick(entity_of(records, i), records[i])->Some_0),
    decreases records.len(),
{
    let before = collect(records.drop_last(), pick);
    let all = collect(records, pick);
    let last = records.len() - 1;
    if i < last {
        lemma_collect_covers(records.drop_last(), pick, i);
        assert(entity_of(records.drop_last(), i) == entity_of(records, i));
        let item = pick(entity_of(records, i), records[i])->Some_0;
        let k = choose|k: int| 0 <= k < before.len() && before[k] == item;
        assert(all[k] == item);
    } else {
        assert(all[all.len() - 1] == pick(entity_of(records, i), records[i])->Some_0);
    }
}

/// Two walks that keep something for the same slots keep equally many
/// items.
pub proof fn lemma_collect_same_len<S, T, U>(
    records: Seq<Record<S>>,
    pick: spec_fn(Entity, Record<S>) -> Option<T>,
    other: spec_fn(Entity, Record<S>) -> Option<U>,
)
    requires
        forall|e: Entity, r: Record<S>| #[trigger] pick(e, r) is Some <==> other(e, r) is Some,
    ensures
        collect(records, pick).len() == collect(records, other).len(),
    decreases records.len(),
{
    if records.len() > 0 {
        lemma_collect_same_len(records.drop_last(), pick, other);
    }
}

/// The entities that hold a component of every kind in `kinds`, in the order
/// of their slots.
pub open spec fn matching<S>(records: Seq<Record<S>>, kinds: Seq<ComponentKind>) -> Seq<Entity> {
    collect(
        records,
        |e: Entity, r: Record<S>|
            if r.components.holds_all(kinds) {
                Some(e)
            } else {
                None
            },
    )
}

/// The entity store.
pub struct World<S> {
    generations: Vec<u32>,
    tags: Vec<Tags>,
    transformations: Vec<Option<Transformation<S>>>,
    velocities: Vec<Option<Velocity<S>>>,
    hitboxes: Vec<Option<Hitbox<S>>>,
    render_shapes: Vec<Option<RenderShape<S>>>,
}

impl<S> View for World<S> {
    type V = Seq<Record<S>>;

    /// The store as the sequence of its slots.
    closed spec fn view(&self) -> Seq<Record<S>> {
        Seq::new(
            self.generations@.len(),
            |i: int|
                Record {
                    generation: self.generations@[i],
                    tags: self.tags@[i],
                    components: Components {
                        transformation: self.transformations@[i],
                        velocity: self.velocities@[i],
                        hitbox: self.hitboxes@[i],
                        render_shape: self.render_shapes@[i],
                    },
                },
        )
    }
}

impl<S: Copy> World<S> {
    /// Every table has one row for each entity.
    pub closed spec fn wf(&self) -> bool {
        &&& self.tags@.len() == self.generations@.len()
        &&& self.transformations@.len() == self.generations@.len()
        &&& self.velocities@.len() == self.generations@.len()
        &&& self.hitboxes@.len() == self.generations@.len()
        &&& self.render_shapes@.len() == self.generations@.len()
    }

    /// A store without entities.
    pub fn new() -> (w: Self)
        ensures
            w.wf(),
            w@ == Seq::<Record<S>>::empty(),
    {
        let w = World {
            generations: Vec::new(),
            tags: Vec::new(),
            transformations: Vec::new(),
            velocities: Vec::new(),
            hitboxes: Vec::new(),
            render_shapes: Vec::new(),
        };
        assert(w@ =~= Seq::<Record<S>>::empty());
        w
    }

    /// The number of entities.
    pub fn len(&self) -> (n: usize)
        requires
            self.wf(),
        ensures
            n == self@.len(),
    {
        self.generations.len()
    }

    /// Adds an entity with the given tags and components, in a new slot
    /// behind the others.
    pub fn create(&mut self, tags: Tags, components: Components<S>) -> (e: Entity)
        requires
            old(self).wf(),
        ensures
            final(self).wf(),
            final(self)@ == old(self)@.push(Record { generation: 0, tags, components }),
            e == (Entity { index: old(self)@.len() as usize, generation: 0 }),
            is_live(final(self)@, e),
    {
        let index = self.generations.len();
        self.generations.push(0);
        self.tags.push(tags);
        self.transformations.push(components.transformation);
        self.velocities.push(components.velocity);
        self.hitboxes.push(components.hitbox);
        self.render_shapes.push(components.render_shape);
        assert(self@ =~= old(self)@.push(Record { generation: 0, tags, components }));
        Entity { index, generation: 0 }
    }

    /// Whether `e` names an entity of this store.
    pub fn contains(&self, e: Entity) -> (b: bool)
        requires
            self.wf(),
        ensures
            b == is_live(self@, e),
    {
        e.index < self.generations.len() && self.generations[e.index] == e.generation
    }

    /// The entity in slot `i`.
    pub fn entity_at(&self, i: usize) -> (e: Entity)
        requires
            self.wf(),
            i < self@.len(),
        ensures
            e == entity_of(self@, i as int),
            is_live(self@, e),
    {
        Entity { index: i, generation: self.generations[i] }
    }

    /// The tags of `e`.
    pub fn tags(&self, e: Entity) -> (t: Option<Tags>)
        requires
            self.wf(),
        ensures
            t == (if is_live(self@, e) {
                Some(self@[e.index as int].tags)
            } else {
                None
            }),
    {
        if self.contains(e) {
            Some(self.tags[e.index])
        } else {
            None
        }
    }

    /// Whether `e` carries the tag `T`.
    pub fn has_tag<T: Tag>(&self, e: Entity) -> (b: bool)
        requires
            self.wf(),
        ensures
            b == is_tagged(self@, e, T::tag()),
    {
        if self.contains(e) {
            self.tags[e.index].has(T::kind())
        } else {
            false
        }
    }

    /// Whether `e` holds a component of the given kind.
    pub fn has_component(&self, e: Entity, kind: ComponentKind) -> (b: bool)
        requires
            self.wf(),
        ensures
            b == (is_live(self@, e) && self@[e.index as int].components.holds(kind)),
    {
        if self.contains(e) {
            match kind {
                ComponentKind::Transformation => self.transformations[e.index].is_some(),
                ComponentKind::Velocity => self.velocities[e.index].is_some(),
                ComponentKind::Hitbox => self.hitboxes[e.index].is_some(),
                ComponentKind::RenderShape => self.render_shapes[e.index].is_some(),
            }
        } else {
            false
        }
    }

    /// The transformation of `e`.
    pub fn transformation(&self, e: Entity) -> (t: Option<&Transformation<S>>)
        requires
            self.wf(),
        ensures
            match components_of(self@, e) {
                Some(c) => match c.transformation {
                    Some(held) => t == Some(&held),
                    None => t is None,
                },
                None => t is None,
            },
    {
        if self.contains(e) {
            self.transformations[e.index].as_ref()
        } else {
            None
        }
    }

    /// The transformation of `e`, to be changed in place.
    pub fn transformation_mut(&mut self, e: Entity) -> (t: Option<&mut Transformation<S>>)
        requires
            old(self).wf(),
        ensures
            final(self).wf(),
            match components_of(old(self)@, e) {
                Some(c) => match c.transformation {
                    Some(held) => match t {
                        Some(r) => *r == held && final(self)@ == old(self)@.update(
                            e.index as int,
                            Record {
                                components: Components { transformation: Some(*final(r)), ..c },
                                ..old(self)@[e.index as int]
                            },
                        ),
                        None => false,
                    },
                    None => t is None && final(self)@ == old(self)@,
                },
                None => t is None && final(self)@ == old(self)@,
            },
    {
        if self.contains(e) {
            self.transformations[e.index].as_mut()
        } else {
            None
        }
    }

    /// The velocity of `e`.
    pub fn velocity(&self, e: Entity) -> (r: Option<&Velocity<S>>)
        requires
            self.wf(),
        ensures
            match components_of(self@, e) {
                Some(c) => match c.velocity {
                    Some(held) => r == Some(&held),
                    None => r is None,
                },
                None => r is None,
            },
    {
        if self.contains(e) {
            self.velocities[e.index].as_ref()
        } else {
            None
        }
    }

    /// The hitbox of `e`.
    pub fn hitbox(&self, e: Entity) -> (r: Option<&Hitbox<S>>)
        requires
            self.wf(),
        ensures
            match components_of(self@, e) {
                Some(c) => match c.hitbox {
                    Some(held) => r == Some(&held),
                    None => r is None,
                },
                None => r is None,
            },
    {
        if self.contains(e) {
            self.hitboxes[e.index].as_ref()
        } else {
            None
        }
    }

    /// The render shape of `e`.
    pub fn render_shape(&self, e: Entity) -> (r: Option<&RenderShape<S>>)
        requires
            self.wf(),
        ensures
            match components_of(self@, e) {
                Some(c) => match c.render_shape {
                    Some(held) => r == Some(&held),
                    None => r is None,
                },
                None => r is None,
            },
    {
        if self.contains(e) {
            self.render_shapes[e.index].as_ref()
        } else {
            None
        }
    }

    /// The hitbox of `e`, to be changed in place.
    pub fn hitbox_mut(&mut self, e: Entity) -> (h: Option<&mut Hitbox<S>>)
        requires
            old(self).wf(),
        ensures
            final(self).wf(),
            match components_of(old(self)@, e) {
                Some(c) => match c.hitbox {
                    Some(held) => match h {
                        Some(r) => *r == held && final(self)@ == old(self)@.update(
                            e.index as int,
                            Record {
                                components: Components { hitbox: Some(*final(r)), ..c },
                                ..old(self)@[e.index as int]
                            },
                        ),
                        None => false,
                    },
                    None => h is None && final(self)@ == old(self)@,
                },
                None => h is None && final(self)@ == old(self)@,
            },
    {
        if self.contains(e) {
            self.hitboxes[e.index].as_mut()
        } else {
            None
        }
    }

    /// The velocity of `e`, to be changed in place.
    pub fn velocity_mut(&mut self, e: Entity) -> (h: Option<&mut Velocity<S>>)
        requires
            old(self).wf(),
        ensures
            final(self).wf(),
            match components_of(old(self)@, e) {
                Some(c) => match c.velocity {
                    Some(held) => match h {
                        Some(r) => *r == held && final(self)@ == old(self)@.update(
                            e.index as int,
                            Record {
                                components: Components { velocity: Some(*final(r)), ..c },
                                ..old(self)@[e.index as int]
                            },
                        ),
                        None => false,
                    },
                    None => h is None && final(self)@ == old(self)@,
                },
                None => h is None && final(self)@ == old(self)@,
            },
    {
        if self.contains(e) {
            self.velocities[e.index].as_mut()
        } else {
            None
        }
    }

    /// The render shape of `e`, to be changed in place.
    pub fn render_shape_mut(&mut self, e: Entity) -> (h: Option<&mut RenderShape<S>>)
        requires
            old(self).wf(),
        ensures
            final(self).wf(),
            match components_of(old(self)@, e) {
                Some(c) => match c.render_shape {
                    Some(held) => match h {
                        Some(r) => *r == held && final(self)@ == old(self)@.update(
                            e.index as int,
                            Record {
                                components: Components { render_shape: Some(*final(r)), ..c },
                                ..old(self)@[e.index as int]
                            },
                        ),
                        None => false,
                    },
                    None => h is None && final(self)@ == old(self)@,
                },
                None => h is None && final(self)@ == old(self)@,
            },
    {
        if self.contains(e) {
            self.render_shapes[e.index].as_mut()
        } else {
            None
        }
    }

    /// Every entity, in the order of the slots.
    pub fn entities(&self) -> (all: Vec<Entity>)
        requires
            self.wf(),
        ensures
            all@ == Seq::new(self@.len(), |i: int| entity_of(self@, i)),
    {
        let mut all: Vec<Entity> = Vec::new();
        let n = self.len();
        let mut i: usize = 0;
        while i < n
            invariant
                self.wf(),
                n == self@.len(),
                i <= n,
                all@ == Seq::new(i as nat, |k: int| entity_of(self@, k)),
            decreases n - i,
        {
            all.push(self.entity_at(i));
            assert(all@ =~= Seq::new((i + 1) as nat, |k: int| entity_of(self@, k)));
            i += 1;
        }
        all
    }

    /// The entities that hold a component of every kind in `kinds`, in the
    /// order of the slots.
    pub fn entities_with(&self, kinds: &[ComponentKind]) -> (found: Vec<Entity>)
        requires
            self.wf(),
        ensures
            found@ == matching(self@, kinds@),
    {
        let mut found: Vec<Entity> = Vec::new();
        let n = self.len();
        let mut i: usize = 0;
        assert(self@.take(0) =~= Seq::<Record<S>>::empty());
        while i < n
            invariant
                self.wf(),
                n == self@.len(),
                i <= n,
                found@ == matching(self@.take(i as int), kinds@),
            decreases n - i,
        {
            let e = self.entity_at(i);
            let mut all = true;
            let mut k: usize = 0;
            while k < kinds.len()
                invariant
                    self.wf(),
                    i < self@.len(),
                    e == entity_of(self@, i as int),
                    k <= kinds@.len(),
                    all == self@[i as int].components.holds_all(kinds@.take(k as int)),
                decreases kinds.len() - k,
            {
                let held = self.has_component(e, kinds[k]);
                proof {
                    let c = self@[i as int].components;
                    let upto = kinds@.take(k as int);
                    let next = kinds@.take(k + 1);
                    assert(next[k as int] == kinds@[k as int]);
                    assert(forall|j: int| 0 <= j < k ==> next[j] == upto[j]);
                    if c.holds_all(next) {
                        assert forall|j: int| 0 <= j < upto.len() implies c.holds(
                            #[trigger] upto[j],
                        ) by {
                            assert(c.holds(next[j]));
                        }
                    }
                }
                all = all && held;
                k += 1;
            }
            assert(kinds@.take(k as int) =~= kinds@);
            proof {
                lemma_collect_step(
                    self@,
                    |e: Entity, r: Record<S>|
                        if r.components.holds_all(kinds@) {
                            Some(e)
                        } else {
                            None
                        },
                    i as int,
                );
            }
            if all {
                found.push(e);
            }
            i += 1;
        }
        assert(self@.take(n as int) =~= self@);
        found
    }

    /// The components of `e`.
    pub fn components(&self, e: Entity) -> (c: Option<Components<S>>)
        requires
            self.wf(),
        ensures
            c == components_of(self@, e),
    {
        if self.contains(e) {
            Some(
                Components {
                    transformation: self.transformations[e.index],
                    velocity: self.velocities[e.index],
                    hitbox: self.hitboxes[e.index],
                    render_shape: self.render_shapes[e.index],
                },
            )
        } else {
            None
        }
    }
}

} // verus!
