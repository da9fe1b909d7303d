//! The data that an entity can carry.

use vstd::prelude::*;

verus! {

/// A point or an offset in the plane.
#[derive(Clone, Copy, Debug, PartialEq)]
pub struct Vec2<S> {
    pub x: S,
    pub y: S,
}

impl<S> Vec2<S> {
    pub fn new(x: S, y: S) -> (v: Self)
        ensures
            v == (Vec2 { x, y }),
    {
        Vec2 { x, y }
    }
}

/// Where an entity is, how large it is drawn and which way it is heading
/// (an angle in radians).
#[derive(Clone, Copy, Debug, PartialEq)]
pub struct Transformation<S> {
    pub location: Vec2<S>,
    pub scale: Vec2<S>,
    pub rotation: S,
}

/// Speed along the entity's current heading.
#[derive(Clone, Copy, Debug, PartialEq)]
pub struct Velocity<S> {
    pub velocity: S,
}

/// The key under which the spatial index knows a registered shape.
pub type CollisionHandle = usize;

/// An axis-aligned box given by its half-extents.
#[derive(Clone, Copy, Debug, PartialEq)]
pub struct BoxShape<S> {
    pub half_extents: Vec2<S>,
}

/// Collision geometry, and the handle of its entry in the spatial index once
/// it has one. The handle is only a cached key: the handle map says which
/// entity a handle belongs to.
#[derive(Clone, Copy, Debug, PartialEq)]
pub struct Hitbox<S> {
    pub shape: BoxShape<S>,
    pub slap_handle: Option<CollisionHandle>,
}

/// One polygon to paint this frame: its vertices in order, and its colour.
#[derive(Clone, Debug, PartialEq)]
pub struct RenderInfo<S> {
    pub shape: Vec<Vec2<S>>,
    pub color: [S; 3],
}

/// The box silhouette with which an entity is drawn.
#[derive(Clone, Copy, Debug, PartialEq)]
pub struct RenderShape<S> {
    pub color: [S; 3],
    pub half_extents: Vec2<S>,
}

/// Marks the walls that turn a ball around.
#[derive(Clone, Copy, Debug, PartialEq)]
pub struct Barrier;

/// Marks a goal. No system reads this tag yet.
#[derive(Clone, Copy, Debug, PartialEq)]
pub struct Goal;

/// Marks the ball.
#[derive(Clone, Copy, Debug, PartialEq)]
pub struct Ball;

/// The tags there are, as values.
#[derive(Clone, Copy, Debug, PartialEq, Eq, Structural)]
pub enum TagKind {
    Ball,
    Barrier,
    Goal,
}

/// A marker type that stands for one tag.
pub trait Tag {
    spec fn tag() -> TagKind;

    fn kind() -> (k: TagKind)
        ensures
            k == Self::tag(),
    ;
}

impl Tag for Ball {
    open spec fn tag() -> TagKind {
        TagKind::Ball
    }

    fn kind() -> (k: TagKind) {
        TagKind::Ball
    }
}

impl Tag for Barrier {
    open spec fn tag() -> TagKind {
        TagKind::Barrier
    }

    fn kind() -> (k: TagKind) {
        TagKind::Barrier
    }
}

impl Tag for Goal {
    open spec fn tag() -> TagKind {
        TagKind::Goal
    }

    fn kind() -> (k: TagKind) {
        TagKind::Goal
    }
}

/// The set of tags attached to one entity.
#[derive(Clone, Copy, Debug, PartialEq, Eq, Structural)]
pub struct Tags {
    pub ball: bool,
    pub barrier: bool,
    pub goal: bool,
}

impl Tags {
    /// Whether the set holds the tag `kind`.
    pub open spec fn contains(self, kind: TagKind) -> bool {
        match kind {
            TagKind::Ball => self.ball,
            TagKind::Barrier => self.barrier,
            TagKind::Goal => self.goal,
        }
    }

    /// The set with `kind` added.
    pub open spec fn insert(self, kind: TagKind) -> Tags {
        match kind {
            TagKind::Ball => Tags { ball: true, ..self },
            TagKind::Barrier => Tags { barrier: true, ..self },
            TagKind::Goal => Tags { goal: true, ..self },
        }
    }

    /// The empty set.
    pub fn none() -> (t: Tags)
        ensures
            forall|kind: TagKind| !t.contains(kind),
            t == (Tags { ball: false, barrier: false, goal: false }),
    {
        Tags { ball: false, barrier: false, goal: false }
    }

    /// The set with the tag `T` added.
    pub fn with<T: Tag>(self) -> (t: Tags)
        ensures
            t == self.insert(T::tag()),
    {
        match T::kind() {
            TagKind::Ball => Tags { ball: true, barrier: self.barrier, goal: self.goal },
            TagKind::Barrier => Tags { ball: self.ball, barrier: true, goal: self.goal },
            TagKind::Goal => Tags { ball: self.ball, barrier: self.barrier, goal: true },
        }
    }

    /// Whether the set holds the tag `kind`.
    pub fn has(&self, kind: TagKind) -> (b: bool)
        ensures
            b == self.contains(kind),
    {
        match kind {
            TagKind::Ball => self.ball,
            TagKind::Barrier => self.barrier,
            TagKind::Goal => self.goal,
        }
    }
}

/// The components that an entity is created with.
#[derive(Clone, Copy, Debug, PartialEq)]
pub struct Components<S> {
    pub transformation: Option<Transformation<S>>,
    pub velocity: Option<Velocity<S>>,
    pub hitbox: Option<Hitbox<S>>,
    pub render_shape: Option<RenderShape<S>>,
}

/// The kinds of component there are.
#[derive(Clone, Copy, Debug, PartialEq, Eq, Structural)]
pub enum ComponentKind {
    Transformation,
    Velocity,
    Hitbox,
    RenderShape,
}

impl<S> Components<S> {
    /// Whether a component of the given kind is present.
    pub open spec fn holds(self, kind: ComponentKind) -> bool {
        match kind {
            ComponentKind::Transformation => self.transformation is Some,
            ComponentKind::Velocity => self.velocity is Some,
            ComponentKind::Hitbox => self.hitbox is Some,
            ComponentKind::RenderShape => self.render_shape is Some,
        }
    }

    /// Whether a component of every kind in `kinds` is present.
    pub open spec fn holds_all(self, kinds: Seq<ComponentKind>) -> bool {
        forall|k: int| 0 <= k < kinds.len() ==> self.holds(#[trigger] kinds[k])
    }

    /// No component at all.
    pub fn none() -> (c: Self)
        ensures
            c == (Components::<S> {
                transformation: None,
                velocity: None,
                hitbox: None,
                render_shape: None,
            }),
    {
        Components { transformation: None, velocity: None, hitbox: None, render_shape: None }
    }
}

} // verus!
