//! The schedule of one tick: which systems run, in which order, and what
//! each of them reads and writes.

use vstd::prelude::*;
use crate::components::ComponentKind;

verus! {

/// The state that the systems share besides the entity store.
#[derive(Clone, Copy, Debug, PartialEq, Eq, Structural)]
pub enum ResourceKind {
    /// For each handle of the spatial index, its entity.
    HandleMap,
    /// The spatial index.
    SpatialIndex,
    /// This tick's pairs of colliding entities.
    Colliders,
    /// This frame's list of what to paint.
    RenderInfos,
}

/// A set of component kinds.
#[derive(Clone, Copy, Debug, PartialEq, Eq, Structural)]
pub struct ComponentSet {
    pub transformation: bool,
    pub velocity: bool,
    pub hitbox: bool,
    pub render_shape: bool,
}

impl ComponentSet {
    pub open spec fn contains(self, kind: ComponentKind) -> bool {
        match kind {
            ComponentKind::Transformation => self.transformation,
            ComponentKind::Velocity => self.velocity,
            ComponentKind::Hitbox => self.hitbox,
            ComponentKind::RenderShape => self.render_shape,
        }
    }

    /// The empty set.
    pub open spec fn empty() -> ComponentSet {
        ComponentSet { transformation: false, velocity: false, hitbox: false, render_shape: false }
    }

    /// The set with `kind` added.
    pub open spec fn insert(self, kind: ComponentKind) -> ComponentSet {
        match kind {
            ComponentKind::Transformation => ComponentSet { transformation: true, ..self },
            ComponentKind::Velocity => ComponentSet { velocity: true, ..self },
            ComponentKind::Hitbox => ComponentSet { hitbox: true, ..self },
            ComponentKind::RenderShape => ComponentSet { render_shape: true, ..self },
        }
    }

    /// The empty set.
    pub fn none() -> (set: ComponentSet)
        ensures
            set == ComponentSet::empty(),
    {
        ComponentSet { transformation: false, velocity: false, hitbox: false, render_shape: false }
    }

    /// The set with `kind` added.
    pub fn with(self, kind: ComponentKind) -> (set: ComponentSet)
        ensures
            set == self.insert(kind),
    {
        match kind {
            ComponentKind::Transformation => ComponentSet { transformation: true, ..self },
            ComponentKind::Velocity => ComponentSet { velocity: true, ..self },
            ComponentKind::Hitbox => ComponentSet { hitbox: true, ..self },
            ComponentKind::RenderShape => ComponentSet { render_shape: true, ..self },
        }
    }

    /// Whether the set holds `kind`.
    pub fn has(&self, kind: ComponentKind) -> (b: bool)
        ensures
            b == self.contains(kind),
    {
        match kind {
            ComponentKind::Transformation => self.transformation,
            ComponentKind::Velocity => self.velocity,
            ComponentKind::Hitbox => self.hitbox,
            ComponentKind::RenderShape => self.render_shape,
        }
    }
}

/// A set of shared resources.
#[derive(Clone, Copy, Debug, PartialEq, Eq, Structural)]
pub struct ResourceSet {
    pub handle_map: bool,
    pub spatial_index: bool,
    pub colliders: bool,
    pub render_infos: bool,
}

impl ResourceSet {
    pub open spec fn contains(self, kind: ResourceKind) -> bool {
        match kind {
            ResourceKind::HandleMap => self.handle_map,
            ResourceKind::SpatialIndex => self.spatial_index,
            ResourceKind::Colliders => self.colliders,
            ResourceKind::RenderInfos => self.render_infos,
        }
    }

    /// The empty set.
    pub open spec fn empty() -> ResourceSet {
        ResourceSet {
            handle_map: false,
            spatial_index: false,
            colliders: false,
            render_infos: false,
        }
    }

    /// The set with `kind` added.
    pub open spec fn insert(self, kind: ResourceKind) -> ResourceSet {
        match kind {
            ResourceKind::HandleMap => ResourceSet { handle_map: true, ..self },
            ResourceKind::SpatialIndex => ResourceSet { spatial_index: true, ..self },
            ResourceKind::Colliders => ResourceSet { colliders: true, ..self },
            ResourceKind::RenderInfos => ResourceSet { render_infos: true, ..self },
        }
    }

    /// The empty set.
    pub fn none() -> (set: ResourceSet)
        ensures
            set == ResourceSet::empty(),
    {
        ResourceSet {
            handle_map: false,
            spatial_index: false,
            colliders: false,
            render_infos: false,
        }
    }

    /// The set with `kind` added.
    pub fn with(self, kind: ResourceKind) -> (set: ResourceSet)
        ensures
            set == self.insert(kind),
    {
        match kind {
            ResourceKind::HandleMap => ResourceSet { handle_map: true, ..self },
            ResourceKind::SpatialIndex => ResourceSet { spatial_index: true, ..self },
            ResourceKind::Colliders => ResourceSet { colliders: true, ..self },
            ResourceKind::RenderInfos => ResourceSet { render_infos: true, ..self },
        }
    }

    /// Whether the set holds `kind`.
    pub fn has(&self, kind: ResourceKind) -> (b: bool)
        ensures
            b == self.contains(kind),
    {
        match kind {
            ResourceKind::HandleMap => self.handle_map,
            ResourceKind::SpatialIndex => self.spatial_index,
            ResourceKind::Colliders => self.colliders,
            ResourceKind::RenderInfos => self.render_infos,
        }
    }
}

/// The systems there are.
#[derive(Clone, Copy, Debug, PartialEq, Eq, Structural)]
pub enum SystemKind {
    /// The registrar.
    MapEntityCollisionHandle,
    /// The movement step.
    Movement,
    /// The collision detector.
    Collision,
    /// The collision responder.
    HandleBallBarrierCollision,
    /// The render dispatcher.
    DispatchRender,
}

/// A system as the schedule sees it: which one it is, and what it declares
/// to read and to write. What a system writes it may read as well.
#[derive(Clone, Copy, Debug, PartialEq, Eq, Structural)]
pub struct System {
    pub kind: SystemKind,
    pub component_reads: ComponentSet,
    pub component_writes: ComponentSet,
    pub resource_reads: ResourceSet,
    pub resource_writes: ResourceSet,
}

impl System {
    /// Whether the system reads or writes components of `kind`.
    pub open spec fn touches_component(self, kind: ComponentKind) -> bool {
        self.component_reads.contains(kind) || self.component_writes.contains(kind)
    }

    /// Whether the system reads or writes the resource `kind`.
    pub open spec fn touches_resource(self, kind: ResourceKind) -> bool {
        self.resource_reads.contains(kind) || self.resource_writes.contains(kind)
    }

    /// Whether the two systems clash over the components of `kind`: one of
    /// them writes what the other reads or writes.
    pub open spec fn clashes_on_component(self, other: System, kind: ComponentKind) -> bool {
        ||| self.component_writes.contains(kind) && other.touches_component(kind)
        ||| other.component_writes.contains(kind) && self.touches_component(kind)
    }

    /// Whether the two systems clash over the resource `kind`.
    pub open spec fn clashes_on_resource(self, other: System, kind: ResourceKind) -> bool {
        ||| self.resource_writes.contains(kind) && other.touches_resource(kind)
        ||| other.resource_writes.contains(kind) && self.touches_resource(kind)
    }

    /// Whether the two systems may not run at the same time, nor change
    /// places: they clash over some kind of component or some resource.
    pub open spec fn conflicts(self, other: System) -> bool {
        ||| exists|kind: ComponentKind| self.clashes_on_component(other, kind)
        ||| exists|kind: ResourceKind| self.clashes_on_resource(other, kind)
    }

    /// The name of the system.
    pub fn name(&self) -> (text: &'static str)
        ensures
            text@ == match self.kind {
                SystemKind::MapEntityCollisionHandle => "map_entity_collision_handle"@,
                SystemKind::Movement => "movement"@,
                SystemKind::Collision => "collision"@,
                SystemKind::HandleBallBarrierCollision => "handle_ball_barrier_collision"@,
                SystemKind::DispatchRender => "dispatch_render"@,
            },
    {
        match self.kind {
            SystemKind::MapEntityCollisionHandle => "map_entity_collision_handle",
            SystemKind::Movement => "movement",
            SystemKind::Collision => "collision",
            SystemKind::HandleBallBarrierCollision => "handle_ball_barrier_collision",
            SystemKind::DispatchRender => "dispatch_render",
        }
    }

    /// Whether the two systems conflict.
    pub fn conflicts_with(&self, other: &System) -> (b: bool)
        ensures
            b == self.conflicts(*other),
    {
        let on_components = clash(
            self.component_writes.transformation,
            self.component_reads.transformation,
            other.component_writes.transformation,
            other.component_reads.transformation,
        ) || clash(
            self.component_writes.velocity,
            self.component_reads.velocity,
            other.component_writes.velocity,
            other.component_reads.velocity,
        ) || clash(
            self.component_writes.hitbox,
            self.component_reads.hitbox,
            other.component_writes.hitbox,
            other.component_reads.hitbox,
        ) || clash(
            self.component_writes.render_shape,
            self.component_reads.render_shape,
            other.component_writes.render_shape,
            other.component_reads.render_shape,
        );
        let on_resources = clash(
            self.resource_writes.handle_map,
            self.resource_reads.handle_map,
            other.resource_writes.handle_map,
            other.resource_reads.handle_map,
        ) || clash(
            self.resource_writes.spatial_index,
            self.resource_reads.spatial_index,
            other.resource_writes.spatial_index,
            other.resource_reads.spatial_index,
        ) || clash(
            self.resource_writes.colliders,
            self.resource_reads.colliders,
            other.resource_writes.colliders,
            other.resource_reads.colliders,
        ) || clash(
            self.resource_writes.render_infos,
            self.resource_reads.render_infos,
            other.resource_writes.render_infos,
            other.resource_reads.render_infos,
        );
        proof {
            let a = *self;
            let b = *other;
            assert(on_components == (a.clashes_on_component(b, ComponentKind::Transformation)
                || a.clashes_on_component(b, ComponentKind::Velocity) || a.clashes_on_component(
                b,
                ComponentKind::Hitbox,
            ) || a.clashes_on_component(b, ComponentKind::RenderShape)));
            assert(on_resources == (a.clashes_on_resource(b, ResourceKind::HandleMap)
                || a.clashes_on_resource(b, ResourceKind::SpatialIndex) || a.clashes_on_resource(
                b,
                ResourceKind::Colliders,
            ) || a.clashes_on_resource(b, ResourceKind::RenderInfos)));
            if !on_components {
                assert forall|kind: ComponentKind| !a.clashes_on_component(b, kind) by {
                    match kind {
                        ComponentKind::Transformation => {},
                        ComponentKind::Velocity => {},
                        ComponentKind::Hitbox => {},
                        ComponentKind::RenderShape => {},
                    }
                }
            }
            if !on_resources {
                assert forall|kind: ResourceKind| !a.clashes_on_resource(b, kind) by {
                    match kind {
                        ResourceKind::HandleMap => {},
                        ResourceKind::SpatialIndex => {},
                        ResourceKind::Colliders => {},
                        ResourceKind::RenderInfos => {},
                    }
                }
            }
        }
        on_components || on_resources
    }
}

/// Whether two systems clash over one thing, given who writes and who reads
/// it.
fn clash(writes: bool, reads: bool, other_writes: bool, other_reads: bool) -> (b: bool)
    ensures
        b == ((writes && (other_reads || other_writes)) || (other_writes && (reads || writes))),
{
    (writes && (other_reads || other_writes)) || (other_writes && (reads || writes))
}

/// What the movement step declares.
pub open spec fn movement_system() -> System {
    System {
        kind: SystemKind::Movement,
        component_reads: ComponentSet::empty().insert(ComponentKind::Velocity),
        component_writes: ComponentSet::empty().insert(ComponentKind::Transformation),
        resource_reads: ResourceSet::empty(),
        resource_writes: ResourceSet::empty(),
    }
}

/// What the registrar declares.
pub open spec fn registrar_system() -> System {
    System {
        kind: SystemKind::MapEntityCollisionHandle,
        component_reads: ComponentSet::empty(),
        component_writes: ComponentSet::empty().insert(ComponentKind::Hitbox),
        resource_reads: ResourceSet::empty(),
        resource_writes: ResourceSet::empty().insert(ResourceKind::HandleMap).insert(
            ResourceKind::SpatialIndex,
        ),
    }
}

/// What the collision detector declares.
pub open spec fn collision_system() -> System {
    System {
        kind: SystemKind::Collision,
        component_reads: ComponentSet::empty().insert(ComponentKind::Transformation),
        component_writes: ComponentSet::empty().insert(ComponentKind::Hitbox),
        resource_reads: ResourceSet::empty().insert(ResourceKind::HandleMap),
        resource_writes: ResourceSet::empty().insert(ResourceKind::SpatialIndex).insert(
            ResourceKind::Colliders,
        ),
    }
}

/// What the collision responder declares.
pub open spec fn responder_system() -> System {
    System {
        kind: SystemKind::HandleBallBarrierCollision,
        component_reads: ComponentSet::empty(),
        component_writes: ComponentSet::empty().insert(ComponentKind::Transformation),
        resource_reads: ResourceSet::empty().insert(ResourceKind::Colliders),
        resource_writes: ResourceSet::empty(),
    }
}

/// What the render dispatcher declares.
pub open spec fn render_system() -> System {
    System {
        kind: SystemKind::DispatchRender,
        component_reads: ComponentSet::empty().insert(ComponentKind::Transformation).insert(
            ComponentKind::RenderShape,
        ),
        component_writes: ComponentSet::empty(),
        resource_reads: ResourceSet::empty(),
        resource_writes: ResourceSet::empty().insert(ResourceKind::RenderInfos),
    }
}

/// The movement step writes transformations and reads velocities.
pub fn build_movement_system() -> (system: System)
    ensures
        system == movement_system(),
{
    System {
        kind: SystemKind::Movement,
        component_reads: ComponentSet::none().with(ComponentKind::Velocity),
        component_writes: ComponentSet::none().with(ComponentKind::Transformation),
        resource_reads: ResourceSet::none(),
        resource_writes: ResourceSet::none(),
    }
}

/// The registrar writes hitboxes, the handle map and the spatial index.
pub fn build_map_entity_collision_handle_system() -> (system: System)
    ensures
        system == registrar_system(),
{
    System {
        kind: SystemKind::MapEntityCollisionHandle,
        component_reads: ComponentSet::none(),
        component_writes: ComponentSet::none().with(ComponentKind::Hitbox),
        resource_reads: ResourceSet::none(),
        resource_writes: ResourceSet::none().with(ResourceKind::HandleMap).with(
            ResourceKind::SpatialIndex,
        ),
    }
}

/// The collision detector reads transformations and the handle map, and
/// writes hitboxes, the spatial index and the list of colliding pairs.
pub fn build_collision_system() -> (system: System)
    ensures
        system == collision_system(),
{
    System {
        kind: SystemKind::Collision,
        component_reads: ComponentSet::none().with(ComponentKind::Transformation),
        component_writes: ComponentSet::none().with(ComponentKind::Hitbox),
        resource_reads: ResourceSet::none().with(ResourceKind::HandleMap),
        resource_writes: ResourceSet::none().with(ResourceKind::SpatialIndex).with(
            ResourceKind::Colliders,
        ),
    }
}

/// The collision responder reads the list of colliding pairs and writes
/// transformations.
pub fn build_handle_ball_barrier_collision() -> (system: System)
    ensures
        system == responder_system(),
{
    System {
        kind: SystemKind::HandleBallBarrierCollision,
        component_reads: ComponentSet::none(),
        component_writes: ComponentSet::none().with(ComponentKind::Transformation),
        resource_reads: ResourceSet::none().with(ResourceKind::Colliders),
        resource_writes: ResourceSet::none(),
    }
}

/// The render dispatcher reads transformations and render shapes, and writes
/// the list of what to paint.
pub fn build_dispatch_render_system() -> (system: System)
    ensures
        system == render_system(),
{
    System {
        kind: SystemKind::DispatchRender,
        component_reads: ComponentSet::none().with(ComponentKind::Transformation).with(
            ComponentKind::RenderShape,
        ),
        component_writes: ComponentSet::none(),
        resource_reads: ResourceSet::none(),
        resource_writes: ResourceSet::none().with(ResourceKind::RenderInfos),
    }
}

/// One step of a schedule.
#[derive(Clone, Copy, Debug, PartialEq, Eq, Structural)]
pub enum Step {
    /// Run this system.
    Run(System),
    /// Everything before this point is done before anything after it starts.
    Barrier,
}

/// The steps of one tick, in the order in which they run.
pub struct Schedule {
    steps: Vec<Step>,
}

/// A schedule in the making.
pub struct Builder {
    steps: Vec<Step>,
}

impl View for Builder {
    type V = Seq<Step>;

    closed spec fn view(&self) -> Seq<Step> {
        self.steps@
    }
}

impl View for Schedule {
    type V = Seq<Step>;

    closed spec fn view(&self) -> Seq<Step> {
        self.steps@
    }
}

impl Builder {
    /// Adds a system behind the steps there are.
    pub fn add_system(self, system: System) -> (next: Builder)
        ensures
            next@ == self@.push(Step::Run(system)),
    {
        let mut steps = self.steps;
        steps.push(Step::Run(system));
        Builder { steps }
    }

    /// Adds a barrier behind the steps there are.
    pub fn flush(self) -> (next: Builder)
        ensures
            next@ == self@.push(Step::Barrier),
    {
        let mut steps = self.steps;
        steps.push(Step::Barrier);
        Builder { steps }
    }

    /// The schedule of the steps added so far.
    pub fn build(self) -> (schedule: Schedule)
        ensures
            schedule@ == self@,
    {
        Schedule { steps: self.steps }
    }
}

/// The steps of a tick: registrar and movement, a barrier, then the
/// collision detector, the collision responder and the render dispatcher.
pub open spec fn tick_steps() -> Seq<Step> {
    seq![
        Step::Run(registrar_system()),
        Step::Run(movement_system()),
        Step::Barrier,
        Step::Run(collision_system()),
        Step::Run(responder_system()),
        Step::Run(render_system()),
    ]
}

/// The systems of `steps` in the order in which they run, barriers left out.
pub open spec fn systems_of(steps: Seq<Step>) -> Seq<System>
    decreases steps.len(),
{
    if steps.len() == 0 {
        Seq::empty()
    } else {
        match steps.last() {
            Step::Run(system) => systems_of(steps.drop_last()).push(system),
            Step::Barrier => systems_of(steps.drop_last()),
        }
    }
}

/// Whether the step at `earlier` must be done before the step at `later`
/// may start: it stands before it, and either one of the two is a barrier or
/// the two systems conflict.
pub open spec fn must_precede(steps: Seq<Step>, earlier: int, later: int) -> bool {
    &&& 0 <= earlier < later < steps.len()
    &&& match (steps[earlier], steps[later]) {
        (Step::Run(a), Step::Run(b)) => a.conflicts(b),
        _ => true,
    }
}

impl Schedule {
    /// A schedule without steps, to add to.
    pub fn builder() -> (b: Builder)
        ensures
            b@ == Seq::<Step>::empty(),
    {
        Builder { steps: Vec::new() }
    }

    /// The schedule of a tick.
    pub fn tick() -> (schedule: Schedule)
        ensures
            schedule@ == tick_steps(),
    {
        let schedule = Schedule::builder().add_system(
            build_map_entity_collision_handle_system(),
        ).add_system(build_movement_system()).flush().add_system(
            build_collision_system(),
        ).add_system(build_handle_ball_barrier_collision()).add_system(
            build_dispatch_render_system(),
        ).build();
        assert(schedule@ =~= tick_steps());
        schedule
    }

    /// The number of steps.
    pub fn len(&self) -> (n: usize)
        ensures
            n == self@.len(),
    {
        self.steps.len()
    }

    /// The step at `at`.
    pub fn step(&self, at: usize) -> (step: Step)
        requires
            at < self@.len(),
        ensures
            step == self@[at as int],
    {
        self.steps[at]
    }

    /// The systems to run in one tick, in their order.
    pub fn systems(&self) -> (run: Vec<System>)
        ensures
            run@ == systems_of(self@),
    {
        let mut run: Vec<System> = Vec::new();
        let n = self.steps.len();
        let mut i: usize = 0;
        assert(self@.take(0) =~= Seq::<Step>::empty());
        while i < n
            invariant
                n == self@.len(),
                i <= n,
                run@ == systems_of(self@.take(i as int)),
            decreases n - i,
        {
            proof {
                let upto = self@.take(i + 1);
                assert(upto.drop_last() =~= self@.take(i as int));
                assert(upto.last() == self@[i as int]);
            }
            match self.steps[i] {
                Step::Run(system) => {
                    run.push(system);
                },
                Step::Barrier => {},
            }
            i += 1;
        }
        assert(self@.take(n as int) =~= self@);
        run
    }

    /// The steps that must be done before the step at `at` may start, in
    /// their order.
    pub fn dependencies(&self, at: usize) -> (before: Vec<usize>)
        requires
            at < self@.len(),
        ensures
            before@ == Seq::new(at as nat, |i: int| i as usize).filter(
                |i: usize| must_precede(self@, i as int, at as int),
            ),
    {
        let ghost all = Seq::new(at as nat, |i: int| i as usize);
        let ghost due = |i: usize| must_precede(self@, i as int, at as int);
        let mut before: Vec<usize> = Vec::new();
        let mut i: usize = 0;
        assert(all.take(0) =~= Seq::<usize>::empty());
        while i < at
            invariant
                at < self@.len(),
                i <= at,
                all == Seq::new(at as nat, |i: int| i as usize),
                due == |i: usize| must_precede(self@, i as int, at as int),
                before@ == all.take(i as int).filter(due),
            decreases at - i,
        {
            let needed = match (self.steps[i], self.steps[at]) {
                (Step::Run(a), Step::Run(b)) => a.conflicts_with(&b),
                _ => true,
            };
            proof {
                let upto = all.take(i as int);
                assert(all.take(i + 1) =~= upto.push(i));
                upto.lemma_filter_push(i, due);
            }
            if needed {
                before.push(i);
            }
            i += 1;
        }
        assert(all.take(at as int) =~= all);
        before
    }
}

/// The schedule of a tick honours what the systems need of each other: the
/// registrar and the movement step are done before the collision detector
/// starts, the detector before the responder, and movement and responder
/// before the render dispatcher. The registrar and the movement step share
/// nothing, so it does not matter which of the two runs first.
pub proof fn lemma_tick_order()
    ensures
        must_precede(tick_steps(), 0, 3) && registrar_system().conflicts(collision_system()),
        must_precede(tick_steps(), 1, 3) && movement_system().conflicts(collision_system()),
        must_precede(tick_steps(), 3, 4) && collision_system().conflicts(responder_system()),
        must_precede(tick_steps(), 1, 5) && movement_system().conflicts(render_system()),
        must_precede(tick_steps(), 4, 5) && responder_system().conflicts(render_system()),
        !registrar_system().conflicts(movement_system()),
        systems_of(tick_steps()) == seq![
            registrar_system(),
            movement_system(),
            collision_system(),
            responder_system(),
            render_system(),
        ],
{
    reveal_with_fuel(systems_of, 7);
    assert(tick_steps().drop_last().drop_last().drop_last().drop_last().drop_last().drop_last()
        =~= Seq::<Step>::empty());
    assert(systems_of(tick_steps()) =~= seq![
        registrar_system(),
        movement_system(),
        collision_system(),
        responder_system(),
        render_system(),
    ]);
    assert(registrar_system().clashes_on_resource(collision_system(), ResourceKind::HandleMap));
    assert(movement_system().clashes_on_component(
        collision_system(),
        ComponentKind::Transformation,
    ));
    assert(collision_system().clashes_on_resource(responder_system(), ResourceKind::Colliders));
    assert(movement_system().clashes_on_component(render_system(), ComponentKind::Transformation));
    assert(responder_system().clashes_on_component(
        render_system(),
        ComponentKind::Transformation,
    ));
    assert forall|kind: ComponentKind|
        !registrar_system().clashes_on_component(movement_system(), kind) by {
        match kind {
            ComponentKind::Transformation => {},
            ComponentKind::Velocity => {},
            ComponentKind::Hitbox => {},
            ComponentKind::RenderShape => {},
        }
    }
    assert forall|kind: ResourceKind|
        !registrar_system().clashes_on_resource(movement_system(), kind) by {
        match kind {
            ResourceKind::HandleMap => {},
            ResourceKind::SpatialIndex => {},
            ResourceKind::Colliders => {},
            ResourceKind::RenderInfos => {},
        }
    }
}

} // verus!
