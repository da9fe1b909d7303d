use arena::components::{
    Ball, Barrier, BoxShape, Components, Goal, Hitbox, RenderInfo, RenderShape, Tags,
    Transformation, Vec2, Velocity,
};
use arena::systems::collision::{collision_poses, do_collision, knows_all, Pose};
use arena::systems::movement::do_movement;
use arena::systems::registrar::{
    map_entity_collision_handle, unregistered_hitboxes, HandleMap, HandleTaken,
};
use arena::systems::render::dispatch_render;
use arena::systems::response::{
    balls_have_transformations, handle_ball_barrier_collision, sort_collision_pair_by_tag,
};
use arena::world::{Entity, World};

fn plus(a: f32, b: f32) -> f32 {
    a + b
}

fn minus(a: f32, b: f32) -> f32 {
    a - b
}

fn times(a: f32, b: f32) -> f32 {
    a * b
}

fn negate(a: f32) -> f32 {
    -a
}

fn close(a: f32, b: f32) -> bool {
    if a == b {
        return true;
    }
    if a.is_infinite() || b.is_infinite() {
        return false;
    }
    let difference = (a - b).abs();
    difference <= f32::EPSILON || difference <= a.abs().max(b.abs()) * f32::EPSILON
}

fn near(a: f32, b: f32) -> bool {
    (a - b).abs() <= 1.0e-5
}

fn placed(x: f32, y: f32, rotation: f32) -> Transformation<f32> {
    Transformation { location: Vec2::new(x, y), scale: Vec2::new(1.0, 1.0), rotation }
}

fn boxed(hx: f32, hy: f32) -> Hitbox<f32> {
    Hitbox { shape: BoxShape { half_extents: Vec2::new(hx, hy) }, slap_handle: None }
}

#[test]
fn test_movement_system() {
    let mut world: World<f32> = World::new();
    world.create(
        Tags::none(),
        Components {
            transformation: Some(Transformation {
                location: Vec2::new(5.0, 5.0),
                scale: Vec2::new(1.0, 1.0),
                rotation: 0.0,
            }),
            velocity: Some(Velocity { velocity: 5.0 }),
            ..Components::none()
        },
    );
    do_movement(&mut world, f32::cos, f32::sin, times, plus);
    for one_entity in world.entities().into_iter().take(1) {
        assert!(world.transformation(one_entity).is_some());
        let location = world.transformation(one_entity).unwrap().location;
        assert!(close(location.x, 10.0));
        assert!(close(location.y, 5.0));
        assert!(world.velocity(one_entity).is_some());
    }
    assert_eq!(world.len(), 1);
}

#[test]
fn movement_follows_the_heading() {
    let mut world: World<f32> = World::new();
    let up = world.create(
        Tags::none(),
        Components {
            transformation: Some(placed(1.0, 2.0, std::f32::consts::FRAC_PI_2)),
            velocity: Some(Velocity { velocity: 4.0 }),
            ..Components::none()
        },
    );
    let back = world.create(
        Tags::none(),
        Components {
            transformation: Some(placed(0.0, 0.0, std::f32::consts::PI)),
            velocity: Some(Velocity { velocity: 3.0 }),
            ..Components::none()
        },
    );
    do_movement(&mut world, f32::cos, f32::sin, times, plus);
    let moved_up = world.transformation(up).unwrap();
    assert!(near(moved_up.location.x, 1.0));
    assert!(near(moved_up.location.y, 6.0));
    assert_eq!(moved_up.rotation, std::f32::consts::FRAC_PI_2);
    assert_eq!(moved_up.scale, Vec2::new(1.0, 1.0));
    let moved_back = world.transformation(back).unwrap();
    assert!(near(moved_back.location.x, -3.0));
    assert!(near(moved_back.location.y, 0.0));
}

#[test]
fn movement_computes_exactly_location_plus_velocity_times_heading() {
    let rotation = 0.7f32;
    let velocity = 0.03f32;
    let mut world: World<f32> = World::new();
    let e = world.create(
        Tags::none(),
        Components {
            transformation: Some(placed(300.0, 300.0, rotation)),
            velocity: Some(Velocity { velocity }),
            ..Components::none()
        },
    );
    do_movement(&mut world, f32::cos, f32::sin, times, plus);
    let location = world.transformation(e).unwrap().location;
    assert_eq!(location.x, 300.0 + rotation.cos() * velocity);
    assert_eq!(location.y, 300.0 + rotation.sin() * velocity);
}

#[test]
fn movement_leaves_entities_without_velocity_or_transformation_alone() {
    let mut world: World<f32> = World::new();
    let still = world.create(
        Tags::none().with::<Barrier>(),
        Components {
            transformation: Some(placed(600.0, 300.0, 1.0)),
            hitbox: Some(boxed(2.0, 40.0)),
            ..Components::none()
        },
    );
    let drifting = world.create(
        Tags::none(),
        Components { velocity: Some(Velocity { velocity: 9.0 }), ..Components::none() },
    );
    let before_still = world.components(still);
    let before_drifting = world.components(drifting);
    do_movement(&mut world, f32::cos, f32::sin, times, plus);
    assert_eq!(world.components(still), before_still);
    assert_eq!(world.components(drifting), before_drifting);
    assert_eq!(world.tags(still), Some(Tags::none().with::<Barrier>()));
}

#[test]
fn movement_uses_the_operations_it_is_given() {
    let mut world: World<f32> = World::new();
    let e = world.create(
        Tags::none(),
        Components {
            transformation: Some(placed(5.0, 5.0, 0.0)),
            velocity: Some(Velocity { velocity: 5.0 }),
            ..Components::none()
        },
    );
    do_movement(&mut world, |_| 2.0, |_| 3.0, times, minus);
    let location = world.transformation(e).unwrap().location;
    assert_eq!(location, Vec2::new(5.0 - 2.0 * 5.0, 5.0 - 3.0 * 5.0));
}

#[test]
fn registrar_lists_hitboxes_without_handle() {
    let mut world: World<f32> = World::new();
    let a = world.create(
        Tags::none(),
        Components { hitbox: Some(boxed(5.0, 5.0)), ..Components::none() },
    );
    let _plain = world.create(Tags::none(), Components::none());
    let registered = world.create(
        Tags::none(),
        Components {
            hitbox: Some(Hitbox { slap_handle: Some(4), ..boxed(1.0, 1.0) }),
            ..Components::none()
        },
    );
    let b = world.create(
        Tags::none(),
        Components { hitbox: Some(boxed(2.0, 40.0)), ..Components::none() },
    );
    let pending = unregistered_hitboxes(&world);
    assert_eq!(
        pending,
        vec![
            (a, BoxShape { half_extents: Vec2::new(5.0, 5.0) }),
            (b, BoxShape { half_extents: Vec2::new(2.0, 40.0) }),
        ]
    );
    assert_eq!(world.hitbox(registered).unwrap().slap_handle, Some(4));
}

#[test]
fn registrar_records_the_handle_on_hitbox_and_map() {
    let mut world: World<f32> = World::new();
    let mut map = HandleMap::new();
    let a = world.create(
        Tags::none(),
        Components { hitbox: Some(boxed(5.0, 5.0)), ..Components::none() },
    );
    let b = world.create(
        Tags::none(),
        Components { hitbox: Some(boxed(5.0, 5.0)), ..Components::none() },
    );
    assert_eq!(map_entity_collision_handle(&mut world, &mut map, a, 10), Ok(()));
    assert_eq!(map_entity_collision_handle(&mut world, &mut map, b, 11), Ok(()));
    assert_eq!(world.hitbox(a).unwrap().slap_handle, Some(10));
    assert_eq!(world.hitbox(b).unwrap().slap_handle, Some(11));
    assert_eq!(world.hitbox(a).unwrap().shape, BoxShape { half_extents: Vec2::new(5.0, 5.0) });
    assert_eq!(map.len(), 2);
    assert_eq!(map.get(&10), Some(&a));
    assert_eq!(map.get(&11), Some(&b));
    assert!(unregistered_hitboxes(&world).is_empty());
}

#[test]
fn registrar_does_nothing_for_a_registered_hitbox() {
    let mut world: World<f32> = World::new();
    let mut map = HandleMap::new();
    let a = world.create(
        Tags::none(),
        Components { hitbox: Some(boxed(5.0, 5.0)), ..Components::none() },
    );
    assert_eq!(map_entity_collision_handle(&mut world, &mut map, a, 10), Ok(()));
    assert_eq!(map_entity_collision_handle(&mut world, &mut map, a, 11), Ok(()));
    assert_eq!(map_entity_collision_handle(&mut world, &mut map, a, 10), Ok(()));
    assert_eq!(world.hitbox(a).unwrap().slap_handle, Some(10));
    assert_eq!(map.len(), 1);
    assert_eq!(map.get(&10), Some(&a));
    assert_eq!(map.get(&11), None);
}

#[test]
fn registrar_does_nothing_without_a_hitbox() {
    let mut world: World<f32> = World::new();
    let mut map = HandleMap::new();
    let plain = world.create(
        Tags::none(),
        Components { transformation: Some(placed(0.0, 0.0, 0.0)), ..Components::none() },
    );
    let gone = Entity { index: 5, generation: 0 };
    assert_eq!(map_entity_collision_handle(&mut world, &mut map, plain, 1), Ok(()));
    assert_eq!(map_entity_collision_handle(&mut world, &mut map, gone, 2), Ok(()));
    assert!(map.is_empty());
    assert!(world.hitbox(plain).is_none());
}

#[test]
fn registrar_refuses_a_handle_that_is_taken() {
    let mut world: World<f32> = World::new();
    let mut map = HandleMap::new();
    let a = world.create(
        Tags::none(),
        Components { hitbox: Some(boxed(5.0, 5.0)), ..Components::none() },
    );
    let b = world.create(
        Tags::none(),
        Components { hitbox: Some(boxed(1.0, 1.0)), ..Components::none() },
    );
    assert_eq!(map_entity_collision_handle(&mut world, &mut map, a, 10), Ok(()));
    let refused = map_entity_collision_handle(&mut world, &mut map, b, 10);
    assert_eq!(refused, Err(HandleTaken { handle: 10, holder: a }));
    assert_eq!(
        refused.unwrap_err().message(),
        "entries in the entity collision handle map should logically not be swapped"
    );
    assert_eq!(world.hitbox(b).unwrap().slap_handle, None);
    assert_eq!(map.len(), 1);
    assert_eq!(map.get(&10), Some(&a));
    assert_eq!(unregistered_hitboxes(&world).len(), 1);
}

#[test]
fn poses_are_given_for_registered_hitboxes_only() {
    let mut world: World<f32> = World::new();
    let mut map = HandleMap::new();
    let a = world.create(
        Tags::none(),
        Components {
            transformation: Some(Transformation {
                location: Vec2::new(3.0, 4.0),
                scale: Vec2::new(7.0, 7.0),
                rotation: 0.5,
            }),
            hitbox: Some(boxed(5.0, 5.0)),
            ..Components::none()
        },
    );
    let _unregistered = world.create(
        Tags::none(),
        Components {
            transformation: Some(placed(1.0, 1.0, 0.0)),
            hitbox: Some(boxed(5.0, 5.0)),
            ..Components::none()
        },
    );
    let no_place = world.create(
        Tags::none(),
        Components { hitbox: Some(boxed(5.0, 5.0)), ..Components::none() },
    );
    let _no_box = world.create(
        Tags::none(),
        Components { transformation: Some(placed(2.0, 2.0, 0.0)), ..Components::none() },
    );
    map_entity_collision_handle(&mut world, &mut map, a, 8).unwrap();
    map_entity_collision_handle(&mut world, &mut map, no_place, 9).unwrap();
    assert_eq!(
        collision_poses(&world),
        vec![Pose { handle: 8, location: Vec2::new(3.0, 4.0), rotation: 0.5 }]
    );
}

#[test]
fn collision_pairs_are_resolved_through_the_handle_map() {
    let a = Entity { index: 0, generation: 0 };
    let b = Entity { index: 1, generation: 0 };
    let c = Entity { index: 2, generation: 0 };
    let mut map = HandleMap::new();
    map.insert(5, a);
    map.insert(6, b);
    map.insert(7, c);
    let mut colliders: Vec<[Entity; 2]> = Vec::new();
    do_collision(&map, &vec![(5, 6), (7, 5)], &mut colliders);
    assert_eq!(colliders, vec![[a, b], [c, a]]);
}

#[test]
fn collision_pairs_replace_those_of_the_tick_before() {
    let a = Entity { index: 0, generation: 0 };
    let b = Entity { index: 1, generation: 0 };
    let mut map = HandleMap::new();
    map.insert(0, a);
    map.insert(1, b);
    let mut colliders: Vec<[Entity; 2]> = vec![[b, b], [a, a], [b, a]];
    do_collision(&map, &vec![(0, 1)], &mut colliders);
    assert_eq!(colliders, vec![[a, b]]);
    do_collision(&map, &vec![(0, 1)], &mut colliders);
    assert_eq!(colliders, vec![[a, b]]);
    do_collision(&map, &vec![], &mut colliders);
    assert!(colliders.is_empty());
}

#[test]
fn knows_all_tells_whether_every_handle_is_mapped() {
    let a = Entity { index: 0, generation: 0 };
    let mut map = HandleMap::new();
    map.insert(0, a);
    map.insert(1, a);
    assert!(knows_all(&map, &vec![]));
    assert!(knows_all(&map, &vec![(0, 1), (1, 0)]));
    assert!(!knows_all(&map, &vec![(0, 1), (2, 0)]));
    assert!(!knows_all(&map, &vec![(0, 3)]));
}

#[test]
fn test_ball_paddle_collision() {
    let mut world: World<f32> = World::new();
    let ball = world.create(
        Tags::none().with::<Ball>(),
        Components {
            transformation: Some(Transformation {
                location: Vec2::new(0.0, 0.0),
                rotation: 0.0,
                scale: Vec2::new(1.0, 1.0),
            }),
            ..Components::none()
        },
    );
    let paddle = world.create(
        Tags::none().with::<Barrier>(),
        Components {
            transformation: Some(Transformation {
                location: Vec2::new(0.0, 0.0),
                rotation: 0.0,
                scale: Vec2::new(1.0, 1.0),
            }),
            ..Components::none()
        },
    );
    let entities = [ball, paddle];
    let colliders = vec![entities];
    handle_ball_barrier_collision(&mut world, &colliders, plus, std::f32::consts::PI);
    let trans = world.transformation(ball).unwrap();
    assert!(close(trans.rotation, std::f32::consts::PI));
    assert_eq!(world.transformation(paddle).unwrap().rotation, 0.0);
}

#[test]
fn ball_turns_whichever_side_of_the_pair_it_is_on() {
    let mut world: World<f32> = World::new();
    let wall = world.create(
        Tags::none().with::<Barrier>(),
        Components { transformation: Some(placed(0.0, 0.0, 0.25)), ..Components::none() },
    );
    let ball = world.create(
        Tags::none().with::<Ball>(),
        Components { transformation: Some(placed(1.0, 1.0, 0.5)), ..Components::none() },
    );
    handle_ball_barrier_collision(&mut world, &vec![[wall, ball]], plus, std::f32::consts::PI);
    assert_eq!(world.transformation(ball).unwrap().rotation, 0.5 + std::f32::consts::PI);
    assert_eq!(world.transformation(ball).unwrap().location, Vec2::new(1.0, 1.0));
    assert_eq!(world.transformation(wall).unwrap().rotation, 0.25);
}

#[test]
fn rotation_is_not_wrapped_around() {
    let mut world: World<f32> = World::new();
    let ball = world.create(
        Tags::none().with::<Ball>(),
        Components { transformation: Some(placed(0.0, 0.0, 6.0)), ..Components::none() },
    );
    let wall = world.create(
        Tags::none().with::<Barrier>(),
        Components { transformation: Some(placed(0.0, 0.0, 0.0)), ..Components::none() },
    );
    let colliders = vec![[ball, wall], [wall, ball], [ball, wall]];
    handle_ball_barrier_collision(&mut world, &colliders, plus, std::f32::consts::PI);
    let pi = std::f32::consts::PI;
    assert_eq!(world.transformation(ball).unwrap().rotation, ((6.0 + pi) + pi) + pi);
    assert!(world.transformation(ball).unwrap().rotation > 2.0 * pi);
}

#[test]
fn pairs_without_ball_and_barrier_change_nothing() {
    let mut world: World<f32> = World::new();
    let ball = world.create(
        Tags::none().with::<Ball>(),
        Components { transformation: Some(placed(0.0, 0.0, 1.0)), ..Components::none() },
    );
    let other_ball = world.create(
        Tags::none().with::<Ball>(),
        Components { transformation: Some(placed(0.0, 0.0, 2.0)), ..Components::none() },
    );
    let goal = world.create(
        Tags::none().with::<Goal>(),
        Components { transformation: Some(placed(0.0, 0.0, 3.0)), ..Components::none() },
    );
    let wall = world.create(
        Tags::none().with::<Barrier>(),
        Components { transformation: Some(placed(0.0, 0.0, 4.0)), ..Components::none() },
    );
    let plain = world.create(Tags::none(), Components::none());
    let colliders =
        vec![[ball, other_ball], [ball, goal], [goal, ball], [wall, wall], [plain, wall], [goal, wall]];
    handle_ball_barrier_collision(&mut world, &colliders, plus, std::f32::consts::PI);
    assert_eq!(world.transformation(ball).unwrap().rotation, 1.0);
    assert_eq!(world.transformation(other_ball).unwrap().rotation, 2.0);
    assert_eq!(world.transformation(goal).unwrap().rotation, 3.0);
    assert_eq!(world.transformation(wall).unwrap().rotation, 4.0);
}

#[test]
fn sort_by_tag_puts_the_first_tag_first() {
    let mut world: World<f32> = World::new();
    let ball = world.create(Tags::none().with::<Ball>(), Components::none());
    let wall = world.create(Tags::none().with::<Barrier>(), Components::none());
    let goal = world.create(Tags::none().with::<Goal>(), Components::none());
    assert_eq!(
        sort_collision_pair_by_tag::<Ball, Barrier, f32>(&world, &[ball, wall]),
        Some((ball, wall))
    );
    assert_eq!(
        sort_collision_pair_by_tag::<Ball, Barrier, f32>(&world, &[wall, ball]),
        Some((ball, wall))
    );
    assert_eq!(
        sort_collision_pair_by_tag::<Barrier, Ball, f32>(&world, &[ball, wall]),
        Some((wall, ball))
    );
    assert_eq!(
        sort_collision_pair_by_tag::<Ball, Goal, f32>(&world, &[goal, ball]),
        Some((ball, goal))
    );
    assert_eq!(sort_collision_pair_by_tag::<Ball, Barrier, f32>(&world, &[ball, goal]), None);
    assert_eq!(sort_collision_pair_by_tag::<Ball, Barrier, f32>(&world, &[wall, goal]), None);
    assert_eq!(sort_collision_pair_by_tag::<Ball, Barrier, f32>(&world, &[ball, ball]), None);
    let stranger = Entity { index: 9, generation: 0 };
    assert_eq!(sort_collision_pair_by_tag::<Ball, Barrier, f32>(&world, &[ball, stranger]), None);
}

#[test]
fn sort_by_tag_looks_at_the_first_entity_first() {
    let mut world: World<f32> = World::new();
    let both = world.create(Tags::none().with::<Ball>().with::<Barrier>(), Components::none());
    let ball = world.create(Tags::none().with::<Ball>(), Components::none());
    let other_both =
        world.create(Tags::none().with::<Ball>().with::<Barrier>(), Components::none());
    assert_eq!(
        sort_collision_pair_by_tag::<Ball, Barrier, f32>(&world, &[both, other_both]),
        Some((both, other_both))
    );
    assert_eq!(
        sort_collision_pair_by_tag::<Ball, Barrier, f32>(&world, &[other_both, both]),
        Some((other_both, both))
    );
    assert_eq!(
        sort_collision_pair_by_tag::<Ball, Barrier, f32>(&world, &[ball, both]),
        Some((ball, both))
    );
    assert_eq!(sort_collision_pair_by_tag::<Ball, Barrier, f32>(&world, &[both, ball]), None);
}

#[test]
fn render_emits_the_four_corners_in_order() {
    let mut world: World<f32> = World::new();
    world.create(
        Tags::none(),
        Components {
            transformation: Some(placed(0.0, 0.0, 0.0)),
            render_shape: Some(RenderShape {
                color: [1.0, 0.0, 0.0],
                half_extents: Vec2::new(10.0, 10.0),
            }),
            ..Components::none()
        },
    );
    let mut infos: Vec<RenderInfo<f32>> = Vec::new();
    dispatch_render(&world, &mut infos, plus, minus, negate);
    assert_eq!(infos.len(), 1);
    assert_eq!(infos[0].shape.len(), 4);
    assert_eq!(
        infos[0].shape,
        vec![
            Vec2::new(-10.0, 10.0),
            Vec2::new(-10.0, -10.0),
            Vec2::new(10.0, 10.0),
            Vec2::new(10.0, -10.0),
        ]
    );
    assert_eq!(infos[0].color, [1.0, 0.0, 0.0]);
}

#[test]
fn render_translates_but_does_not_rotate() {
    let mut world: World<f32> = World::new();
    world.create(
        Tags::none(),
        Components {
            transformation: Some(Transformation {
                location: Vec2::new(600.0, 300.0),
                scale: Vec2::new(3.0, 3.0),
                rotation: 1.0,
            }),
            render_shape: Some(RenderShape {
                color: [0.0, 1.0, 1.0],
                half_extents: Vec2::new(2.0, 40.0),
            }),
            ..Components::none()
        },
    );
    let mut infos: Vec<RenderInfo<f32>> = Vec::new();
    dispatch_render(&world, &mut infos, plus, minus, negate);
    assert_eq!(
        infos,
        vec![RenderInfo {
            shape: vec![
                Vec2::new(598.0, 340.0),
                Vec2::new(598.0, 260.0),
                Vec2::new(602.0, 340.0),
                Vec2::new(602.0, 260.0),
            ],
            color: [0.0, 1.0, 1.0],
        }]
    );
}

#[test]
fn render_list_is_rebuilt_not_appended_to() {
    let mut world: World<f32> = World::new();
    let shape = RenderShape { color: [0.5, 0.5, 0.5], half_extents: Vec2::new(1.0, 1.0) };
    world.create(
        Tags::none(),
        Components {
            transformation: Some(placed(1.0, 1.0, 0.0)),
            render_shape: Some(shape),
            ..Components::none()
        },
    );
    world.create(Tags::none(), Components { render_shape: Some(shape), ..Components::none() });
    world.create(
        Tags::none(),
        Components { transformation: Some(placed(2.0, 2.0, 0.0)), ..Components::none() },
    );
    world.create(
        Tags::none(),
        Components {
            transformation: Some(placed(3.0, 3.0, 0.0)),
            render_shape: Some(shape),
            ..Components::none()
        },
    );
    let mut infos: Vec<RenderInfo<f32>> =
        vec![RenderInfo { shape: vec![Vec2::new(9.0, 9.0)], color: [9.0, 9.0, 9.0] }];
    dispatch_render(&world, &mut infos, plus, minus, negate);
    assert_eq!(infos.len(), 2);
    let first = infos.clone();
    dispatch_render(&world, &mut infos, plus, minus, negate);
    assert_eq!(infos.len(), 2);
    assert_eq!(infos, first);
    assert_eq!(infos[0].shape[2], Vec2::new(2.0, 2.0));
    assert_eq!(infos[1].shape[2], Vec2::new(4.0, 4.0));
}

#[test]
fn render_of_an_empty_world_is_empty() {
    let world: World<f32> = World::new();
    let mut infos: Vec<RenderInfo<f32>> =
        vec![RenderInfo { shape: Vec::new(), color: [0.0, 0.0, 0.0] }];
    dispatch_render(&world, &mut infos, plus, minus, negate);
    assert!(infos.is_empty());
}

#[test]
fn balls_without_transformation_are_found_before_responding() {
    let mut world: World<f32> = World::new();
    let ball = world.create(
        Tags::none().with::<Ball>(),
        Components { transformation: Some(placed(0.0, 0.0, 0.0)), ..Components::none() },
    );
    let ghost_ball = world.create(Tags::none().with::<Ball>(), Components::none());
    let wall = world.create(Tags::none().with::<Barrier>(), Components::none());
    let goal = world.create(Tags::none().with::<Goal>(), Components::none());
    assert!(balls_have_transformations(&world, &vec![]));
    assert!(balls_have_transformations(&world, &vec![[ball, wall], [wall, ball]]));
    assert!(balls_have_transformations(&world, &vec![[ghost_ball, goal], [ghost_ball, ball]]));
    assert!(!balls_have_transformations(&world, &vec![[ball, wall], [wall, ghost_ball]]));
    assert!(!balls_have_transformations(&world, &vec![[ghost_ball, wall]]));
}
