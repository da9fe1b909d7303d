//! The systems of one tick, in the order in which a tick runs them:
//! registrar, movement, collision detector, collision responder and render
//! dispatcher.

pub mod collision;
pub mod movement;
pub mod registrar;
pub mod render;
pub mod response;

pub use collision::{collision_poses, do_collision, knows_all};
pub use movement::do_movement;
pub use registrar::{map_entity_collision_handle, unregistered_hitboxes};
pub use render::dispatch_render;
pub use response::{
    balls_have_transformations, handle_ball_barrier_collision, sort_collision_pair_by_tag,
};
