//! A small two-dimensional arena: entities built from independent components,
//! advanced once per tick by a fixed pipeline of systems.
//!
//! The library is generic over the scalar type `S` in which lengths and angles
//! are measured. It never computes with scalars itself: every system that needs
//! arithmetic takes the operations it uses as function arguments, and its
//! contract says which operation produced which value.

pub mod components;
pub mod graphics;
pub mod schedule;
pub mod systems;
pub mod world;
