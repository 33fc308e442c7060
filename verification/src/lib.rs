//! A small terminal arcade-shooter simulation core: a depth-ordered
//! character-buffer compositor, axis-aligned collision detection, and an
//! event-driven entity lifecycle state machine, all over an explicit entity
//! registry with fixed-point (milli-cell) coordinates.

pub mod app;
pub mod buffer;
pub mod collider;
pub mod enemy;
pub mod entity;
pub mod event;
pub mod frame;
pub mod level;
pub mod math;
pub mod player;
pub mod sprite;
pub mod terminal;
pub mod timer;
pub mod weapon;
