//! Runtime core of a retained-mode UI application host.

pub mod accessibility;
pub mod application;
pub mod channels;
pub mod dispatch;
pub mod events;
pub mod geometry;
pub mod mutations;
pub mod platform;
pub mod render;
pub mod tree;
