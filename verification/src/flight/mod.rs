//! The flight: one animated layout change, from composition to lift.
pub mod chase;
pub mod compose;
pub mod decision;
pub mod engine;
pub mod group;
pub mod landing;
pub mod lift;
pub mod plan;
pub mod running;
pub mod stack;
