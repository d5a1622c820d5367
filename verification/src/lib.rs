//! The logic of a scrolling tiling window manager.
pub mod app_rules;
pub mod binding;
pub mod capture;
pub mod config;
pub mod displays;
pub mod fit;
pub mod flight;
pub mod frame_writes;
pub mod geometry;
pub mod ids;
pub mod ipc;
pub mod keyed;
pub mod listing;
pub mod mach;
pub mod pass;
pub mod paths;
pub mod power;
pub mod protocol;
pub mod snapshot;
pub mod suggest;
pub mod surface;
pub mod text;
pub mod tile;
pub mod time;
pub mod timer;
pub mod travel;
