//! What clients and the window manager say to each other, whatever carries it.
pub mod commands;
pub mod events;
pub mod queries;
pub mod transport;
