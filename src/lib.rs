//! Per-tick update core of a real-time engine: a double-buffered event
//! queue, a deferred command queue, a callback scheduler and the entity
//! world that the commands mutate.

pub mod events;
pub mod world;
pub mod commands;
pub mod scheduler;
pub mod game;
