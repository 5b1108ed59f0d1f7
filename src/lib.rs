//! A deterministic, event-sourced battle engine for turn-based games.
//!
//! Every change to a battle is an event. A server verifies and applies events,
//! records them in a history with contiguous ids and hands them to client sinks;
//! clients mirror the battle by receiving the same events in order.
pub mod assoc;
pub mod battle;
pub mod client;
pub mod entities;
pub mod entity;
pub mod error;
pub mod event;
pub mod metric;
pub mod rules;
pub mod server;
pub mod sink;
pub mod team;
pub mod trigger;
