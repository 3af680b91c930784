//! A turn-based simulation coordinator. Actors advance through discrete
//! ticks, each running the timed phases of a pluggable activity, while a
//! global state machine (PreTick, Tick, PostTick) gates every transition on
//! aggregate predicates over the actors' status tags and a round-robin queue
//! arbitrates a single manual-input slot. A rock-paper-scissors ruleset shows
//! the coordinator driving a small game.

pub mod activity;
pub mod coordinator;
pub mod input;
pub mod rps;
pub mod tick;
