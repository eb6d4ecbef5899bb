//! A pull-based multiworld game-state synchronization client: a
//! connection state machine fed by a background transport, a session
//! client with buffered inbound events, a persistent local progress
//! store with a checked binary encoding, and the per-tick reconciliation
//! logic that keeps the remote session and the local save consistent.

pub mod client;
pub mod codec;
pub mod config;
pub mod item;
pub mod protocol;
pub mod reconcile;
pub mod save_data;
pub mod slot_data;
pub mod text_input_history;
