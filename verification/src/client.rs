//! The pull-based session layer: the connection state machine, the
//! connected session client with its buffered inbound events, and the
//! resolved item type the session hands to the reconciliation logic.

pub mod connected;
pub mod connection;
pub mod game_data_wrapper;
pub mod item;
