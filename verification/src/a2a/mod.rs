//! The interface for agents of other systems.

pub mod handlers;
pub mod state;
pub mod subscribers;
pub mod types;
