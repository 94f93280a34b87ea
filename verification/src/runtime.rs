//! The runtime of a coordinator: what its leaders and hosts decide.
pub mod admin;
pub mod admin_laws;
pub mod admin_record;
pub mod allocation;
pub mod claims;
pub mod command_laws;
pub mod config;
pub mod control;
pub mod departure_laws;
pub mod election;
pub mod error_laws;
pub mod errors;
pub mod handoff;
pub mod handoff_laws;
pub mod handoffs;
pub mod host;
pub mod laws;
pub mod leadership_laws;
pub mod members;
pub mod moves;
pub mod placing_laws;
pub mod planning;
pub mod planning_laws;
pub mod recovery;
pub mod recovery_laws;
pub mod registration;
pub mod registration_laws;
pub mod renewal;
pub mod snapshot;
pub mod state;
pub mod takeover;
pub mod text_laws;
pub mod view;
pub mod view_laws;

pub use crate::runtime::config::CoordinatorLeaderConfig;
pub use crate::runtime::errors::CoordinatorRuntimeError;
pub use crate::runtime::state::CoordinatorLeader;
