//! Coordination library for scheduled and parallel coding agents.

pub mod agent;
pub mod agent_registry;
pub mod bootstrap;
pub mod cleanup;
pub mod code_review;
pub mod config;
pub mod duplication;
pub mod error;
pub mod executor;
pub mod ids;
pub mod json;
pub mod lock;
pub mod logging;
pub mod paths;
pub mod persistence;
pub mod scheduler;
pub mod sorting;
pub mod state;
pub mod task_registry;
pub mod text;
pub mod time;
pub mod workspace_config;

pub use error::{AutomationError, Result};
