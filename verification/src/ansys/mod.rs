//! The workflow that builds a model with ANSYS and exports it for LS-DYNA.

pub mod apdl;
pub mod assets;
pub mod config;
pub mod pipeline;
pub mod prompts;
pub mod repair;
pub mod report;
pub mod stage;
pub mod summary;
pub mod validate;
