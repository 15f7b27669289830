//! Verified core of an agent that writes, runs and repairs ANSYS command streams.

pub mod ansys;
pub mod cli;
pub mod clip;
pub mod clock;
pub mod conversation;
pub mod history;
pub mod messages;
pub mod number;
pub mod order;
pub mod session;
pub mod skills;
pub mod text;
pub mod tools;
pub mod turn;
pub mod ui;
