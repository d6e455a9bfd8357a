//! A single-user task manager: a command-line parser, the project and task
//! model, and the state transitions that each command performs.

pub mod app_state;
pub mod command;
pub mod hierarchy;
pub mod lemmas;
pub mod storage;
pub mod text;
