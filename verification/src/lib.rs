//! A pomodoro timer with task folders: the state of the application, what
//! each key does to it, the export format of the tasks, and the text the
//! screen shows, with their specifications and proofs.
use vstd::prelude::*;

pub mod app;
pub mod clock;
pub mod display;
pub mod export;
pub mod folder;
pub mod keys;
pub mod laws;
pub mod text;
