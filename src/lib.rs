//! A personal task list: tasks with identifiers that are never reused, the
//! operations that change the list, its text listing, and the decision of
//! what each command does.

pub mod command;
pub mod laws;
pub mod render;
pub mod task;
