//! A Kanban board of projects, each with three columns of tasks
//! (not done, in progress, done), and the rules of the terminal
//! front end that edits it.

pub mod board;
pub mod clock;
pub mod display;
pub mod model;
pub mod text;
