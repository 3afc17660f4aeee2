//! Verified core of the COSMIC application board: the persistent launcher
//! configuration (groups, Launchpad pages and their spatial tile layouts),
//! the board geometry and search, and the decisions the launcher window takes.
pub mod app_group;
pub mod board;
pub mod catalog;
pub mod commands;
pub mod ids;
pub mod keys;
pub mod laws;
pub mod launcher;
pub mod layout;
pub mod order;
pub mod settings;
pub mod sort;
pub mod tasks;
pub mod text;
