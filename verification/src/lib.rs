//! A store of named shell commands and the rules for keeping it on disk.

pub mod cli;
pub mod command_map;
pub mod commands;
pub mod file_management;
pub mod loader;
pub mod model;
pub mod name_order;
