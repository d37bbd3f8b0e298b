//! A keyboard-driven todo list: items, notes, nested categories, due dates,
//! the command palette and the line editor, with their contracts.

pub mod text;
pub mod date;
pub mod data;
pub mod commands;
pub mod defs;
pub mod clip;
pub mod menus;
pub mod input;
pub mod list;
pub mod theme;
pub mod config;
pub mod keys;
pub mod layout;
pub mod cli;
pub mod autosave;
pub mod hints;
pub mod app;

