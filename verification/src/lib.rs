//! Core of a terminal typing test: a generator that lays practice text out in
//! wrapped lines of cells, and an engine that scores keystrokes against them.

pub mod application;
pub mod cell;
pub mod chance;
pub mod clock;
pub mod colorscheme;
pub mod config;
pub mod database;
pub mod handlers;
pub mod helpers;
pub mod langs;
pub mod laws;
pub mod layout_laws;
pub mod line_lemmas;
pub mod menu;
pub mod model;
pub mod model_lemmas;
pub mod punctuation;
pub mod settings;
pub mod storage;
pub mod typer;
pub mod utils;
pub mod wrap;
