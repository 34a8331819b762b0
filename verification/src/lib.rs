//! The core of a which-key style command launcher: a tree of chord bindings,
//! the engine that replays the pressed chords against it, the table of global
//! hotkeys that follows the active layer, and the splitting of a command line
//! into a program and its arguments. The window, the hotkey subsystem and the
//! spawning of processes belong to the program around it.

pub mod binding;
pub mod config;
pub mod dispatch;
pub mod engine;
pub mod menu;
pub mod session;
pub mod shortcuts;
