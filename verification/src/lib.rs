//! Steam Achievement Manager: the logic behind the window, with its contracts.
//!
//! The modules mirror the program: `args` is the command line, `config` holds
//! the settings and the cached counts, `library` reads Steam's library files,
//! `search` ranks games for the search box, `steam` decides what a Steam reply
//! means, and `gui` holds the state of the window and every decision it makes.
//! `text` and `order` are the string and sorting tools they share.

pub mod args;
pub mod config;
pub mod gui;
pub mod library;
pub mod order;
pub mod search;
pub mod steam;
pub mod text;
