//! A daily guessing game over the functions of a standard library: the
//! signature parser, the function catalog, the game engine and the
//! tamper-evident progress store.

pub mod api;
pub mod crypto;
pub mod function;
pub mod game;
pub mod json;
pub mod laws;
pub mod lockfile;
pub mod state;
pub mod text;
pub mod theme;

pub use json::parse_builtin_types;
pub use state::{parse_functions_filtered, State, NEXT_CLUE_ATTEMPTS};
