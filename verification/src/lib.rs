//! The decisions of an interactive terminal picker for colour themes: what each key
//! does to the list of themes, what stands on the screen, and what the favourites file
//! holds. Reading keys, writing to the terminal and touching files is left to the
//! program around this library.
pub mod display;
pub mod favourites;
pub mod keys;
pub mod list;
pub mod preview;
pub mod screen;
pub mod search;
pub mod session;
pub mod state;
pub mod text;
pub mod theme;
pub mod usage;
