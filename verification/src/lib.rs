//! Decision logic of a launcher for Rogue Legacy 2: where the game's files lie,
//! which mods are enabled, what a launch writes and starts, and how the window
//! answers its title bar.

pub mod frontend;
pub mod json;
pub mod launch;
pub mod manifest;
pub mod paths;
pub mod selection;
pub mod window;
