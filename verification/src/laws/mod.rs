//! What holds of the library as a whole.

pub mod display;
pub mod events;
pub mod extraction;
pub mod lines;
pub mod numbers;
pub mod picker;
pub mod runs;
pub mod screen;
pub mod search;
pub mod sources;
pub mod tokens;
pub mod views;
