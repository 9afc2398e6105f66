//! Exobiology survey tracking: route progress, planet checklists and the
//! decisions behind the terminal view, over plain models of the game state.
pub mod args;
pub mod clipboard;
pub mod game;
pub mod route;
pub mod screen;
pub mod survey;
pub mod systems;
pub mod text;
pub mod ui;
