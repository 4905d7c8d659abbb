//! Core of a classic snake game on a bounded grid: a segmented snake moves,
//! eats food to grow, and dies on wall or self collision. Rendering and the
//! window event loop are outside collaborators; this crate holds the verified
//! game logic they drive.

pub mod draw;
pub mod game;
pub mod snake;
