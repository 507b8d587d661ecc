//! Game-logic core of a grid-based strategy game: a chunked occupancy grid with
//! atomic multi-cell placement, catalogs of buildings, commands and control
//! panels, panel navigation, and a fan-out command dispatcher pipeline.

pub mod building;
pub mod command;
pub mod coords;
pub mod dispatch;
pub mod engine;
pub mod grid;
pub mod panel;
