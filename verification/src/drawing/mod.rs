//! Tools that change the design.

pub mod batter_berm;
pub mod bezier;
pub mod drape;
pub mod move_tool;
pub mod rotate_collar;
pub mod split;
pub mod translate;
