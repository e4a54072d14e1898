//! Decision logic of a mine-design workbench.

pub mod arrivals;
pub mod arriving;
pub mod blast;
pub mod canvas;
pub mod collars;
pub mod commands;
pub mod document;
pub mod drawing;
pub mod edit;
pub mod error;
pub mod files;
pub mod fresh;
pub mod gestures;
pub mod ids;
pub mod ieee;
pub mod intake;
pub mod items;
pub mod jobs;
pub mod laws;
pub mod loads;
pub mod memory;
pub mod merging;
pub mod names;
pub mod release;
pub mod search;
pub mod snapshots;
pub mod start;
pub mod state;
pub mod styles;
pub mod survey;
pub mod text;
pub mod tiles;
pub mod workspace;
