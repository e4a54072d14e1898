//! What the operations are for, said of their inputs and results alone.

pub mod blast;
pub mod designs;
pub mod dialogs;
pub mod drawing;
pub mod files;
pub mod flows;
pub mod geometry;
pub mod items;
pub mod jobs;
pub mod lookup;
pub mod models;
pub mod moving;
pub mod naming;
pub mod saving;
pub mod scene;
pub mod selection;
pub mod storage;
pub mod survey;
pub mod tools;
