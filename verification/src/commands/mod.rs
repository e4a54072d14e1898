//! Commands of the menus and panels.

pub mod answers;
pub mod blocks;
pub mod boreholes;
pub mod chains;
pub mod choices;
pub mod closing;
pub mod contours;
pub mod dialogs;
pub mod discard;
pub mod exit;
pub mod finished;
pub mod layers;
pub mod leaving;
pub mod omf;
pub mod ore;
pub mod outcomes;
pub mod plot;
pub mod projects;
pub mod residency;
pub mod restored;
pub mod saves;
pub mod section;
pub mod settling;
pub mod surfaces;
pub mod survey;
pub mod sweep;
pub mod tie_in;
pub mod view;
