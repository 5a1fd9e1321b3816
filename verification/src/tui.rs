//! The dashboard: what it shows and how it reacts to keys, apart from drawing.
pub mod axis;
pub mod connect;
pub mod dashboard;
pub mod feed;
pub mod labels;
pub mod number;
pub mod overlay;
pub mod plots;
pub mod prompt;
pub mod roster;
pub mod streaks;
pub mod theme;
pub mod ui;
