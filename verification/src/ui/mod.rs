//! What the board looks like: which lines stand where, in which style.

pub mod area;
pub mod board_view;
pub mod help;
pub mod paint;
pub mod picker;
pub mod repo_detail;
pub mod status_bar;
