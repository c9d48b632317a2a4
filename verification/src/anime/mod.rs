//! Anime media: name matching, tree rebuilding and shared data shapes.
pub mod action;
pub mod define;
