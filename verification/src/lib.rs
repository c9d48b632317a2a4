//! Name parsing and tree rebuilding for anime media libraries.
pub mod anime;
pub mod rx;
pub mod text;
