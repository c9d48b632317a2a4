//! Metadata preprocessing for anime media type.
//!
//! - `matcher`: pure "name string → structure" parsing (seasons, episodes,
//!   extras).
//! - `rebuild`: turns the raw metadata tree into a plan that rewrites it
//!   into the canonically structured tree.
pub mod matcher;
pub mod rebuild;

pub use matcher::series_title_from_name;
pub use matcher::{Confidence, ExtraKind, MatchRule, ParsedInfo, Scored, TokenKind, parse_info};
