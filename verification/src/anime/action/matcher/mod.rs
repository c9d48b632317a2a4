//! Pure "name string → structure" parsing. No side effects.
pub mod episode;
pub mod ext;
pub mod extra;
pub mod info;
pub mod name;
pub mod season;

pub use info::{Confidence, ExtraKind, MatchRule, ParsedInfo, Scored, TokenKind, parse_info};
pub use name::series_title_from_name;
