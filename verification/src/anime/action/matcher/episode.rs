//! Episode markers: `- 02`, `第02話`, `[02]`, `.TV 02`.
use vstd::prelude::*;

use crate::anime::action::matcher::info::MatchResult;
use crate::anime::action::matcher::ext::{is_video_file, spec_is_video_file};
use crate::anime::action::matcher::name::{normalize_fullwidth, spec_normalize_fullwidth};
use crate::anime::action::matcher::season::{number_result, strip_step};
use crate::rx::{captures_group1, is_match, regex_group1, remove_first};
use crate::text::{
    chars_of, collapse_whitespace, collapse_ws, parse_u32, spec_parse_u32, string_of, trim,
    trim_chars,
};

verus! {

/// `- 02`-style numbers before a bracket.
pub const DASH_NUMBER_RE: &'static str = r"(?i)\s*-\s*(\d+)\s*(?:\[|\()";

/// The `- 02` marker as stripped from a name: before a bracket, as the
/// rule reads it, or at the very end of the name (`葬送的芙莉蓮 - 02`).
pub const DASH_NUMBER_STRIP_RE: &'static str = r"(?i)\s*-\s*(\d+)\s*(?:\[|\(|$)";

/// `第01話` (Japanese kanji `話`), `第01话` (Simplified Chinese), `第01集`.
pub const CHINESE_EPISODE_RE: &'static str = r"第(\d+)[话話集]";

/// Bare `[02]` numbers.
pub const BRACKETED_EPISODE_RE: &'static str = r"\[(\d+)\]";

/// `.TV 02`-style markers.
pub const TV_EPISODE_RE: &'static str = r"(?i)\.\s*TV\s+(\d+)";

/// Episode number carried by an optional capture group.
pub open spec fn spec_episode_group_number(group: Option<Seq<char>>) -> Option<u32> {
    match group {
        Some(g) => spec_parse_u32(g),
        None => None,
    }
}

/// Episode number if the marker `pattern` fires on `name`. Fullwidth
/// variants are folded first: fansub names routinely write `第０１話`.
pub open spec fn spec_episode_number(pattern: Seq<char>, name: Seq<char>) -> Option<u32> {
    spec_episode_group_number(regex_group1(pattern, spec_normalize_fullwidth(name)))
}

/// Episode number from a marker's capture group (the regex result).
pub fn episode_group_number(group: Option<String>) -> (r: Option<u32>)
    ensures
        r == spec_episode_group_number(
            match group {
                Some(g) => Some(g@),
                None => None,
            },
        ),
{
    match group {
        Some(g) => parse_u32(g.as_str()),
        None => None,
    }
}

/// Episode number if the marker fires on `name`.
pub fn episode_number(pattern: &str, name: &str) -> (r: Option<u32>)
    ensures
        r == spec_episode_number(pattern@, name@),
{
    let name = normalize_fullwidth(name);
    let group = captures_group1(pattern, name.as_str());
    episode_group_number(group)
}

pub open spec fn spec_match_episode_dash_number(name: Seq<char>) -> Option<MatchResult> {
    if spec_is_video_file(name) {
        number_result(spec_episode_number(DASH_NUMBER_RE@, name))
    } else {
        None
    }
}

pub open spec fn spec_match_episode_chinese(name: Seq<char>) -> Option<MatchResult> {
    if spec_is_video_file(name) {
        number_result(spec_episode_number(CHINESE_EPISODE_RE@, name))
    } else {
        None
    }
}

/// Below 100 only: three-digit bracketed numbers are release years.
pub open spec fn spec_match_episode_bracketed(name: Seq<char>) -> Option<MatchResult> {
    if spec_is_video_file(name) {
        match spec_episode_number(BRACKETED_EPISODE_RE@, name) {
            Some(n) => if n < 100 {
                Some(MatchResult { number: Some(n) })
            } else {
                None
            },
            None => None,
        }
    } else {
        None
    }
}

pub open spec fn spec_match_episode_tv(name: Seq<char>) -> Option<MatchResult> {
    if spec_is_video_file(name) {
        number_result(spec_episode_number(TV_EPISODE_RE@, name))
    } else {
        None
    }
}

/// Rule: `- 02`-style numbers before a bracket.
pub fn match_episode_dash_number(name: &str) -> (r: Option<MatchResult>)
    ensures
        r == spec_match_episode_dash_number(name@),
{
    if !is_video_file(name) {
        return None;
    }
    match episode_number(DASH_NUMBER_RE, name) {
        Some(n) => Some(MatchResult { number: Some(n) }),
        None => None,
    }
}

/// Rule: `第02話`/`第02集`-style markers.
pub fn match_episode_chinese(name: &str) -> (r: Option<MatchResult>)
    ensures
        r == spec_match_episode_chinese(name@),
{
    if !is_video_file(name) {
        return None;
    }
    match episode_number(CHINESE_EPISODE_RE, name) {
        Some(n) => Some(MatchResult { number: Some(n) }),
        None => None,
    }
}

/// Rule: bare `[02]` episode numbers. Three-digit numbers are rejected:
/// they are almost always release years (`[2024]`), not episode numbers.
pub fn match_episode_bracketed(name: &str) -> (r: Option<MatchResult>)
    ensures
        r == spec_match_episode_bracketed(name@),
{
    if !is_video_file(name) {
        return None;
    }
    match episode_number(BRACKETED_EPISODE_RE, name) {
        Some(n) => if n < 100 {
            Some(MatchResult { number: Some(n) })
        } else {
            None
        },
        None => None,
    }
}

/// Rule: `.TV 02`-style markers.
pub fn match_episode_tv(name: &str) -> (r: Option<MatchResult>)
    ensures
        r == spec_match_episode_tv(name@),
{
    if !is_video_file(name) {
        return None;
    }
    match episode_number(TV_EPISODE_RE, name) {
        Some(n) => Some(MatchResult { number: Some(n) }),
        None => None,
    }
}

/// Every episode marker removed, in table order.
pub open spec fn spec_strip_all_episode_markers(s: Seq<char>) -> Seq<char> {
    strip_step(
        TV_EPISODE_RE@,
        strip_step(BRACKETED_EPISODE_RE@, strip_step(CHINESE_EPISODE_RE@, strip_step(DASH_NUMBER_STRIP_RE@, s))),
    )
}

/// The name with its episode markers removed, separators collapsed, or
/// the trimmed name when nothing would remain.
pub open spec fn spec_strip_episode_markers(name: Seq<char>) -> Seq<char> {
    let cleaned = collapse_ws(spec_strip_all_episode_markers(spec_normalize_fullwidth(trim(name))));
    if cleaned.len() == 0 {
        trim(name)
    } else {
        cleaned
    }
}

fn strip_marker(pattern: &str, out: String) -> (r: String)
    ensures
        r@ == strip_step(pattern@, out@),
{
    if is_match(pattern, out.as_str()) {
        remove_first(pattern, out.as_str())
    } else {
        out
    }
}

/// Strip every episode marker (`- 02`, `第02話`, `[02]`, `.TV 02`) from
/// a name, e.g. `葬送的芙莉蓮 - 02` -> `葬送的芙莉蓮`. Falls back to
/// the trimmed original name if stripping leaves nothing.
pub fn strip_episode_markers(name: &str) -> (r: String)
    ensures
        r@ == spec_strip_episode_markers(name@),
{
    let trimmed = trim_chars(&chars_of(name));
    let trimmed_str = string_of(&trimmed);
    let mut out = normalize_fullwidth(trimmed_str.as_str());
    out = strip_marker(DASH_NUMBER_STRIP_RE, out);
    out = strip_marker(CHINESE_EPISODE_RE, out);
    out = strip_marker(BRACKETED_EPISODE_RE, out);
    out = strip_marker(TV_EPISODE_RE, out);
    let cleaned = collapse_whitespace(&chars_of(out.as_str()));
    if cleaned.len() == 0 {
        trimmed_str
    } else {
        string_of(&cleaned)
    }
}

/// Law: stripping episode markers leaves a name empty only when the
/// trimmed name itself is empty.
pub proof fn lemma_strip_episode_markers_nonempty(name: Seq<char>)
    ensures
        trim(name).len() > 0 ==> spec_strip_episode_markers(name).len() > 0,
{
}

/// Law: a bracketed number is taken as the episode exactly when it is
/// below 100 (every one- and two-digit number, `[05]`, `[12]`, `[99]`);
/// numbers of 100 and more (years such as `[2024]`) are rejected. The rule
/// reads the same number as the bracketed marker, and only on video files.
pub proof fn lemma_bracketed_episode_below_hundred(name: Seq<char>)
    ensures
        spec_match_episode_bracketed(name) is Some ==> spec_is_video_file(name)
            && spec_episode_number(BRACKETED_EPISODE_RE@, name) is Some
            && spec_match_episode_bracketed(name)->0.number == spec_episode_number(BRACKETED_EPISODE_RE@, name)
            && spec_episode_number(BRACKETED_EPISODE_RE@, name)->0 < 100,
        spec_is_video_file(name) && spec_episode_number(BRACKETED_EPISODE_RE@, name) is Some
            && spec_episode_number(BRACKETED_EPISODE_RE@, name)->0 < 100 ==> spec_match_episode_bracketed(name)
            == Some(MatchResult { number: spec_episode_number(BRACKETED_EPISODE_RE@, name) }),
{
}

} // verus!
