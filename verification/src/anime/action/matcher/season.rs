//! Season markers: `S2`, `第2季`, `Season 2`, `Part II`, leading `2. `.
use vstd::prelude::*;

use crate::anime::action::matcher::info::MatchResult;
use crate::anime::action::matcher::ext::{is_video_or_subtitle_file, spec_is_video_or_subtitle_file};
use crate::anime::action::matcher::name::{normalize_fullwidth, spec_normalize_fullwidth};
use crate::rx::{captures_group1, is_match, regex_finds, regex_group1, regex_removed_first, remove_first};
use crate::text::{
    chars_of, collapse_whitespace, collapse_ws, lowercase, parse_u32, spec_parse_u32, string_of,
    to_lowercase, trim, trim_chars,
};

verus! {

/// `S2`-style markers.
pub const S_NUMBER_RE: &'static str = r"(?i)(?:^|\W)s(\d+)(?:\W|$)";

/// `第2季` / `第二期`-style markers.
pub const CHINESE_SEASON_RE: &'static str = r"第(\d+|[一二三四五六七八九十百零])[季期]";

/// `Season 2`-style markers.
pub const ENGLISH_SEASON_RE: &'static str = r"(?i)(?:^|\W)season\s*(\d+)(?:\W|$)";

/// `Part 2` / `Part II`-style markers.
pub const PART_MARKER_RE: &'static str = r"(?i)(?:^|\W)part\s*(\d+|i[vx]|vi|iv|v?i{1,3})(?:\W|$)";

/// Leading `2. ` numeric prefixes.
pub const NUMBERED_PREFIX_RE: &'static str = r"^(\d+)\.(?:\s|\D)";

/// How capture group 1 of a season marker becomes a season number.
#[derive(Debug, Clone, Copy, PartialEq, Eq, Structural)]
pub enum NumberStyle {
    /// Plain decimal digits.
    Digits,
    /// Decimal digits, or a single Chinese numeral.
    ChineseNumeral,
    /// Decimal digits, or a Roman numeral from i to x.
    RomanNumeral,
}

/// Value of a single Chinese numeral character.
pub open spec fn spec_chinese_digit(s: Seq<char>) -> Option<u32> {
    if s.len() != 1 {
        None
    } else if s[0] == '零' {
        Some(0)
    } else if s[0] == '一' {
        Some(1)
    } else if s[0] == '二' {
        Some(2)
    } else if s[0] == '三' {
        Some(3)
    } else if s[0] == '四' {
        Some(4)
    } else if s[0] == '五' {
        Some(5)
    } else if s[0] == '六' {
        Some(6)
    } else if s[0] == '七' {
        Some(7)
    } else if s[0] == '八' {
        Some(8)
    } else if s[0] == '九' {
        Some(9)
    } else if s[0] == '十' {
        Some(10)
    } else if s[0] == '百' {
        Some(100)
    } else {
        None
    }
}

/// Value of a lowercase Roman numeral from i to x.
pub open spec fn spec_roman_value(t: Seq<char>) -> Option<u32> {
    if t == seq!['i'] {
        Some(1)
    } else if t == seq!['i', 'i'] {
        Some(2)
    } else if t == seq!['i', 'i', 'i'] {
        Some(3)
    } else if t == seq!['i', 'v'] {
        Some(4)
    } else if t == seq!['v'] {
        Some(5)
    } else if t == seq!['v', 'i'] {
        Some(6)
    } else if t == seq!['v', 'i', 'i'] {
        Some(7)
    } else if t == seq!['v', 'i', 'i', 'i'] {
        Some(8)
    } else if t == seq!['i', 'x'] {
        Some(9)
    } else if t == seq!['x'] {
        Some(10)
    } else {
        None
    }
}

/// Value of a Roman numeral, compared after lowercasing.
pub open spec fn spec_roman_digit(s: Seq<char>) -> Option<u32> {
    spec_roman_value(lowercase(s))
}

/// Number written by a marker's capture group, in the marker's style.
pub open spec fn spec_to_number(style: NumberStyle, s: Seq<char>) -> Option<u32> {
    match spec_parse_u32(s) {
        Some(n) => Some(n),
        None => match style {
            NumberStyle::Digits => None,
            NumberStyle::ChineseNumeral => spec_chinese_digit(s),
            NumberStyle::RomanNumeral => spec_roman_digit(s),
        },
    }
}

/// Number carried by an optional capture group.
pub open spec fn spec_group_number(group: Option<Seq<char>>, style: NumberStyle) -> Option<u32> {
    match group {
        Some(g) => spec_to_number(style, g),
        None => None,
    }
}

/// Season number if the marker `pattern` fires on `name`.
pub open spec fn spec_marker_number(pattern: Seq<char>, style: NumberStyle, name: Seq<char>) -> Option<u32> {
    spec_group_number(regex_group1(pattern, name), style)
}

/// A number as a match result.
pub open spec fn number_result(n: Option<u32>) -> Option<MatchResult> {
    match n {
        Some(n) => Some(MatchResult { number: Some(n) }),
        None => None,
    }
}

fn is_one(v: &Vec<char>, a: char) -> (r: bool)
    ensures
        r == (v@ == seq![a]),
{
    let r = v.len() == 1 && v[0] == a;
    proof {
        if r {
            assert(v@ =~= seq![a]);
        }
    }
    r
}

fn is_two(v: &Vec<char>, a: char, b: char) -> (r: bool)
    ensures
        r == (v@ == seq![a, b]),
{
    let r = v.len() == 2 && v[0] == a && v[1] == b;
    proof {
        if r {
            assert(v@ =~= seq![a, b]);
        }
    }
    r
}

fn is_three(v: &Vec<char>, a: char, b: char, c: char) -> (r: bool)
    ensures
        r == (v@ == seq![a, b, c]),
{
    let r = v.len() == 3 && v[0] == a && v[1] == b && v[2] == c;
    proof {
        if r {
            assert(v@ =~= seq![a, b, c]);
        }
    }
    r
}

fn is_four(v: &Vec<char>, a: char, b: char, c: char, d: char) -> (r: bool)
    ensures
        r == (v@ == seq![a, b, c, d]),
{
    let r = v.len() == 4 && v[0] == a && v[1] == b && v[2] == c && v[3] == d;
    proof {
        if r {
            assert(v@ =~= seq![a, b, c, d]);
        }
    }
    r
}

pub fn chinese_digit(s: &str) -> (r: Option<u32>)
    ensures
        r == spec_chinese_digit(s@),
{
    let v = chars_of(s);
    if v.len() != 1 {
        return None;
    }
    let c = v[0];
    if c == '零' {
        Some(0)
    } else if c == '一' {
        Some(1)
    } else if c == '二' {
        Some(2)
    } else if c == '三' {
        Some(3)
    } else if c == '四' {
        Some(4)
    } else if c == '五' {
        Some(5)
    } else if c == '六' {
        Some(6)
    } else if c == '七' {
        Some(7)
    } else if c == '八' {
        Some(8)
    } else if c == '九' {
        Some(9)
    } else if c == '十' {
        Some(10)
    } else if c == '百' {
        Some(100)
    } else {
        None
    }
}

pub fn roman_digit(s: &str) -> (r: Option<u32>)
    ensures
        r == spec_roman_digit(s@),
{
    let lower = to_lowercase(s);
    let t = chars_of(lower.as_str());
    if is_one(&t, 'i') {
        Some(1)
    } else if is_two(&t, 'i', 'i') {
        Some(2)
    } else if is_three(&t, 'i', 'i', 'i') {
        Some(3)
    } else if is_two(&t, 'i', 'v') {
        Some(4)
    } else if is_one(&t, 'v') {
        Some(5)
    } else if is_two(&t, 'v', 'i') {
        Some(6)
    } else if is_three(&t, 'v', 'i', 'i') {
        Some(7)
    } else if is_four(&t, 'v', 'i', 'i', 'i') {
        Some(8)
    } else if is_two(&t, 'i', 'x') {
        Some(9)
    } else if is_one(&t, 'x') {
        Some(10)
    } else {
        None
    }
}

pub fn parse_digits(s: &str) -> (r: Option<u32>)
    ensures
        r == spec_to_number(NumberStyle::Digits, s@),
{
    parse_u32(s)
}

pub fn parse_chinese_digits(s: &str) -> (r: Option<u32>)
    ensures
        r == spec_to_number(NumberStyle::ChineseNumeral, s@),
{
    match parse_u32(s) {
        Some(n) => Some(n),
        None => chinese_digit(s),
    }
}

pub fn parse_roman_digits(s: &str) -> (r: Option<u32>)
    ensures
        r == spec_to_number(NumberStyle::RomanNumeral, s@),
{
    match parse_u32(s) {
        Some(n) => Some(n),
        None => roman_digit(s),
    }
}

/// Season number from a marker's capture group (the regex result).
pub fn group_number(group: Option<String>, style: NumberStyle) -> (r: Option<u32>)
    ensures
        r == spec_group_number(
            match group {
                Some(g) => Some(g@),
                None => None,
            },
            style,
        ),
{
    match group {
        None => None,
        Some(g) => match style {
            NumberStyle::Digits => parse_digits(g.as_str()),
            NumberStyle::ChineseNumeral => parse_chinese_digits(g.as_str()),
            NumberStyle::RomanNumeral => parse_roman_digits(g.as_str()),
        },
    }
}

/// Season number if the marker fires on `name`.
pub fn marker_number(pattern: &str, style: NumberStyle, name: &str) -> (r: Option<u32>)
    ensures
        r == spec_marker_number(pattern@, style, name@),
{
    let group = captures_group1(pattern, name);
    group_number(group, style)
}

fn as_result(n: Option<u32>) -> (r: Option<MatchResult>)
    ensures
        r == number_result(n),
{
    match n {
        Some(n) => Some(MatchResult { number: Some(n) }),
        None => None,
    }
}

pub open spec fn spec_match_season_s_number(name: Seq<char>) -> Option<MatchResult> {
    number_result(spec_marker_number(S_NUMBER_RE@, NumberStyle::Digits, name))
}

pub open spec fn spec_match_season_chinese(name: Seq<char>) -> Option<MatchResult> {
    number_result(spec_marker_number(CHINESE_SEASON_RE@, NumberStyle::ChineseNumeral, name))
}

pub open spec fn spec_match_season_english(name: Seq<char>) -> Option<MatchResult> {
    number_result(spec_marker_number(ENGLISH_SEASON_RE@, NumberStyle::Digits, name))
}

pub open spec fn spec_match_season_part_any(name: Seq<char>) -> Option<MatchResult> {
    number_result(spec_marker_number(PART_MARKER_RE@, NumberStyle::RomanNumeral, name))
}

pub open spec fn spec_match_season_numbered_prefix_any(name: Seq<char>) -> Option<MatchResult> {
    number_result(spec_marker_number(NUMBERED_PREFIX_RE@, NumberStyle::Digits, name))
}

pub open spec fn spec_match_season_part(name: Seq<char>) -> Option<MatchResult> {
    if spec_is_video_or_subtitle_file(name) {
        spec_match_season_part_any(name)
    } else {
        None
    }
}

pub open spec fn spec_match_season_numbered_prefix(name: Seq<char>) -> Option<MatchResult> {
    if spec_is_video_or_subtitle_file(name) {
        spec_match_season_numbered_prefix_any(name)
    } else {
        None
    }
}

/// Rule: `S2`-style season markers.
pub fn match_season_s_number(name: &str) -> (r: Option<MatchResult>)
    ensures
        r == spec_match_season_s_number(name@),
{
    as_result(marker_number(S_NUMBER_RE, NumberStyle::Digits, name))
}

/// Rule: `第2季`/`第1期`-style season markers.
pub fn match_season_chinese(name: &str) -> (r: Option<MatchResult>)
    ensures
        r == spec_match_season_chinese(name@),
{
    as_result(marker_number(CHINESE_SEASON_RE, NumberStyle::ChineseNumeral, name))
}

/// Rule: `Season 2`-style season markers.
pub fn match_season_english(name: &str) -> (r: Option<MatchResult>)
    ensures
        r == spec_match_season_english(name@),
{
    as_result(marker_number(ENGLISH_SEASON_RE, NumberStyle::Digits, name))
}

/// Rule: `Part II`-style season markers on video or subtitle files.
pub fn match_season_part(name: &str) -> (r: Option<MatchResult>)
    ensures
        r == spec_match_season_part(name@),
{
    if !is_video_or_subtitle_file(name) {
        return None;
    }
    match_season_part_any(name)
}

/// Rule: leading `2. ` numeric prefixes on video or subtitle files.
pub fn match_season_numbered_prefix(name: &str) -> (r: Option<MatchResult>)
    ensures
        r == spec_match_season_numbered_prefix(name@),
{
    if !is_video_or_subtitle_file(name) {
        return None;
    }
    match_season_numbered_prefix_any(name)
}

/// Ungated variant of `match_season_part` for directory names, which never
/// pass the video/subtitle extension whitelist (`06. Otorimonogatari`).
pub fn match_season_part_any(name: &str) -> (r: Option<MatchResult>)
    ensures
        r == spec_match_season_part_any(name@),
{
    as_result(marker_number(PART_MARKER_RE, NumberStyle::RomanNumeral, name))
}

/// Ungated variant of `match_season_numbered_prefix` for directory names.
pub fn match_season_numbered_prefix_any(name: &str) -> (r: Option<MatchResult>)
    ensures
        r == spec_match_season_numbered_prefix_any(name@),
{
    as_result(marker_number(NUMBERED_PREFIX_RE, NumberStyle::Digits, name))
}

/// One marker-removal step: the first match of `pattern` is removed when
/// there is one.
pub open spec fn strip_step(pattern: Seq<char>, s: Seq<char>) -> Seq<char> {
    if regex_finds(pattern, s) {
        regex_removed_first(pattern, s)
    } else {
        s
    }
}

/// Every season marker removed, in table order.
pub open spec fn spec_strip_all_season_markers(s: Seq<char>) -> Seq<char> {
    strip_step(
        NUMBERED_PREFIX_RE@,
        strip_step(
            PART_MARKER_RE@,
            strip_step(ENGLISH_SEASON_RE@, strip_step(CHINESE_SEASON_RE@, strip_step(S_NUMBER_RE@, s))),
        ),
    )
}

/// The series name with its season markers removed, separators collapsed,
/// or the trimmed name when nothing would remain.
pub open spec fn spec_strip_season_markers(name: Seq<char>) -> Seq<char> {
    let cleaned = collapse_ws(spec_strip_all_season_markers(spec_normalize_fullwidth(trim(name))));
    if cleaned.len() == 0 {
        trim(name)
    } else {
        cleaned
    }
}

fn strip_marker(pattern: &str, out: String) -> (r: String)
    ensures
        r@ == strip_step(pattern@, out@),
{
    if is_match(pattern, out.as_str()) {
        remove_first(pattern, out.as_str())
    } else {
        out
    }
}

/// Strip every season marker (`S2`, `Season 2`, `第二季`, `Part II`,
/// leading `2. `) from a series name so same-title series can be merged,
/// e.g. `葬送的芙莉蓮` + `葬送的芙莉蓮 S2` -> both become `葬送的芙莉蓮`.
/// Falls back to the trimmed original name if stripping leaves nothing.
pub fn strip_season_markers(name: &str) -> (r: String)
    ensures
        r@ == spec_strip_season_markers(name@),
{
    let trimmed = trim_chars(&chars_of(name));
    let trimmed_str = string_of(&trimmed);
    let mut out = normalize_fullwidth(trimmed_str.as_str());
    out = strip_marker(S_NUMBER_RE, out);
    out = strip_marker(CHINESE_SEASON_RE, out);
    out = strip_marker(ENGLISH_SEASON_RE, out);
    out = strip_marker(PART_MARKER_RE, out);
    out = strip_marker(NUMBERED_PREFIX_RE, out);
    let cleaned = collapse_whitespace(&chars_of(out.as_str()));
    if cleaned.len() == 0 {
        trimmed_str
    } else {
        string_of(&cleaned)
    }
}

/// Law: stripping season markers leaves a name empty only when the
/// trimmed name itself is empty.
pub proof fn lemma_strip_season_markers_nonempty(name: Seq<char>)
    ensures
        trim(name).len() > 0 ==> spec_strip_season_markers(name).len() > 0,
{
}


/// The season markers, in the order the stripper tries them: each with the
/// way its capture group is read as a number.
pub open spec fn season_markers() -> Seq<(Seq<char>, NumberStyle)> {
    seq![
        (S_NUMBER_RE@, NumberStyle::Digits),
        (CHINESE_SEASON_RE@, NumberStyle::ChineseNumeral),
        (ENGLISH_SEASON_RE@, NumberStyle::Digits),
        (PART_MARKER_RE@, NumberStyle::RomanNumeral),
        (NUMBERED_PREFIX_RE@, NumberStyle::Digits),
    ]
}

/// `s` with the first match of each marker of `ms` removed in turn.
pub open spec fn strip_markers(ms: Seq<(Seq<char>, NumberStyle)>, s: Seq<char>) -> Seq<char>
    decreases ms.len(),
{
    if ms.len() == 0 {
        s
    } else {
        strip_step(ms.last().0, strip_markers(ms.drop_last(), s))
    }
}

/// Law: one table of season markers serves both sides. Each season
/// matcher reads its number from its marker in the table (`S2`, `第二季`,
/// `Season 2`, `Part II`, leading `2. `), and the stripper removes every
/// marker of that same table, in table order; so a marker that lets a
/// season matcher fire is a marker the stripper removes, and seasons of
/// one title merge.
pub proof fn lemma_season_markers_table(name: Seq<char>)
    ensures
        spec_match_season_s_number(name) == number_result(
            spec_marker_number(season_markers()[0].0, season_markers()[0].1, name),
        ),
        spec_match_season_chinese(name) == number_result(
            spec_marker_number(season_markers()[1].0, season_markers()[1].1, name),
        ),
        spec_match_season_english(name) == number_result(
            spec_marker_number(season_markers()[2].0, season_markers()[2].1, name),
        ),
        spec_match_season_part_any(name) == number_result(
            spec_marker_number(season_markers()[3].0, season_markers()[3].1, name),
        ),
        spec_match_season_numbered_prefix_any(name) == number_result(
            spec_marker_number(season_markers()[4].0, season_markers()[4].1, name),
        ),
        spec_strip_all_season_markers(name) == strip_markers(season_markers(), name),
{
    let ms = season_markers();
    assert(ms.drop_last().drop_last().drop_last().drop_last().drop_last() =~= Seq::<(Seq<char>, NumberStyle)>::empty());
    assert(ms.drop_last().drop_last().drop_last().drop_last().last() == ms[0]);
    assert(ms.drop_last().drop_last().drop_last().last() == ms[1]);
    assert(ms.drop_last().drop_last().last() == ms[2]);
    assert(ms.drop_last().last() == ms[3]);
    assert(ms.last() == ms[4]);
    reveal_with_fuel(strip_markers, 6);
}

/// The Chinese numerals for zero to nine, in order.
pub open spec fn chinese_numerals() -> Seq<char> {
    seq!['零', '一', '二', '三', '四', '五', '六', '七', '八', '九']
}

/// Law: a single Chinese numeral is read as its value: the `i`-th of
/// 零一二三四五六七八九 as `i`, 十 as ten and 百 as a hundred, both alone and as
/// the capture group of a Chinese season marker (`第三季` is season 3);
/// anything else that is not decimal digits reads as nothing.
pub proof fn lemma_chinese_numerals(s: Seq<char>)
    ensures
        forall|i: int|
            0 <= i < 10 ==> spec_chinese_digit(seq![#[trigger] chinese_numerals()[i]]) == Some(i as u32)
                && spec_to_number(NumberStyle::ChineseNumeral, seq![chinese_numerals()[i]]) == Some(i as u32),
        spec_chinese_digit(seq!['十']) == Some(10u32),
        spec_chinese_digit(seq!['百']) == Some(100u32),
        spec_to_number(NumberStyle::ChineseNumeral, seq!['十']) == Some(10u32),
        spec_to_number(NumberStyle::ChineseNumeral, seq!['百']) == Some(100u32),
        spec_chinese_digit(s) is Some ==> s.len() == 1 && (chinese_numerals().contains(s[0]) || s[0] == '十'
            || s[0] == '百'),
{
    let ns = chinese_numerals();
    assert forall|i: int| 0 <= i < 10 implies spec_chinese_digit(seq![#[trigger] ns[i]]) == Some(i as u32)
        && spec_to_number(NumberStyle::ChineseNumeral, seq![ns[i]]) == Some(i as u32) by {
        let one = seq![ns[i]];
        assert(one.len() == 1 && one[0] == ns[i]);
        lemma_non_digit_parses_to_none(one);
    }
    lemma_non_digit_parses_to_none(seq!['十']);
    lemma_non_digit_parses_to_none(seq!['百']);
    if spec_chinese_digit(s) is Some {
        if s[0] == '零' { assert(ns[0] == s[0]); }
        else if s[0] == '一' { assert(ns[1] == s[0]); }
        else if s[0] == '二' { assert(ns[2] == s[0]); }
        else if s[0] == '三' { assert(ns[3] == s[0]); }
        else if s[0] == '四' { assert(ns[4] == s[0]); }
        else if s[0] == '五' { assert(ns[5] == s[0]); }
        else if s[0] == '六' { assert(ns[6] == s[0]); }
        else if s[0] == '七' { assert(ns[7] == s[0]); }
        else if s[0] == '八' { assert(ns[8] == s[0]); }
        else if s[0] == '九' { assert(ns[9] == s[0]); }
    }
}

/// A one-character string that is not an ASCII digit is no decimal number.
proof fn lemma_non_digit_parses_to_none(s: Seq<char>)
    requires
        s.len() == 1,
        !('0' <= s[0] && s[0] <= '9'),
        s[0] != '+',
    ensures
        spec_parse_u32(s) is None,
{
    let b = crate::text::unsigned_body(s);
    assert(b == s);
    assert(!crate::text::is_ascii_digit(b[0]));
}

} // verus!
