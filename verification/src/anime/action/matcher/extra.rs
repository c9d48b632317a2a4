//! Extra-content matchers (openings, endings, PVs, scans, fonts, ...),
//! plus the display helpers for extras.
use vstd::prelude::*;

use crate::anime::action::matcher::episode::{episode_group_number, spec_episode_group_number};
use crate::anime::action::matcher::ext::{
    has_any_suffix, has_suffix_in, is_archive_file, is_audio_file, is_font_file, is_image_file,
    is_video_or_subtitle_file, spec_is_archive_file, spec_is_audio_file, spec_is_font_file,
    spec_is_image_file, spec_is_video_or_subtitle_file,
};
use crate::anime::action::matcher::info::{ExtraKind, MatchResult};
use crate::rx::{captures_group1, is_match, regex_finds, regex_group1};
use crate::text::{
    chars_of, collapse_whitespace, collapse_ws, contains, contains_str, find_last_dot,
    is_ascii_digit, last_dot, lowercase, opt_view, prefix_chars, remove_brackets,
    replace_underscores, string_of, to_lowercase, underscores_to_spaces, without_brackets,
};

verus! {

pub const OPENING_RE: &'static str = r"(?i)(?:\bNCOP\d*\b|\bOP\d*\b|Opening|オープニング|片头曲|片頭曲|片头|片頭|主题曲|主題曲)";
pub const OPENING_NUMBER_RE: &'static str = r"(?i)(?:OP|NCOP)[\s._-]*(\d+)";
pub const ENDING_RE: &'static str = r"(?i)(?:\bNCED\d*\b|\bED\d*\b|Ending|エンディング|片尾曲|片尾)";
pub const ENDING_NUMBER_RE: &'static str = r"(?i)(?:ED|NCED)[\s._-]*(\d+)";
pub const PROMOTION_RE: &'static str = r"(?i)(?:\bPV\d*\b|\bCM\d*\b|Teaser|Promo|Preview|特报|特報|予告|宣传|宣傳|预告|預告)";
pub const PROMOTION_NUMBER_RE: &'static str = r"(?i)(?:PV|CM|Teaser)[\s._-]*(\d+)";
pub const LIVE_RE: &'static str = r"(?i)(?:\bMV\b|Music Video|MusicVideo|Live|ライブ|Concert|演唱会|演唱會|コンサート)";
pub const LIVE_NUMBER_RE: &'static str = r"(?i)(?:MV|Live)[\s._-]*(\d+)";
pub const SCAN_RE: &'static str = r"(?i)(?:\bScans?\b|Booklet|ブックレット|Artbook|Art Book|設定集|设定集|画集|畫集|原案|Storyboard|分镜|分鏡|ジャケット|ポスター|Poster|Cover|ケース|掃图|掃圖|扫图|スキャン|BDBOX|Box Set|Official Guidebook|Production Note|Illustrated Book|BD Scan|BD Cover)";
pub const SCAN_NUMBER_RE: &'static str = r"(?i)(?:Scan|Vol)[\s._-]*(\d+)";
pub const FONT_RE: &'static str = r"(?i)(?:\bFont\b|\bFonts\b|字体|フォント)";
pub const MENU_RE: &'static str = r"(?i)(?:\bMenu\b|\bMenus\b|メニュー|菜单|選單|BD Menu)";
pub const MENU_NUMBER_RE: &'static str = r"(?i)Menu[\s._-]*(\d+)";
pub const COMMENTARY_RE: &'static str = r"(?i)(?:Audio Commentary|Audio commentary|Commentary|音声评论|音聲評論|コメンタリー)";
pub const BONUS_DISC_RE: &'static str = r"(?i)(?:\bCDs?\b|Bonus CD|特典CD|CD Vol|CDImage|Drama CD|ドラマCD|广播剧|廣播劇|OST|Soundtrack|サントラ|Character Song|角色歌|キャラソン|Radio|ラジオ|Interview|访谈|訪談|Special CD|SPCD|Music Collection|Original Soundtrack)";
pub const BONUS_DISC_NUMBER_RE: &'static str = r"(?i)(?:CD|Vol)[\s._-]*(\d+)";
pub const NEXT_PREVIEW_RE: &'static str = r"(?i)(?:次回予告|NextPreview|Next Preview|Next Episode Preview|次回)";
pub const NEXT_PREVIEW_NUMBER_RE: &'static str = r"(?i)(?:Preview)[\s._-]*(\d+)";
pub const GENERIC_RE: &'static str = r"(?i)(?:\bSP\d*\b|\bSPs\b|Special|特典|映像特典|Digest|Summary|Tokuten|スペシャル|Extra|特番|OVA特典)";
pub const GENERIC_NUMBER_RE: &'static str = r"(?i)SP[\s._-]*(\d+)";

/// Sidecar files that always travel with a CD image (cue/bin/img/log).
pub const DISC_SIDECAR_EXTS: [&'static str; 4] = [".cue", ".bin", ".img", ".log"];

/// A directory name: no extension, or a purely numeric one (`Vol.09`).
pub open spec fn spec_is_dir_name(name: Seq<char>) -> bool {
    match last_dot(name) {
        None => true,
        Some(k) => forall|j: int| k < j < name.len() ==> is_ascii_digit(#[trigger] name[j]),
    }
}

pub open spec fn spec_video_ok(name: Seq<char>) -> bool {
    spec_is_video_or_subtitle_file(name) || spec_is_dir_name(name)
}

pub open spec fn spec_image_or_archive_ok(name: Seq<char>) -> bool {
    spec_is_image_file(name) || spec_is_archive_file(name) || spec_is_dir_name(name)
}

pub open spec fn spec_disc_data_ok(name: Seq<char>) -> bool {
    spec_is_audio_file(name) || spec_is_archive_file(name) || spec_is_dir_name(name)
        || has_suffix_in(name, DISC_SIDECAR_EXTS@)
}

pub open spec fn spec_generic_video_ok(name: Seq<char>) -> bool {
    spec_is_video_or_subtitle_file(name) || spec_is_audio_file(name) || spec_is_archive_file(name)
        || spec_is_dir_name(name)
}

/// Gate of the live / MV rule.
pub open spec fn spec_live_ok(name: Seq<char>) -> bool {
    spec_is_video_or_subtitle_file(name) || spec_is_audio_file(name) || spec_is_dir_name(name)
}

/// Gate of the menu and next-preview rules.
pub open spec fn spec_menu_ok(name: Seq<char>) -> bool {
    spec_is_video_or_subtitle_file(name) || spec_is_dir_name(name)
}

/// Gate of the font rule.
pub open spec fn spec_font_ok(name: Seq<char>) -> bool {
    spec_is_font_file(name) || spec_is_archive_file(name) || spec_is_dir_name(name)
}

/// Leading number of an extra item (`PV - 02` -> 2), read by `pattern`.
pub open spec fn spec_extra_number(name: Seq<char>, pattern: Seq<char>) -> Option<u32> {
    spec_episode_group_number(regex_group1(pattern, name))
}

/// An extra rule: passes its gate, its regex fires, and the number is read
/// by `number_pattern`.
pub open spec fn spec_extra_rule(gate: bool, pattern: Seq<char>, number_pattern: Seq<char>, name: Seq<char>) -> Option<MatchResult> {
    if gate && regex_finds(pattern, name) {
        Some(MatchResult { number: spec_extra_number(name, number_pattern) })
    } else {
        None
    }
}

pub open spec fn spec_match_extra_opening(name: Seq<char>) -> Option<MatchResult> {
    spec_extra_rule(spec_video_ok(name), OPENING_RE@, OPENING_NUMBER_RE@, name)
}

pub open spec fn spec_match_extra_ending(name: Seq<char>) -> Option<MatchResult> {
    spec_extra_rule(spec_video_ok(name), ENDING_RE@, ENDING_NUMBER_RE@, name)
}

pub open spec fn spec_match_extra_promotion(name: Seq<char>) -> Option<MatchResult> {
    spec_extra_rule(spec_video_ok(name), PROMOTION_RE@, PROMOTION_NUMBER_RE@, name)
}

pub open spec fn spec_match_extra_live(name: Seq<char>) -> Option<MatchResult> {
    spec_extra_rule(spec_live_ok(name), LIVE_RE@, LIVE_NUMBER_RE@, name)
}

pub open spec fn spec_match_extra_scan(name: Seq<char>) -> Option<MatchResult> {
    spec_extra_rule(spec_image_or_archive_ok(name), SCAN_RE@, SCAN_NUMBER_RE@, name)
}

pub open spec fn spec_match_extra_font(name: Seq<char>) -> Option<MatchResult> {
    if spec_font_ok(name) && (regex_finds(FONT_RE@, name) || spec_is_font_file(name)) {
        Some(MatchResult { number: None })
    } else {
        None
    }
}

pub open spec fn spec_match_extra_menu(name: Seq<char>) -> Option<MatchResult> {
    spec_extra_rule(spec_menu_ok(name), MENU_RE@, MENU_NUMBER_RE@, name)
}

pub open spec fn spec_match_extra_audio_commentary(name: Seq<char>) -> Option<MatchResult> {
    if spec_live_ok(name) && regex_finds(COMMENTARY_RE@, name) {
        Some(MatchResult { number: None })
    } else {
        None
    }
}

pub open spec fn spec_match_extra_bonus_disc(name: Seq<char>) -> Option<MatchResult> {
    spec_extra_rule(spec_disc_data_ok(name), BONUS_DISC_RE@, BONUS_DISC_NUMBER_RE@, name)
}

pub open spec fn spec_match_extra_next_preview(name: Seq<char>) -> Option<MatchResult> {
    spec_extra_rule(spec_menu_ok(name), NEXT_PREVIEW_RE@, NEXT_PREVIEW_NUMBER_RE@, name)
}

pub open spec fn spec_match_extra_generic(name: Seq<char>) -> Option<MatchResult> {
    spec_extra_rule(spec_generic_video_ok(name), GENERIC_RE@, GENERIC_NUMBER_RE@, name)
}

/// Gate helper: a directory name (no extension, or a numeric suffix like
/// `Vol.09`) always passes — the kind is decided by the directory itself
/// and inherited by its children.
pub fn is_dir_name(name: &str) -> (r: bool)
    ensures
        r == spec_is_dir_name(name@),
{
    let v = chars_of(name);
    match find_last_dot(&v) {
        None => true,
        Some(k) => {
            let mut j: usize = k + 1;
            while j < v.len()
                invariant
                    k < j <= v.len(),
                    v@ == name@,
                    last_dot(name@) == Some(k as int),
                    forall|m: int| k < m < j ==> is_ascii_digit(#[trigger] v@[m]),
                decreases v.len() - j,
            {
                let c = v[j];
                if !('0' <= c && c <= '9') {
                    proof {
                        assert(!is_ascii_digit(v@[j as int]));
                    }
                    return false;
                }
                j = j + 1;
            }
            true
        },
    }
}

pub fn video_ok(name: &str) -> (r: bool)
    ensures
        r == spec_video_ok(name@),
{
    is_video_or_subtitle_file(name) || is_dir_name(name)
}

pub fn image_or_archive_ok(name: &str) -> (r: bool)
    ensures
        r == spec_image_or_archive_ok(name@),
{
    is_image_file(name) || is_archive_file(name) || is_dir_name(name)
}

pub fn disc_data_ok(name: &str) -> (r: bool)
    ensures
        r == spec_disc_data_ok(name@),
{
    if is_audio_file(name) || is_archive_file(name) || is_dir_name(name) {
        return true;
    }
    has_any_suffix(name, &DISC_SIDECAR_EXTS)
}

pub fn generic_video_ok(name: &str) -> (r: bool)
    ensures
        r == spec_generic_video_ok(name@),
{
    is_video_or_subtitle_file(name) || is_audio_file(name) || is_archive_file(name) || is_dir_name(
        name,
    )
}

/// Extract the leading number of an extra item, e.g. `PV - 02` -> 2,
/// `SP03` -> 3, `Menu - 01` -> 1. Used for `MatchResult::number` so the
/// frontend can order extras within a kind.
pub fn extra_number(name: &str, pattern: &str) -> (r: Option<u32>)
    ensures
        r == spec_extra_number(name@, pattern@),
{
    let group = captures_group1(pattern, name);
    episode_group_number(group)
}

fn extra_rule(gate: bool, pattern: &str, number_pattern: &str, name: &str) -> (r: Option<MatchResult>)
    ensures
        r == spec_extra_rule(gate, pattern@, number_pattern@, name@),
{
    if !gate {
        return None;
    }
    if is_match(pattern, name) {
        let number = extra_number(name, number_pattern);
        return Some(MatchResult { number });
    }
    None
}

/// OP / NCOP (non-credit opening) videos and subtitles.
pub fn match_extra_opening(name: &str) -> (r: Option<MatchResult>)
    ensures
        r == spec_match_extra_opening(name@),
{
    let gate = video_ok(name);
    extra_rule(gate, OPENING_RE, OPENING_NUMBER_RE, name)
}

/// ED / NCED (non-credit ending) videos and subtitles.
pub fn match_extra_ending(name: &str) -> (r: Option<MatchResult>)
    ensures
        r == spec_match_extra_ending(name@),
{
    let gate = video_ok(name);
    extra_rule(gate, ENDING_RE, ENDING_NUMBER_RE, name)
}

/// PV (promotional video), CM (commercial), teaser and previews.
pub fn match_extra_promotion(name: &str) -> (r: Option<MatchResult>)
    ensures
        r == spec_match_extra_promotion(name@),
{
    let gate = video_ok(name);
    extra_rule(gate, PROMOTION_RE, PROMOTION_NUMBER_RE, name)
}

/// Music videos, live concerts and character song videos.
pub fn match_extra_live(name: &str) -> (r: Option<MatchResult>)
    ensures
        r == spec_match_extra_live(name@),
{
    let gate = is_video_or_subtitle_file(name) || is_audio_file(name) || is_dir_name(name);
    extra_rule(gate, LIVE_RE, LIVE_NUMBER_RE, name)
}

/// BD/DVD scans: covers, booklets, artwork, posters — images or archives.
pub fn match_extra_scan(name: &str) -> (r: Option<MatchResult>)
    ensures
        r == spec_match_extra_scan(name@),
{
    let gate = image_or_archive_ok(name);
    extra_rule(gate, SCAN_RE, SCAN_NUMBER_RE, name)
}

/// Font files shipped with the release.
pub fn match_extra_font(name: &str) -> (r: Option<MatchResult>)
    ensures
        r == spec_match_extra_font(name@),
{
    if !is_font_file(name) && !is_archive_file(name) && !is_dir_name(name) {
        return None;
    }
    if is_match(FONT_RE, name) || is_font_file(name) {
        return Some(MatchResult { number: None });
    }
    None
}

/// BD/DVD menu videos.
pub fn match_extra_menu(name: &str) -> (r: Option<MatchResult>)
    ensures
        r == spec_match_extra_menu(name@),
{
    let gate = is_video_or_subtitle_file(name) || is_dir_name(name);
    extra_rule(gate, MENU_RE, MENU_NUMBER_RE, name)
}

/// Audio commentary tracks (video or audio).
pub fn match_extra_audio_commentary(name: &str) -> (r: Option<MatchResult>)
    ensures
        r == spec_match_extra_audio_commentary(name@),
{
    if !is_video_or_subtitle_file(name) && !is_audio_file(name) && !is_dir_name(name) {
        return None;
    }
    if is_match(COMMENTARY_RE, name) {
        return Some(MatchResult { number: None });
    }
    None
}

/// Bonus CDs: OSTs, drama CDs, character songs, radio — audio or archives.
pub fn match_extra_bonus_disc(name: &str) -> (r: Option<MatchResult>)
    ensures
        r == spec_match_extra_bonus_disc(name@),
{
    let gate = disc_data_ok(name);
    extra_rule(gate, BONUS_DISC_RE, BONUS_DISC_NUMBER_RE, name)
}

/// Next-episode previews (次回予告).
pub fn match_extra_next_preview(name: &str) -> (r: Option<MatchResult>)
    ensures
        r == spec_match_extra_next_preview(name@),
{
    let gate = is_video_or_subtitle_file(name) || is_dir_name(name);
    extra_rule(gate, NEXT_PREVIEW_RE, NEXT_PREVIEW_NUMBER_RE, name)
}

/// Generic specials: `SPxx`, SPs, digest, summary, OVA extras — anything
/// clearly extra content that does not fit a more specific category.
pub fn match_extra_generic(name: &str) -> (r: Option<MatchResult>)
    ensures
        r == spec_match_extra_generic(name@),
{
    let gate = generic_video_ok(name);
    extra_rule(gate, GENERIC_RE, GENERIC_NUMBER_RE, name)
}

/// Display name of the bucket directory of a kind.
pub open spec fn spec_extra_bucket_name(kind: ExtraKind) -> Seq<char> {
    match kind {
        ExtraKind::Opening => "Opening"@,
        ExtraKind::Ending => "Ending"@,
        ExtraKind::PromotionVideo => "PV & CM"@,
        ExtraKind::Live => "Live & MV"@,
        ExtraKind::Scan => "Scans"@,
        ExtraKind::Font => "Fonts"@,
        ExtraKind::Menu => "Menus"@,
        ExtraKind::AudioCommentary => "Audio Commentary"@,
        ExtraKind::BonusDisc => "Bonus Discs"@,
        ExtraKind::NextPreview => "Next Previews"@,
        _ => "Extras"@,
    }
}

/// Map an `ExtraKind` to the display name of its bucket directory.
pub fn extra_bucket_name(kind: ExtraKind) -> (r: &'static str)
    ensures
        r@ == spec_extra_bucket_name(kind),
{
    match kind {
        ExtraKind::Opening => "Opening",
        ExtraKind::Ending => "Ending",
        ExtraKind::PromotionVideo => "PV & CM",
        ExtraKind::Live => "Live & MV",
        ExtraKind::Scan => "Scans",
        ExtraKind::Font => "Fonts",
        ExtraKind::Menu => "Menus",
        ExtraKind::AudioCommentary => "Audio Commentary",
        ExtraKind::BonusDisc => "Bonus Discs",
        ExtraKind::NextPreview => "Next Previews",
        _ => "Extras",
    }
}

/// Display title of an extra file: extension stripped, brackets removed,
/// underscores replaced with spaces, separators collapsed.
pub open spec fn spec_extra_title_from_name(name: Seq<char>) -> Seq<char> {
    let stem = match last_dot(name) {
        Some(k) => name.take(k),
        None => name,
    };
    collapse_ws(underscores_to_spaces(without_brackets(stem)))
}

/// Display title for an extra file: extension stripped, brackets removed,
/// underscores replaced with spaces. `series_title_from_name` is not used
/// because it strips release tags that carry meaning for extras
/// (`[SP01]`, `(flac)`).
pub fn extra_title_from_name(name: &str) -> (r: String)
    ensures
        r@ == spec_extra_title_from_name(name@),
{
    let v = chars_of(name);
    let stem = match find_last_dot(&v) {
        Some(k) => prefix_chars(&v, k),
        None => v,
    };
    let t = remove_brackets(&stem);
    let t = replace_underscores(&t);
    let t = collapse_whitespace(&t);
    string_of(&t)
}

/// Kinds whose image files carry a content tag.
pub open spec fn is_scan_like(kind: ExtraKind) -> bool {
    kind == ExtraKind::Scan || kind == ExtraKind::Booklet || kind == ExtraKind::Artwork || kind
        == ExtraKind::Poster
}

/// Content tag of a scan-like image, read from its lowercased name.
pub open spec fn spec_tag_of_lower(lower: Seq<char>) -> Option<Seq<char>> {
    if contains(lower, "booklet"@) || contains(lower, "ブックレット"@) || contains(lower, "小説"@) {
        Some("booklet"@)
    } else if contains(lower, "storyboard"@) || contains(lower, "分镜"@) || contains(lower, "分鏡"@) {
        Some("storyboard"@)
    } else if contains(lower, "poster"@) || contains(lower, "ポスター"@) {
        Some("poster"@)
    } else if contains(lower, "artwork"@) || contains(lower, "原画"@) || contains(lower, "原畫"@)
        || contains(lower, "イラスト"@) || contains(lower, "art book"@) {
        Some("artwork"@)
    } else if contains(lower, "cover"@) || contains(lower, "case"@) || contains(lower, "jacket"@)
        || contains(lower, "ジャケット"@) || contains(lower, "表"@) || contains(lower, "digipack"@)
        || contains(lower, "bd"@) {
        Some("cover"@)
    } else {
        None
    }
}

pub open spec fn spec_extra_tag_from_name(name: Seq<char>, kind: ExtraKind) -> Option<Seq<char>> {
    if !is_scan_like(kind) || !spec_is_image_file(name) {
        None
    } else {
        spec_tag_of_lower(lowercase(name))
    }
}

/// Content tag for scan-like images: booklet / cover / artwork /
/// storyboard / poster. Only applied to actual image files.
pub fn extra_tag_from_name(name: &str, kind: ExtraKind) -> (r: Option<String>)
    ensures
        opt_view(r) == spec_extra_tag_from_name(name@, kind),
{
    let scan_like = match kind {
        ExtraKind::Scan | ExtraKind::Booklet | ExtraKind::Artwork | ExtraKind::Poster => true,
        _ => false,
    };
    if !scan_like || !is_image_file(name) {
        return None;
    }
    let lower_s = to_lowercase(name);
    let lower = chars_of(lower_s.as_str());
    let tag = if contains_str(&lower, "booklet") || contains_str(&lower, "ブックレット")
        || contains_str(&lower, "小説") {
        "booklet"
    } else if contains_str(&lower, "storyboard") || contains_str(&lower, "分镜") || contains_str(
        &lower,
        "分鏡",
    ) {
        "storyboard"
    } else if contains_str(&lower, "poster") || contains_str(&lower, "ポスター") {
        "poster"
    } else if contains_str(&lower, "artwork") || contains_str(&lower, "原画") || contains_str(
        &lower,
        "原畫",
    ) || contains_str(&lower, "イラスト") || contains_str(&lower, "art book") {
        "artwork"
    } else if contains_str(&lower, "cover") || contains_str(&lower, "case") || contains_str(
        &lower,
        "jacket",
    ) || contains_str(&lower, "ジャケット") || contains_str(&lower, "表") || contains_str(
        &lower,
        "digipack",
    ) || contains_str(&lower, "bd") {
        "cover"
    } else {
        return None;
    };
    Some(tag.to_string())
}

/// Stable snake_case identifier of a kind.
pub open spec fn spec_extra_kind_str(kind: ExtraKind) -> Seq<char> {
    match kind {
        ExtraKind::Opening => "opening"@,
        ExtraKind::Ending => "ending"@,
        ExtraKind::InsertSong => "insert_song"@,
        ExtraKind::Credits => "credits"@,
        ExtraKind::Menu => "menu"@,
        ExtraKind::VideoExtra => "video_extra"@,
        ExtraKind::PromotionVideo => "promotion_video"@,
        ExtraKind::NextPreview => "next_preview"@,
        ExtraKind::Live => "live"@,
        ExtraKind::AudioCommentary => "audio_commentary"@,
        ExtraKind::BonusDisc => "bonus_disc"@,
        ExtraKind::Scan => "scan"@,
        ExtraKind::Booklet => "booklet"@,
        ExtraKind::Artwork => "artwork"@,
        ExtraKind::Poster => "poster"@,
        ExtraKind::Subtitle => "subtitle"@,
        ExtraKind::Font => "font"@,
        ExtraKind::Chapter => "chapter"@,
        ExtraKind::Thumbnail => "thumbnail"@,
        ExtraKind::DataFile => "data_file"@,
        ExtraKind::Patch => "patch"@,
        ExtraKind::Generic => "generic"@,
        ExtraKind::Unknown => "unknown"@,
    }
}

/// Stable snake_case identifier for a kind, stored as the `:extra_kind`
/// annotation so the frontend can filter without parsing display names.
pub fn extra_kind_str(kind: ExtraKind) -> (r: &'static str)
    ensures
        r@ == spec_extra_kind_str(kind),
{
    match kind {
        ExtraKind::Opening => "opening",
        ExtraKind::Ending => "ending",
        ExtraKind::InsertSong => "insert_song",
        ExtraKind::Credits => "credits",
        ExtraKind::Menu => "menu",
        ExtraKind::VideoExtra => "video_extra",
        ExtraKind::PromotionVideo => "promotion_video",
        ExtraKind::NextPreview => "next_preview",
        ExtraKind::Live => "live",
        ExtraKind::AudioCommentary => "audio_commentary",
        ExtraKind::BonusDisc => "bonus_disc",
        ExtraKind::Scan => "scan",
        ExtraKind::Booklet => "booklet",
        ExtraKind::Artwork => "artwork",
        ExtraKind::Poster => "poster",
        ExtraKind::Subtitle => "subtitle",
        ExtraKind::Font => "font",
        ExtraKind::Chapter => "chapter",
        ExtraKind::Thumbnail => "thumbnail",
        ExtraKind::DataFile => "data_file",
        ExtraKind::Patch => "patch",
        ExtraKind::Generic => "generic",
        ExtraKind::Unknown => "unknown",
    }
}

/// A snake_case identifier: lowercase ASCII letters and `_`.
pub open spec fn is_snake_char(c: char) -> bool {
    ('a' <= c && c <= 'z') || c == '_'
}

/// Law: the identifiers of the extra kinds tell the kinds apart: two kinds
/// with the same identifier are the same kind; each identifier is
/// non-empty and made of lowercase ASCII letters and `_` only.
pub proof fn lemma_extra_kind_str_distinct(a: ExtraKind, b: ExtraKind)
    ensures
        spec_extra_kind_str(a) == spec_extra_kind_str(b) ==> a == b,
        spec_extra_kind_str(a).len() > 0,
        forall|i: int| 0 <= i < spec_extra_kind_str(a).len() ==> is_snake_char(#[trigger] spec_extra_kind_str(a)[i]),
{
    reveal_strlit("opening");
    reveal_strlit("ending");
    reveal_strlit("insert_song");
    reveal_strlit("credits");
    reveal_strlit("menu");
    reveal_strlit("video_extra");
    reveal_strlit("promotion_video");
    reveal_strlit("next_preview");
    reveal_strlit("live");
    reveal_strlit("audio_commentary");
    reveal_strlit("bonus_disc");
    reveal_strlit("scan");
    reveal_strlit("booklet");
    reveal_strlit("artwork");
    reveal_strlit("poster");
    reveal_strlit("subtitle");
    reveal_strlit("font");
    reveal_strlit("chapter");
    reveal_strlit("thumbnail");
    reveal_strlit("data_file");
    reveal_strlit("patch");
    reveal_strlit("generic");
    reveal_strlit("unknown");
    let sa = spec_extra_kind_str(a);
    let sb = spec_extra_kind_str(b);
    if sa == sb {
        assert(sa.len() == sb.len());
        assert(sa[0] == sb[0]);
        assert(sa[1] == sb[1]);
    }
}

} // verus!
