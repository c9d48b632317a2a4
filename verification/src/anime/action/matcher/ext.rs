//! File-extension whitelists and the suffix checks built on them.
use vstd::prelude::*;

use crate::text::{chars_of, ends_with, ends_with_str, lowercase, to_lowercase};

verus! {

/// Whitelist of video extensions. Episode match functions reject any
/// name not ending in one of these, so non-video files (subtitles,
/// images, fonts, ...) are never parsed as episodes.
pub const VIDEO_EXTS: [&'static str; 4] = [".mkv", ".mp4", ".avi", ".m2ts"];

/// Whitelist of subtitle extensions. Subtitle files mirror video naming
/// (`Show S2E1.ass`), so low-confidence season rules may fire on them,
/// but never on unrelated files (images, fonts, notes, ...).
pub const SUBTITLE_EXTS: [&'static str; 7] = [".ass", ".srt", ".ssa", ".sub", ".sup", ".idx", ".vtt"];

/// Whitelist of audio extensions (OSTs, drama CDs, character songs).
pub const AUDIO_EXTS: [&'static str; 8] = [
    ".flac", ".mp3", ".wav", ".mka", ".ape", ".dts", ".tta", ".opus",
];

/// Whitelist of image extensions (scans, booklets, artwork).
pub const IMAGE_EXTS: [&'static str; 8] = [
    ".jpg", ".jpeg", ".png", ".webp", ".bmp", ".gif", ".avif", ".cbz",
];

/// Whitelist of font extensions.
pub const FONT_EXTS: [&'static str; 3] = [".ttf", ".ttc", ".otf"];

/// Whitelist of archive extensions (fonts / scans shipped as archives).
pub const ARCHIVE_EXTS: [&'static str; 3] = [".rar", ".zip", ".7z"];

/// The lowercased `name` ends with one of `exts`.
pub open spec fn has_suffix_in(name: Seq<char>, exts: Seq<&str>) -> bool {
    exists|i: int| 0 <= i < exts.len() && ends_with(lowercase(name), #[trigger] exts[i]@)
}

/// Case-insensitive suffix test against a whitelist.
pub fn has_any_suffix(name: &str, exts: &[&str]) -> (r: bool)
    ensures
        r == has_suffix_in(name@, exts@),
{
    let lower = to_lowercase(name);
    let lv = chars_of(lower.as_str());
    let mut i: usize = 0;
    while i < exts.len()
        invariant
            lv@ == lowercase(name@),
            i <= exts@.len(),
            forall|k: int| 0 <= k < i ==> !ends_with(lowercase(name@), #[trigger] exts@[k]@),
        decreases exts.len() - i,
    {
        if ends_with_str(&lv, exts[i]) {
            return true;
        }
        i = i + 1;
    }
    false
}

pub open spec fn spec_is_video_file(name: Seq<char>) -> bool {
    has_suffix_in(name, VIDEO_EXTS@)
}

pub open spec fn spec_is_subtitle_file(name: Seq<char>) -> bool {
    has_suffix_in(name, SUBTITLE_EXTS@)
}

pub open spec fn spec_is_audio_file(name: Seq<char>) -> bool {
    has_suffix_in(name, AUDIO_EXTS@)
}

pub open spec fn spec_is_image_file(name: Seq<char>) -> bool {
    has_suffix_in(name, IMAGE_EXTS@)
}

pub open spec fn spec_is_font_file(name: Seq<char>) -> bool {
    has_suffix_in(name, FONT_EXTS@)
}

pub open spec fn spec_is_archive_file(name: Seq<char>) -> bool {
    has_suffix_in(name, ARCHIVE_EXTS@)
}

pub open spec fn spec_is_video_or_subtitle_file(name: Seq<char>) -> bool {
    spec_is_subtitle_file(name) || spec_is_video_file(name)
}

pub fn is_video_file(name: &str) -> (r: bool)
    ensures
        r == spec_is_video_file(name@),
{
    has_any_suffix(name, &VIDEO_EXTS)
}

pub fn is_audio_file(name: &str) -> (r: bool)
    ensures
        r == spec_is_audio_file(name@),
{
    has_any_suffix(name, &AUDIO_EXTS)
}

pub fn is_image_file(name: &str) -> (r: bool)
    ensures
        r == spec_is_image_file(name@),
{
    has_any_suffix(name, &IMAGE_EXTS)
}

pub fn is_font_file(name: &str) -> (r: bool)
    ensures
        r == spec_is_font_file(name@),
{
    has_any_suffix(name, &FONT_EXTS)
}

pub fn is_archive_file(name: &str) -> (r: bool)
    ensures
        r == spec_is_archive_file(name@),
{
    has_any_suffix(name, &ARCHIVE_EXTS)
}

/// True when `name` looks like a video or subtitle file. Used by
/// low-confidence season rules, which must not treat arbitrary files
/// (images, fonts, notes, ...) as season evidence.
pub fn is_video_or_subtitle_file(name: &str) -> (r: bool)
    ensures
        r == spec_is_video_or_subtitle_file(name@),
{
    has_any_suffix(name, &SUBTITLE_EXTS) || is_video_file(name)
}

} // verus!
