//! Name normalization: fullwidth folding and series-title cleanup.
use vstd::prelude::*;

use crate::rx::{regex_removed_all, remove_all};
use crate::text::{
    chars_of, collapse_whitespace, collapse_ws, remove_brackets, replace_underscores, string_of,
    string_push, underscores_to_spaces, without_brackets,
};

verus! {

/// `c` is one of the fullwidth forms that `normalize_fullwidth` folds:
/// digits ０-９, brackets （）［］, space U+3000 and hyphen －.
pub open spec fn spec_fullwidth_char(c: char) -> bool {
    ('０' <= c && c <= '９') || c == '（' || c == '）' || c == '［' || c == '］' || c == '\u{3000}'
        || c == '－'
}

/// ASCII equivalent of a fullwidth form; other characters are unchanged.
pub open spec fn spec_ascii_of_fullwidth(c: char) -> char {
    if '０' <= c && c <= '９' {
        ((c as u32 - '０' as u32) + '0' as u32) as char
    } else if c == '（' {
        '('
    } else if c == '）' {
        ')'
    } else if c == '［' {
        '['
    } else if c == '］' {
        ']'
    } else if c == '\u{3000}' {
        ' '
    } else if c == '－' {
        '-'
    } else {
        c
    }
}

/// Every character folded by `spec_ascii_of_fullwidth`.
pub open spec fn spec_normalize_fullwidth(s: Seq<char>) -> Seq<char> {
    s.map_values(|c: char| spec_ascii_of_fullwidth(c))
}

pub fn fullwidth_char(c: char) -> (r: bool)
    ensures
        r == spec_fullwidth_char(c),
{
    ('０' <= c && c <= '９') || c == '（' || c == '）' || c == '［' || c == '］' || c == '\u{3000}'
        || c == '－'
}

pub fn ascii_of_fullwidth(c: char) -> (r: char)
    ensures
        r == spec_ascii_of_fullwidth(c),
{
    if '０' <= c && c <= '９' {
        // Fullwidth digits U+FF10..U+FF19 map directly onto ASCII digits.
        let d: u8 = (c as u32 - '０' as u32) as u8;
        (48u8 + d) as char
    } else if c == '（' {
        '('
    } else if c == '）' {
        ')'
    } else if c == '［' {
        '['
    } else if c == '］' {
        ']'
    } else if c == '\u{3000}' {
        ' '
    } else if c == '－' {
        '-'
    } else {
        c
    }
}

/// Map fullwidth Unicode variants to their ASCII equivalents so rules
/// written for ASCII match Japanese release names (`第０１話（BD）`):
/// digits ０-９, brackets （）［］, space U+3000 and hyphen －.
pub fn normalize_fullwidth(name: &str) -> (r: String)
    ensures
        r@ == spec_normalize_fullwidth(name@),
{
    let mut out = String::new();
    for c in it: name.chars()
        invariant
            it.seq() == name@,
            out@ == spec_normalize_fullwidth(name@.take(it.index() as int)),
    {
        let d = ascii_of_fullwidth(c);
        string_push(&mut out, d);
        proof {
            assert(spec_normalize_fullwidth(name@.take(it.index() + 1)) =~= spec_normalize_fullwidth(
                name@.take(it.index() as int),
            ).push(d));
        }
    }
    proof {
        assert(name@.take(name@.len() as int) =~= name@);
    }
    out
}

/// The release-tag pattern removed by `series_title_from_name`.
pub const SERIES_TAGS_RE: &'static str = r"\(\d{4}-\d{2}-\d{2}\)|\[\d{1,2}-\d{2}\]|\[\d{4}-\d{4}\]|\[(Part|PART) (-?\d)*\]|[\[\(]\d{4}[\]\)]|[\[\(]([\+_ -\.]?(x264|x264_10bit|1920(x|X)1080|Ma10p_1080p|(480|720|1080|2160)(p|P)|(2|4|8)(k|K)|JPSC|CR|OVA|ova|TV|tv|GB|gb|BD|bd|dvdrip|DVDRip|DVDrip|DVDRIP|BDRIP|BDrip|BDRip|P10|WebRip|webrip|AAC|ASSx2|HEVC|hevc|10(bit|BIT)|opus|OPUS|OPUSx2|AAC|ALAC|FLAC|AC3|MKV|mkv|MP4|mp4|ALL|all|Multi-Subs|Multiple Subtitle))*[\]\)]|\[\d{1,2}-\d{2}(TV|tv)?(全集)?(\+(合集版|SP|特典映像|剧场版|OAD|OVA))*\]|\[(flac|FLAC)\]|\[(flac|FLAC)(x|X)2\]|\[(HEVC|hevc)((_(x|X)265)|-10(bit|Bit|BIT))\]|\[(简繁外挂|日英双语|简体内嵌|简繁日双语外挂|简繁内封)\]|\[带配音音轨\]|\[HKG\]|\[DHR(&LKSUB)?\]|\[Comicat\]|\[CheeseAni\]|\[VCB-Studio\]|\[Snow-Raws\]|\[Nekomoe kissaten(&LoliHouse)?\]|\[hyakuhuyu(&LoliHouse)?\]|\[SAIO-Raws\]|\[Erai-raws\]|\[DBD-Raws\]|\[Fyy Raws\]|\[(DBD|dbd)制作组\]|\[路基艾尔\]|\[Sakurato&7³ACG\]|\[(Rev|rev)\]|\[(GB|gb)&?(BIG5|big5)\]|\[343-Labs\]|\.(mkv|MKV|mp4|MP4)|(TV|tv)|\.(OVA|ova)|1920(x|X)1080";

/// What remains of a name once the release tags are gone: underscores
/// become spaces, square brackets are dropped, and the separators left
/// collapse into single ASCII spaces, with none at either end.
pub open spec fn spec_clean_series_title(stripped: Seq<char>) -> Seq<char> {
    collapse_ws(without_brackets(underscores_to_spaces(stripped)))
}

/// The bare series title of a directory name.
pub open spec fn spec_series_title_from_name(name: Seq<char>) -> Seq<char> {
    spec_clean_series_title(regex_removed_all(SERIES_TAGS_RE@, name))
}

/// The cleanup that follows tag removal in `series_title_from_name`.
pub fn clean_series_title(stripped: &str) -> (r: String)
    ensures
        r@ == spec_clean_series_title(stripped@),
{
    let v = chars_of(stripped);
    let v = replace_underscores(&v);
    let v = remove_brackets(&v);
    let v = collapse_whitespace(&v);
    string_of(&v)
}

/// Strip release-group / technical tags from a series directory name,
/// leaving the bare title. Removes bracketed tags (`[1080p]`, `[HEVC]`,
/// `[VCB-Studio]`, ...), year markers, and trailing extensions, then
/// collapses separators into single ASCII spaces.
pub fn series_title_from_name(name: &str) -> (r: String)
    ensures
        r@ == spec_series_title_from_name(name@),
{
    let stripped = remove_all(SERIES_TAGS_RE, name);
    clean_series_title(stripped.as_str())
}

/// Law: folding fullwidth forms leaves none behind, changes nothing in a
/// name without them, and folding twice is folding once.
pub proof fn lemma_normalize_fullwidth(s: Seq<char>)
    ensures
        forall|i: int| 0 <= i < s.len() ==> !spec_fullwidth_char(#[trigger] spec_normalize_fullwidth(s)[i]),
        (forall|i: int| 0 <= i < s.len() ==> !spec_fullwidth_char(#[trigger] s[i])) ==> spec_normalize_fullwidth(s) == s,
        spec_normalize_fullwidth(spec_normalize_fullwidth(s)) == spec_normalize_fullwidth(s),
{
    let n = spec_normalize_fullwidth(s);
    assert forall|i: int| 0 <= i < s.len() implies !spec_fullwidth_char(#[trigger] n[i]) by {
        let c = s[i];
        if '０' <= c && c <= '９' {
            let d = (c as u32 - '０' as u32) + '0' as u32;
            assert(0x30 <= d <= 0x39);
            assert((d as char) as u32 == d);
        }
    }
    if forall|i: int| 0 <= i < s.len() ==> !spec_fullwidth_char(#[trigger] s[i]) {
        assert(n =~= s);
    }
    assert(spec_normalize_fullwidth(n) =~= n);
}

} // verus!
