use cosmox_plugin_anime::anime::action::matcher::episode::{
    match_episode_bracketed, match_episode_chinese, match_episode_dash_number, match_episode_tv,
    strip_episode_markers,
};
use cosmox_plugin_anime::anime::action::matcher::ext::{is_video_file, is_video_or_subtitle_file};
use cosmox_plugin_anime::anime::action::matcher::extra::{
    extra_bucket_name, extra_kind_str, extra_tag_from_name, extra_title_from_name, is_dir_name,
    match_extra_audio_commentary, match_extra_bonus_disc, match_extra_ending, match_extra_font,
    match_extra_generic, match_extra_live, match_extra_menu, match_extra_next_preview,
    match_extra_opening, match_extra_promotion, match_extra_scan,
};
use cosmox_plugin_anime::anime::action::matcher::info::{MatchResult, Matcher};
use cosmox_plugin_anime::anime::action::matcher::name::normalize_fullwidth;
use cosmox_plugin_anime::anime::action::matcher::season::{
    chinese_digit, match_season_chinese, match_season_english, match_season_numbered_prefix,
    match_season_numbered_prefix_any, match_season_part, match_season_part_any,
    match_season_s_number, roman_digit, strip_season_markers,
};
use cosmox_plugin_anime::anime::action::rebuild::rules::{dir_rules, file_rules};
use cosmox_plugin_anime::anime::action::rebuild::tree::same_bucket_name;
use cosmox_plugin_anime::anime::action::{
    parse_info, series_title_from_name, Confidence, ExtraKind, MatchRule, ParsedInfo, Scored,
    TokenKind,
};
use cosmox_plugin_anime::text::{is_whitespace, parse_u32};

fn num(n: u32) -> Option<MatchResult> {
    Some(MatchResult { number: Some(n) })
}

#[test]
fn fullwidth_digits_and_brackets_are_folded() {
    assert_eq!(normalize_fullwidth("第０１話（BD）"), "第01話(BD)");
    assert_eq!(normalize_fullwidth("Ａ\u{3000}－［］"), "Ａ -[]");
    assert_eq!(normalize_fullwidth("plain"), "plain");
    let once = normalize_fullwidth("［Ｇｒｏｕｐ］第１２話（ＴＶ）");
    assert_eq!(normalize_fullwidth(&once), once);
}

#[test]
fn series_title_drops_release_tags() {
    assert_eq!(series_title_from_name("[VCB-Studio] Sousou no Frieren [1080p]"), "Sousou no Frieren");
    assert_eq!(series_title_from_name("Bocchi_the_Rock (2022)"), "Bocchi the Rock");
    assert_eq!(series_title_from_name("Frieren [1080p] S2"), "Frieren S2");
    assert_eq!(series_title_from_name("  Kimi__no  [Na] Wa "), "Kimi no Na Wa");
    assert_eq!(series_title_from_name("Frieren"), "Frieren");
}

#[test]
fn parse_u32_follows_std() {
    assert_eq!(parse_u32("007"), Some(7));
    assert_eq!(parse_u32("+12"), Some(12));
    assert_eq!(parse_u32("4294967295"), Some(u32::MAX));
    assert_eq!(parse_u32("4294967296"), None);
    assert_eq!(parse_u32(""), None);
    assert_eq!(parse_u32("+"), None);
    assert_eq!(parse_u32("1a"), None);
    assert_eq!(parse_u32("-1"), None);
}

#[test]
fn video_extensions_ignore_case() {
    assert!(is_video_file("Show - 01.MKV"));
    assert!(!is_video_file("cover.jpg"));
    assert!(is_video_or_subtitle_file("Show S2E1.ass"));
}

#[test]
fn season_markers() {
    assert_eq!(match_season_s_number("Show S2 - 01.mkv"), num(2));
    assert_eq!(match_season_s_number("Shows2x"), None);
    assert_eq!(match_season_chinese("葬送的芙莉蓮 第二季"), num(2));
    assert_eq!(match_season_chinese("某科学 第3期"), num(3));
    assert_eq!(match_season_english("Show Season 3"), num(3));
    assert_eq!(match_season_part("Show Part II.mkv"), num(2));
    assert_eq!(match_season_part("Show Part II.txt"), None);
    assert_eq!(match_season_part_any("Show Part 4"), num(4));
    assert_eq!(match_season_numbered_prefix("2. Show.mkv"), num(2));
    assert_eq!(match_season_numbered_prefix("2. Show.jpg"), None);
    assert_eq!(match_season_numbered_prefix_any("06. Otorimonogatari"), num(6));
}

#[test]
fn season_numerals() {
    assert_eq!(chinese_digit("十"), Some(10));
    assert_eq!(chinese_digit("百"), Some(100));
    assert_eq!(chinese_digit("十一"), None);
    assert_eq!(roman_digit("IV"), Some(4));
    assert_eq!(roman_digit("viii"), Some(8));
    assert_eq!(roman_digit("xi"), None);
}

#[test]
fn strip_season_markers_merges_titles() {
    assert_eq!(strip_season_markers("葬送的芙莉蓮 S2"), "葬送的芙莉蓮");
    assert_eq!(strip_season_markers("Show Season 2"), "Show");
    assert_eq!(strip_season_markers("  Show  "), "Show");
    assert_eq!(strip_season_markers("S2"), "S2");
    assert_eq!(strip_season_markers("葬送的芙莉蓮"), "葬送的芙莉蓮");
    assert_eq!(strip_season_markers("xxx 第二季"), "xxx");
}

#[test]
fn strip_episode_markers_keeps_title() {
    assert_eq!(strip_episode_markers("葬送的芙莉蓮 - 02 [1080p]"), "葬送的芙莉蓮1080p]");
    assert_eq!(strip_episode_markers("Show 第０２話"), "Show");
    assert_eq!(strip_episode_markers("[02]"), "[02]");
    assert_eq!(strip_episode_markers("葬送的芙莉蓮 - 02"), "葬送的芙莉蓮");
}

#[test]
fn episode_markers() {
    assert_eq!(match_episode_dash_number("[Group] Show - 02 [1080p].mkv"), num(2));
    assert_eq!(match_episode_dash_number("[Group] Show - 02 [1080p].ass"), None);
    assert_eq!(match_episode_chinese("第０１話.mkv"), num(1));
    assert_eq!(match_episode_chinese("第12集.mp4"), num(12));
    assert_eq!(match_episode_bracketed("[Group][Show][05][1080p].mkv"), num(5));
    assert_eq!(match_episode_bracketed("[Group][Show][2024][1080p].mkv"), None);
    assert_eq!(match_episode_bracketed("[Group][Show][100].mkv"), None);
    assert_eq!(match_episode_tv("Show.TV 12.mkv"), num(12));
}

#[test]
fn extra_openings_and_endings() {
    assert_eq!(match_extra_opening("NCOP1.mkv"), num(1));
    assert_eq!(match_extra_opening("Opening.mkv"), Some(MatchResult { number: None }));
    assert_eq!(match_extra_opening("NCOP1.jpg"), None);
    assert_eq!(match_extra_ending("NCED 2.mkv"), num(2));
    assert_eq!(match_extra_ending("Show - 01.mkv"), None);
}

#[test]
fn extra_other_kinds() {
    assert_eq!(match_extra_promotion("PV - 02.mkv"), num(2));
    assert_eq!(match_extra_live("Live 3.flac"), num(3));
    assert_eq!(match_extra_scan("Scans"), Some(MatchResult { number: None }));
    assert_eq!(match_extra_scan("Scan 03.jpg"), num(3));
    assert_eq!(match_extra_scan("Scan 03.mkv"), None);
    assert_eq!(match_extra_font("font.ttf"), Some(MatchResult { number: None }));
    assert_eq!(match_extra_font("Fonts.zip"), Some(MatchResult { number: None }));
    assert_eq!(match_extra_font("Fonts.mkv"), None);
    assert_eq!(match_extra_menu("Menu - 01.mkv"), num(1));
    assert_eq!(match_extra_audio_commentary("Audio Commentary.flac"), Some(MatchResult { number: None }));
    assert_eq!(match_extra_bonus_disc("OST Vol.2.flac"), num(2));
    assert_eq!(match_extra_bonus_disc("OST.cue"), Some(MatchResult { number: None }));
    assert_eq!(match_extra_next_preview("次回予告.mkv"), Some(MatchResult { number: None }));
    assert_eq!(match_extra_generic("SP03.mkv"), num(3));
    assert_eq!(match_extra_generic("SP03.txt"), None);
}

#[test]
fn directory_names_pass_gates() {
    assert!(is_dir_name("Scans"));
    assert!(is_dir_name("Vol.09"));
    assert!(is_dir_name("Vol."));
    assert!(!is_dir_name("cover.jpg"));
}

#[test]
fn extra_display_helpers() {
    assert_eq!(extra_bucket_name(ExtraKind::PromotionVideo), "PV & CM");
    assert_eq!(extra_bucket_name(ExtraKind::Booklet), "Extras");
    assert_eq!(extra_kind_str(ExtraKind::AudioCommentary), "audio_commentary");
    assert_eq!(extra_kind_str(ExtraKind::Unknown), "unknown");
    assert_eq!(extra_title_from_name("[SP01]_Making_of.mkv"), "SP01 Making of");
    assert_eq!(extra_title_from_name("Menu  01"), "Menu 01");
}

#[test]
fn extra_tags_for_scans() {
    assert_eq!(extra_tag_from_name("Booklet_01.jpg", ExtraKind::Scan), Some("booklet".to_string()));
    assert_eq!(extra_tag_from_name("Poster.PNG", ExtraKind::Poster), Some("poster".to_string()));
    assert_eq!(extra_tag_from_name("disc 1 cover.png", ExtraKind::Scan), Some("cover".to_string()));
    assert_eq!(extra_tag_from_name("page.png", ExtraKind::Scan), None);
    assert_eq!(extra_tag_from_name("cover.mkv", ExtraKind::Scan), None);
    assert_eq!(extra_tag_from_name("cover.png", ExtraKind::Opening), None);
}

#[test]
fn confidence_order() {
    assert!(Confidence::Explicit > Confidence::Normal);
    assert!(Confidence::Normal > Confidence::Ambiguous);
    assert_eq!(Confidence::Explicit.rank(), 2);
    assert!(Confidence::Normal.at_least(Confidence::Normal));
    assert!(!Confidence::Ambiguous.at_least(Confidence::Normal));
}

#[test]
fn pick_prefers_confidence_then_first() {
    let a = Scored { value: 1u32, confidence: Confidence::Normal };
    let b = Scored { value: 2u32, confidence: Confidence::Explicit };
    let c = Scored { value: 3u32, confidence: Confidence::Normal };
    assert_eq!(Scored::pick(Some(a), Some(b)).unwrap().value, 2);
    assert_eq!(Scored::pick(Some(a), Some(c)).unwrap().value, 1);
    assert_eq!(Scored::pick(None, Some(c)).unwrap().value, 3);
    assert_eq!(Scored::pick(Some(a), None).unwrap().value, 1);
    assert!(Scored::<u32>::pick(None, None).is_none());
}

#[test]
fn inherit_child_wins_ties_and_keeps_episode() {
    let parent = ParsedInfo {
        season: Some(Scored { value: 2, confidence: Confidence::Explicit }),
        episode: Some(Scored { value: 9, confidence: Confidence::Explicit }),
        kind: Some(Scored { value: TokenKind::Extra(ExtraKind::Scan), confidence: Confidence::Explicit }),
        title: "parent".to_string(),
    };
    let child = ParsedInfo {
        season: Some(Scored { value: 3, confidence: Confidence::Explicit }),
        episode: None,
        kind: Some(Scored { value: TokenKind::Extra(ExtraKind::Generic), confidence: Confidence::Normal }),
        title: String::new(),
    };
    let r = ParsedInfo::inherit(&parent, &child);
    assert_eq!(r.season.unwrap().value, 3);
    assert!(r.episode.is_none());
    assert_eq!(r.kind.unwrap().value, TokenKind::Extra(ExtraKind::Scan));
    assert_eq!(r.title, "parent");
}

#[test]
fn parse_info_with_file_rules() {
    let rules = file_rules();
    let info = parse_info("[Group] Show S2 - 03 [1080p].mkv", &rules);
    let season = info.season.unwrap();
    assert_eq!(season.value, 2);
    assert_eq!(season.confidence, Confidence::Explicit);
    assert_eq!(info.episode.unwrap().value, 3);
    assert!(info.kind.is_none());
    assert!(info.title.is_empty());

    let extra = parse_info("Menu - 01.mkv", &rules);
    assert_eq!(extra.kind.unwrap().value, TokenKind::Extra(ExtraKind::Menu));
    assert!(extra.episode.is_none());
    let both = parse_info("SP03 - 01 [BD].mkv", &rules);
    assert_eq!(both.kind.unwrap().value, TokenKind::Extra(ExtraKind::Generic));
    assert_eq!(both.kind.unwrap().confidence, Confidence::Normal);
    assert_eq!(both.episode.unwrap().value, 1);
}

#[test]
fn parse_info_first_rule_of_a_kind_wins() {
    let rules = [
        MatchRule { kind: TokenKind::Season, confidence: Confidence::Ambiguous, match_fn: Matcher::SeasonNumberedPrefixAny },
        MatchRule { kind: TokenKind::Season, confidence: Confidence::Explicit, match_fn: Matcher::SeasonSNumber },
    ];
    let info = parse_info("3. Show S2", &rules);
    let season = info.season.unwrap();
    assert_eq!(season.value, 3);
    assert_eq!(season.confidence, Confidence::Ambiguous);
}

#[test]
fn parse_info_with_dir_rules() {
    let rules = dir_rules();
    let info = parse_info("SPs", &rules);
    assert_eq!(info.kind.unwrap().value, TokenKind::Extra(ExtraKind::Generic));
    let info = parse_info("06. Otorimonogatari", &rules);
    assert_eq!(info.season.unwrap().value, 6);
}

#[test]
fn bucket_names_collapse_plurals() {
    assert!(same_bucket_name("Scan", "Scans"));
    assert!(same_bucket_name("EXTRA", "Extras"));
    assert!(same_bucket_name("Fonts", "Fonts"));
    assert!(!same_bucket_name("SPs", "Extras"));
}

#[test]
fn parse_info_season_rule_without_number_claims_the_season() {
    let rules = [
        MatchRule { kind: TokenKind::Season, confidence: Confidence::Normal, match_fn: Matcher::ExtraOpening },
        MatchRule { kind: TokenKind::Season, confidence: Confidence::Explicit, match_fn: Matcher::SeasonSNumber },
    ];
    assert_eq!(match_extra_opening("NCOP S5.mkv"), Some(MatchResult { number: None }));
    assert_eq!(match_season_s_number("NCOP S5.mkv"), num(5));
    let info = parse_info("NCOP S5.mkv", &rules);
    assert!(info.season.is_none());
    let info = parse_info("Show S5.mkv", &rules);
    assert_eq!(info.season.unwrap().value, 5);
}

#[test]
fn white_space_matches_std() {
    for u in 0u32..0x3100 {
        if let Some(c) = char::from_u32(u) {
            assert_eq!(is_whitespace(c), c.is_whitespace(), "U+{u:04X}");
        }
    }
    assert!(!is_whitespace('\u{feff}'));
}

#[test]
fn extra_kind_strings_are_distinct_snake_case() {
    let all = [
        ExtraKind::Opening, ExtraKind::Ending, ExtraKind::InsertSong, ExtraKind::Credits, ExtraKind::Menu,
        ExtraKind::VideoExtra, ExtraKind::PromotionVideo, ExtraKind::NextPreview, ExtraKind::Live,
        ExtraKind::AudioCommentary, ExtraKind::BonusDisc, ExtraKind::Scan, ExtraKind::Booklet,
        ExtraKind::Artwork, ExtraKind::Poster, ExtraKind::Subtitle, ExtraKind::Font, ExtraKind::Chapter,
        ExtraKind::Thumbnail, ExtraKind::DataFile, ExtraKind::Patch, ExtraKind::Generic, ExtraKind::Unknown,
    ];
    for (i, a) in all.iter().enumerate() {
        let s = extra_kind_str(*a);
        assert!(!s.is_empty() && s.chars().all(|c| c.is_ascii_lowercase() || c == '_'), "{s}");
        for b in &all[i + 1..] {
            assert_ne!(s, extra_kind_str(*b));
        }
    }
    assert_eq!(extra_kind_str(ExtraKind::PromotionVideo), "promotion_video");
}
