//! The rule tables for file and directory names.
use vstd::prelude::*;

use crate::anime::action::matcher::info::{
    first_season_rule, lemma_first_match_wins, rule_number, season_fires, spec_parse_rules, Confidence,
    ExtraKind, MatchResult, MatchRule, Matcher, Scored, TokenKind,
};
use crate::anime::action::matcher::season::{
    spec_match_season_chinese, spec_match_season_english, spec_match_season_s_number,
};

verus! {

/// Rules for files. Season matchers are gated on video/subtitle extensions
/// so arbitrary files never count as season evidence. Extra rules run
/// before episode rules so `Menu - 01`, `SP03 PV` etc. are claimed as
/// extras instead of episodes.
pub open spec fn spec_file_rules() -> Seq<MatchRule> {
    seq![
        MatchRule { kind: TokenKind::Season, confidence: Confidence::Explicit, match_fn: Matcher::SeasonSNumber },
        MatchRule { kind: TokenKind::Season, confidence: Confidence::Explicit, match_fn: Matcher::SeasonChinese },
        MatchRule { kind: TokenKind::Season, confidence: Confidence::Explicit, match_fn: Matcher::SeasonEnglish },
        MatchRule { kind: TokenKind::Season, confidence: Confidence::Normal, match_fn: Matcher::SeasonPart },
        MatchRule { kind: TokenKind::Season, confidence: Confidence::Ambiguous, match_fn: Matcher::SeasonNumberedPrefix },
        MatchRule { kind: TokenKind::Extra(ExtraKind::Opening), confidence: Confidence::Explicit, match_fn: Matcher::ExtraOpening },
        MatchRule { kind: TokenKind::Extra(ExtraKind::Ending), confidence: Confidence::Explicit, match_fn: Matcher::ExtraEnding },
        MatchRule { kind: TokenKind::Extra(ExtraKind::NextPreview), confidence: Confidence::Explicit, match_fn: Matcher::ExtraNextPreview },
        MatchRule { kind: TokenKind::Extra(ExtraKind::PromotionVideo), confidence: Confidence::Explicit, match_fn: Matcher::ExtraPromotion },
        MatchRule { kind: TokenKind::Extra(ExtraKind::Live), confidence: Confidence::Explicit, match_fn: Matcher::ExtraLive },
        MatchRule { kind: TokenKind::Extra(ExtraKind::Scan), confidence: Confidence::Explicit, match_fn: Matcher::ExtraScan },
        MatchRule { kind: TokenKind::Extra(ExtraKind::Font), confidence: Confidence::Explicit, match_fn: Matcher::ExtraFont },
        MatchRule { kind: TokenKind::Extra(ExtraKind::Menu), confidence: Confidence::Explicit, match_fn: Matcher::ExtraMenu },
        MatchRule { kind: TokenKind::Extra(ExtraKind::AudioCommentary), confidence: Confidence::Explicit, match_fn: Matcher::ExtraAudioCommentary },
        MatchRule { kind: TokenKind::Extra(ExtraKind::BonusDisc), confidence: Confidence::Explicit, match_fn: Matcher::ExtraBonusDisc },
        MatchRule { kind: TokenKind::Extra(ExtraKind::Generic), confidence: Confidence::Normal, match_fn: Matcher::ExtraGeneric },
        MatchRule { kind: TokenKind::Episode, confidence: Confidence::Explicit, match_fn: Matcher::EpisodeDashNumber },
        MatchRule { kind: TokenKind::Episode, confidence: Confidence::Explicit, match_fn: Matcher::EpisodeChinese },
        MatchRule { kind: TokenKind::Episode, confidence: Confidence::Normal, match_fn: Matcher::EpisodeBracketed },
        MatchRule { kind: TokenKind::Episode, confidence: Confidence::Normal, match_fn: Matcher::EpisodeTv },
    ]
}

/// Rules for directories. Season matchers are ungated because directory
/// names (`06. Otorimonogatari`) never pass the extension whitelist; the
/// same extra rules apply so extra directories are recognized.
pub open spec fn spec_dir_rules() -> Seq<MatchRule> {
    seq![
        MatchRule { kind: TokenKind::Season, confidence: Confidence::Explicit, match_fn: Matcher::SeasonSNumber },
        MatchRule { kind: TokenKind::Season, confidence: Confidence::Explicit, match_fn: Matcher::SeasonChinese },
        MatchRule { kind: TokenKind::Season, confidence: Confidence::Explicit, match_fn: Matcher::SeasonEnglish },
        MatchRule { kind: TokenKind::Season, confidence: Confidence::Normal, match_fn: Matcher::SeasonPartAny },
        MatchRule { kind: TokenKind::Season, confidence: Confidence::Ambiguous, match_fn: Matcher::SeasonNumberedPrefixAny },
        MatchRule { kind: TokenKind::Extra(ExtraKind::Opening), confidence: Confidence::Explicit, match_fn: Matcher::ExtraOpening },
        MatchRule { kind: TokenKind::Extra(ExtraKind::Ending), confidence: Confidence::Explicit, match_fn: Matcher::ExtraEnding },
        MatchRule { kind: TokenKind::Extra(ExtraKind::NextPreview), confidence: Confidence::Explicit, match_fn: Matcher::ExtraNextPreview },
        MatchRule { kind: TokenKind::Extra(ExtraKind::PromotionVideo), confidence: Confidence::Explicit, match_fn: Matcher::ExtraPromotion },
        MatchRule { kind: TokenKind::Extra(ExtraKind::Live), confidence: Confidence::Explicit, match_fn: Matcher::ExtraLive },
        MatchRule { kind: TokenKind::Extra(ExtraKind::Scan), confidence: Confidence::Explicit, match_fn: Matcher::ExtraScan },
        MatchRule { kind: TokenKind::Extra(ExtraKind::Font), confidence: Confidence::Explicit, match_fn: Matcher::ExtraFont },
        MatchRule { kind: TokenKind::Extra(ExtraKind::Menu), confidence: Confidence::Explicit, match_fn: Matcher::ExtraMenu },
        MatchRule { kind: TokenKind::Extra(ExtraKind::AudioCommentary), confidence: Confidence::Explicit, match_fn: Matcher::ExtraAudioCommentary },
        MatchRule { kind: TokenKind::Extra(ExtraKind::BonusDisc), confidence: Confidence::Explicit, match_fn: Matcher::ExtraBonusDisc },
        MatchRule { kind: TokenKind::Extra(ExtraKind::Generic), confidence: Confidence::Normal, match_fn: Matcher::ExtraGeneric },
    ]
}

/// The file rule table, in priority order.
pub fn file_rules() -> (r: Vec<MatchRule>)
    ensures
        r@ == spec_file_rules(),
{
    let mut v: Vec<MatchRule> = Vec::new();
    v.push(MatchRule { kind: TokenKind::Season, confidence: Confidence::Explicit, match_fn: Matcher::SeasonSNumber });
    v.push(MatchRule { kind: TokenKind::Season, confidence: Confidence::Explicit, match_fn: Matcher::SeasonChinese });
    v.push(MatchRule { kind: TokenKind::Season, confidence: Confidence::Explicit, match_fn: Matcher::SeasonEnglish });
    v.push(MatchRule { kind: TokenKind::Season, confidence: Confidence::Normal, match_fn: Matcher::SeasonPart });
    v.push(MatchRule { kind: TokenKind::Season, confidence: Confidence::Ambiguous, match_fn: Matcher::SeasonNumberedPrefix });
    v.push(MatchRule { kind: TokenKind::Extra(ExtraKind::Opening), confidence: Confidence::Explicit, match_fn: Matcher::ExtraOpening });
    v.push(MatchRule { kind: TokenKind::Extra(ExtraKind::Ending), confidence: Confidence::Explicit, match_fn: Matcher::ExtraEnding });
    v.push(MatchRule { kind: TokenKind::Extra(ExtraKind::NextPreview), confidence: Confidence::Explicit, match_fn: Matcher::ExtraNextPreview });
    v.push(MatchRule { kind: TokenKind::Extra(ExtraKind::PromotionVideo), confidence: Confidence::Explicit, match_fn: Matcher::ExtraPromotion });
    v.push(MatchRule { kind: TokenKind::Extra(ExtraKind::Live), confidence: Confidence::Explicit, match_fn: Matcher::ExtraLive });
    v.push(MatchRule { kind: TokenKind::Extra(ExtraKind::Scan), confidence: Confidence::Explicit, match_fn: Matcher::ExtraScan });
    v.push(MatchRule { kind: TokenKind::Extra(ExtraKind::Font), confidence: Confidence::Explicit, match_fn: Matcher::ExtraFont });
    v.push(MatchRule { kind: TokenKind::Extra(ExtraKind::Menu), confidence: Confidence::Explicit, match_fn: Matcher::ExtraMenu });
    v.push(MatchRule { kind: TokenKind::Extra(ExtraKind::AudioCommentary), confidence: Confidence::Explicit, match_fn: Matcher::ExtraAudioCommentary });
    v.push(MatchRule { kind: TokenKind::Extra(ExtraKind::BonusDisc), confidence: Confidence::Explicit, match_fn: Matcher::ExtraBonusDisc });
    v.push(MatchRule { kind: TokenKind::Extra(ExtraKind::Generic), confidence: Confidence::Normal, match_fn: Matcher::ExtraGeneric });
    v.push(MatchRule { kind: TokenKind::Episode, confidence: Confidence::Explicit, match_fn: Matcher::EpisodeDashNumber });
    v.push(MatchRule { kind: TokenKind::Episode, confidence: Confidence::Explicit, match_fn: Matcher::EpisodeChinese });
    v.push(MatchRule { kind: TokenKind::Episode, confidence: Confidence::Normal, match_fn: Matcher::EpisodeBracketed });
    v.push(MatchRule { kind: TokenKind::Episode, confidence: Confidence::Normal, match_fn: Matcher::EpisodeTv });
    proof {
        assert(v@ =~= spec_file_rules());
    }
    v
}

/// The directory rule table, in priority order.
pub fn dir_rules() -> (r: Vec<MatchRule>)
    ensures
        r@ == spec_dir_rules(),
{
    let mut v: Vec<MatchRule> = Vec::new();
    v.push(MatchRule { kind: TokenKind::Season, confidence: Confidence::Explicit, match_fn: Matcher::SeasonSNumber });
    v.push(MatchRule { kind: TokenKind::Season, confidence: Confidence::Explicit, match_fn: Matcher::SeasonChinese });
    v.push(MatchRule { kind: TokenKind::Season, confidence: Confidence::Explicit, match_fn: Matcher::SeasonEnglish });
    v.push(MatchRule { kind: TokenKind::Season, confidence: Confidence::Normal, match_fn: Matcher::SeasonPartAny });
    v.push(MatchRule { kind: TokenKind::Season, confidence: Confidence::Ambiguous, match_fn: Matcher::SeasonNumberedPrefixAny });
    v.push(MatchRule { kind: TokenKind::Extra(ExtraKind::Opening), confidence: Confidence::Explicit, match_fn: Matcher::ExtraOpening });
    v.push(MatchRule { kind: TokenKind::Extra(ExtraKind::Ending), confidence: Confidence::Explicit, match_fn: Matcher::ExtraEnding });
    v.push(MatchRule { kind: TokenKind::Extra(ExtraKind::NextPreview), confidence: Confidence::Explicit, match_fn: Matcher::ExtraNextPreview });
    v.push(MatchRule { kind: TokenKind::Extra(ExtraKind::PromotionVideo), confidence: Confidence::Explicit, match_fn: Matcher::ExtraPromotion });
    v.push(MatchRule { kind: TokenKind::Extra(ExtraKind::Live), confidence: Confidence::Explicit, match_fn: Matcher::ExtraLive });
    v.push(MatchRule { kind: TokenKind::Extra(ExtraKind::Scan), confidence: Confidence::Explicit, match_fn: Matcher::ExtraScan });
    v.push(MatchRule { kind: TokenKind::Extra(ExtraKind::Font), confidence: Confidence::Explicit, match_fn: Matcher::ExtraFont });
    v.push(MatchRule { kind: TokenKind::Extra(ExtraKind::Menu), confidence: Confidence::Explicit, match_fn: Matcher::ExtraMenu });
    v.push(MatchRule { kind: TokenKind::Extra(ExtraKind::AudioCommentary), confidence: Confidence::Explicit, match_fn: Matcher::ExtraAudioCommentary });
    v.push(MatchRule { kind: TokenKind::Extra(ExtraKind::BonusDisc), confidence: Confidence::Explicit, match_fn: Matcher::ExtraBonusDisc });
    v.push(MatchRule { kind: TokenKind::Extra(ExtraKind::Generic), confidence: Confidence::Normal, match_fn: Matcher::ExtraGeneric });
    proof {
        assert(v@ =~= spec_dir_rules());
    }
    v
}


/// The first season rule that fires decides the season: when it reads a
/// number, the season is that number at the rule's confidence.
proof fn lemma_season_from_first_rule(rules: Seq<MatchRule>, name: Seq<char>, k: int, n: u32)
    requires
        first_season_rule(rules, name, k),
        rule_number(rules[k], name) == Some(n),
    ensures
        spec_parse_rules(name, rules).season == Some(Scored { value: n, confidence: rules[k].confidence }),
{
    lemma_first_match_wins(name, rules);
    match spec_parse_rules(name, rules).season {
        Some(sc) => {
            let i = choose|i: int|
                #[trigger] first_season_rule(rules, name, i) && rule_number(rules[i], name) == Some(sc.value)
                    && sc.confidence == rules[i].confidence;
            if i < k {
                assert(!season_fires(rules[i], name));
            } else if i > k {
                assert(!season_fires(rules[k], name));
            }
        },
        None => {
            assert(first_season_rule(rules, name, k));
        },
    }
}

/// Law: a directory name read by the English `Season N` marker, on which
/// the `S2` and `第二季` markers read nothing, is season N at explicit
/// confidence (`Show/Season 2/` holds season 2); likewise for the
/// `S2` marker, which comes first.
pub proof fn lemma_dir_rules_season_markers(name: Seq<char>, n: u32)
    ensures
        spec_match_season_s_number(name) is None && spec_match_season_chinese(name) is None
            && spec_match_season_english(name) == Some(MatchResult { number: Some(n) }) ==> spec_parse_rules(
            name,
            spec_dir_rules(),
        ).season == Some(Scored { value: n, confidence: Confidence::Explicit }),
        spec_match_season_s_number(name) == Some(MatchResult { number: Some(n) }) ==> spec_parse_rules(
            name,
            spec_dir_rules(),
        ).season == Some(Scored { value: n, confidence: Confidence::Explicit }),
{
    let rules = spec_dir_rules();
    if spec_match_season_s_number(name) is None && spec_match_season_chinese(name) is None
        && spec_match_season_english(name) == Some(MatchResult { number: Some(n) }) {
        assert forall|j: int| 0 <= j < 2 implies !season_fires(#[trigger] rules[j], name) by {}
        assert(first_season_rule(rules, name, 2));
        lemma_season_from_first_rule(rules, name, 2, n);
    }
    if spec_match_season_s_number(name) == Some(MatchResult { number: Some(n) }) {
        assert(first_season_rule(rules, name, 0));
        lemma_season_from_first_rule(rules, name, 0, n);
    }
}

/// Law: the same holds of file names (`Show Season 2 - 01.mkv`).
pub proof fn lemma_file_rules_season_markers(name: Seq<char>, n: u32)
    ensures
        spec_match_season_s_number(name) is None && spec_match_season_chinese(name) is None
            && spec_match_season_english(name) == Some(MatchResult { number: Some(n) }) ==> spec_parse_rules(
            name,
            spec_file_rules(),
        ).season == Some(Scored { value: n, confidence: Confidence::Explicit }),
        spec_match_season_s_number(name) == Some(MatchResult { number: Some(n) }) ==> spec_parse_rules(
            name,
            spec_file_rules(),
        ).season == Some(Scored { value: n, confidence: Confidence::Explicit }),
{
    let rules = spec_file_rules();
    if spec_match_season_s_number(name) is None && spec_match_season_chinese(name) is None
        && spec_match_season_english(name) == Some(MatchResult { number: Some(n) }) {
        assert forall|j: int| 0 <= j < 2 implies !season_fires(#[trigger] rules[j], name) by {}
        assert(first_season_rule(rules, name, 2));
        lemma_season_from_first_rule(rules, name, 2, n);
    }
    if spec_match_season_s_number(name) == Some(MatchResult { number: Some(n) }) {
        assert(first_season_rule(rules, name, 0));
        lemma_season_from_first_rule(rules, name, 0, n);
    }
}

} // verus!
