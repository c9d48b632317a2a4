//! Match rules, confidences and the combined parse result of a name.
use vstd::prelude::*;

use crate::anime::action::matcher::episode::{
    match_episode_bracketed, match_episode_chinese, match_episode_dash_number, match_episode_tv,
    spec_match_episode_bracketed, spec_match_episode_chinese, spec_match_episode_dash_number,
    spec_match_episode_tv,
};
use crate::anime::action::matcher::extra::{
    match_extra_audio_commentary, match_extra_bonus_disc, match_extra_ending, match_extra_font,
    match_extra_generic, match_extra_live, match_extra_menu, match_extra_next_preview,
    match_extra_opening, match_extra_promotion, match_extra_scan,
    spec_match_extra_audio_commentary, spec_match_extra_bonus_disc, spec_match_extra_ending,
    spec_match_extra_font, spec_match_extra_generic, spec_match_extra_live,
    spec_match_extra_menu, spec_match_extra_next_preview, spec_match_extra_opening,
    spec_match_extra_promotion, spec_match_extra_scan,
};
use crate::anime::action::matcher::season::{
    match_season_chinese, match_season_english, match_season_numbered_prefix,
    match_season_numbered_prefix_any, match_season_part, match_season_part_any,
    match_season_s_number, spec_match_season_chinese, spec_match_season_english,
    spec_match_season_numbered_prefix, spec_match_season_numbered_prefix_any,
    spec_match_season_part, spec_match_season_part_any, spec_match_season_s_number,
};

verus! {

/// Confidence level for a match.
///
/// Ordering is `Explicit > Normal > Ambiguous` (declaration order, which
/// the derived `Ord` follows).
#[derive(Debug, Clone, Copy, PartialEq, Eq, Structural, PartialOrd, Ord)]
pub enum Confidence {
    Ambiguous,
    Normal,
    Explicit,
}

impl Confidence {
    /// Position in the `Ambiguous < Normal < Explicit` order.
    pub open spec fn level(self) -> nat {
        match self {
            Confidence::Ambiguous => 0,
            Confidence::Normal => 1,
            Confidence::Explicit => 2,
        }
    }

    /// Position in the `Ambiguous < Normal < Explicit` order.
    pub fn rank(self) -> (r: u8)
        ensures
            r == self.level(),
    {
        match self {
            Confidence::Ambiguous => 0,
            Confidence::Normal => 1,
            Confidence::Explicit => 2,
        }
    }

    /// `self >= other` in the confidence order.
    pub fn at_least(self, other: Confidence) -> (r: bool)
        ensures
            r == (self.level() >= other.level()),
    {
        self.rank() >= other.rank()
    }
}

/// What semantic kind a match function targets.
#[derive(Debug, Clone, Copy, PartialEq, Eq, Structural)]
pub enum TokenKind {
    Season,
    Episode,
    Extra(ExtraKind),
}

#[derive(Debug, Clone, Copy, PartialEq, Eq, Structural, PartialOrd, Ord, Hash)]
pub enum ExtraKind {
    Opening,
    Ending,
    InsertSong,
    Credits,
    Menu,
    VideoExtra,
    PromotionVideo,
    NextPreview,
    Live,
    AudioCommentary,
    BonusDisc,
    Scan,
    Booklet,
    Artwork,
    Poster,
    Subtitle,
    Font,
    Chapter,
    Thumbnail,
    DataFile,
    Patch,
    Generic,
    Unknown,
}

/// The outcome of one match function: the number it read, when any.
#[derive(Debug, Clone, Copy, PartialEq, Eq, Structural)]
pub struct MatchResult {
    pub number: Option<u32>,
}

/// A value tagged with its matching confidence.
///
/// Used where several matches compete for the same field so the strongest
/// one can be selected (see [`Scored::pick`]).
#[derive(Debug, Clone, Copy, PartialEq, Eq)]
pub struct Scored<T> {
    pub value: T,
    pub confidence: Confidence,
}

/// The higher-confidence argument; on equal confidence, `a`.
pub open spec fn spec_pick<T>(a: Option<Scored<T>>, b: Option<Scored<T>>) -> Option<Scored<T>> {
    match (a, b) {
        (Some(x), Some(y)) => if x.confidence.level() >= y.confidence.level() {
            Some(x)
        } else {
            Some(y)
        },
        (Some(x), None) => Some(x),
        (None, Some(y)) => Some(y),
        (None, None) => None,
    }
}

impl<T> Scored<T> {
    /// Pick the value with the higher confidence.
    ///
    /// Returns the higher-confidence argument; if both are present and
    /// equally confident, `a` wins. Used when merging information from
    /// parent and child nodes.
    pub fn pick(a: Option<Self>, b: Option<Self>) -> (r: Option<Self>)
        ensures
            r == spec_pick(a, b),
    {
        match (a, b) {
            (Some(a), Some(b)) => {
                if a.confidence.at_least(b.confidence) {
                    Some(a)
                } else {
                    Some(b)
                }
            },
            (Some(a), None) => Some(a),
            (None, Some(b)) => Some(b),
            (None, None) => None,
        }
    }
}

/// The match functions a rule can name.
#[derive(Debug, Clone, Copy, PartialEq, Eq, Structural)]
pub enum Matcher {
    SeasonSNumber,
    SeasonChinese,
    SeasonEnglish,
    SeasonPart,
    SeasonNumberedPrefix,
    SeasonPartAny,
    SeasonNumberedPrefixAny,
    ExtraOpening,
    ExtraEnding,
    ExtraNextPreview,
    ExtraPromotion,
    ExtraLive,
    ExtraScan,
    ExtraFont,
    ExtraMenu,
    ExtraAudioCommentary,
    ExtraBonusDisc,
    ExtraGeneric,
    EpisodeDashNumber,
    EpisodeChinese,
    EpisodeBracketed,
    EpisodeTv,
}

/// What the named match function gives on `name`.
pub open spec fn spec_run_matcher(m: Matcher, name: Seq<char>) -> Option<MatchResult> {
    match m {
        Matcher::SeasonSNumber => spec_match_season_s_number(name),
        Matcher::SeasonChinese => spec_match_season_chinese(name),
        Matcher::SeasonEnglish => spec_match_season_english(name),
        Matcher::SeasonPart => spec_match_season_part(name),
        Matcher::SeasonNumberedPrefix => spec_match_season_numbered_prefix(name),
        Matcher::SeasonPartAny => spec_match_season_part_any(name),
        Matcher::SeasonNumberedPrefixAny => spec_match_season_numbered_prefix_any(name),
        Matcher::ExtraOpening => spec_match_extra_opening(name),
        Matcher::ExtraEnding => spec_match_extra_ending(name),
        Matcher::ExtraNextPreview => spec_match_extra_next_preview(name),
        Matcher::ExtraPromotion => spec_match_extra_promotion(name),
        Matcher::ExtraLive => spec_match_extra_live(name),
        Matcher::ExtraScan => spec_match_extra_scan(name),
        Matcher::ExtraFont => spec_match_extra_font(name),
        Matcher::ExtraMenu => spec_match_extra_menu(name),
        Matcher::ExtraAudioCommentary => spec_match_extra_audio_commentary(name),
        Matcher::ExtraBonusDisc => spec_match_extra_bonus_disc(name),
        Matcher::ExtraGeneric => spec_match_extra_generic(name),
        Matcher::EpisodeDashNumber => spec_match_episode_dash_number(name),
        Matcher::EpisodeChinese => spec_match_episode_chinese(name),
        Matcher::EpisodeBracketed => spec_match_episode_bracketed(name),
        Matcher::EpisodeTv => spec_match_episode_tv(name),
    }
}

impl Matcher {
    /// Run the named match function on `name`.
    pub fn run(self, name: &str) -> (r: Option<MatchResult>)
        ensures
            r == spec_run_matcher(self, name@),
    {
        match self {
            Matcher::SeasonSNumber => match_season_s_number(name),
            Matcher::SeasonChinese => match_season_chinese(name),
            Matcher::SeasonEnglish => match_season_english(name),
            Matcher::SeasonPart => match_season_part(name),
            Matcher::SeasonNumberedPrefix => match_season_numbered_prefix(name),
            Matcher::SeasonPartAny => match_season_part_any(name),
            Matcher::SeasonNumberedPrefixAny => match_season_numbered_prefix_any(name),
            Matcher::ExtraOpening => match_extra_opening(name),
            Matcher::ExtraEnding => match_extra_ending(name),
            Matcher::ExtraNextPreview => match_extra_next_preview(name),
            Matcher::ExtraPromotion => match_extra_promotion(name),
            Matcher::ExtraLive => match_extra_live(name),
            Matcher::ExtraScan => match_extra_scan(name),
            Matcher::ExtraFont => match_extra_font(name),
            Matcher::ExtraMenu => match_extra_menu(name),
            Matcher::ExtraAudioCommentary => match_extra_audio_commentary(name),
            Matcher::ExtraBonusDisc => match_extra_bonus_disc(name),
            Matcher::ExtraGeneric => match_extra_generic(name),
            Matcher::EpisodeDashNumber => match_episode_dash_number(name),
            Matcher::EpisodeChinese => match_episode_chinese(name),
            Matcher::EpisodeBracketed => match_episode_bracketed(name),
            Matcher::EpisodeTv => match_episode_tv(name),
        }
    }
}

/// A single matching rule.
///
/// Rules are evaluated in priority order. The first match for each
/// [`TokenKind`] wins; later rules of the same kind are skipped.
#[derive(Debug, Clone, Copy, PartialEq, Eq, Structural)]
pub struct MatchRule {
    /// What kind of content this rule claims to identify.
    pub kind: TokenKind,
    /// How reliable a match this rule produces.
    pub confidence: Confidence,
    /// The matcher that decides whether the rule fires on a name.
    pub match_fn: Matcher,
}

/// Complete parsed information for a single tree node (file or directory).
///
/// `season`, `episode` and `kind` are populated by the first matching rule of
/// the corresponding [`TokenKind`]. `title` is reserved for a future
/// cleaned-up display name; no rule populates it today and it is only
/// propagated through [`ParsedInfo::inherit`].
#[derive(Debug, Clone)]
pub struct ParsedInfo {
    pub season: Option<Scored<u32>>,
    pub episode: Option<Scored<u32>>,
    pub kind: Option<Scored<TokenKind>>,
    pub title: String,
}

/// The mathematical content of a [`ParsedInfo`].
pub struct InfoView {
    pub season: Option<Scored<u32>>,
    pub episode: Option<Scored<u32>>,
    pub kind: Option<Scored<TokenKind>>,
    pub title: Seq<char>,
}

impl View for ParsedInfo {
    type V = InfoView;

    open spec fn view(&self) -> InfoView {
        InfoView {
            season: self.season,
            episode: self.episode,
            kind: self.kind,
            title: self.title@,
        }
    }
}

/// Nothing recognized.
pub open spec fn empty_info() -> InfoView {
    InfoView { season: None, episode: None, kind: None, title: Seq::empty() }
}

impl Default for ParsedInfo {
    fn default() -> (r: Self)
        ensures
            r@ == empty_info(),
    {
        ParsedInfo { season: None, episode: None, kind: None, title: String::new() }
    }
}

/// `parent`'s view inherited into `child`'s: season and kind go to the
/// higher confidence (the child on a tie), the episode is the child's, the
/// title is the child's unless it is empty.
pub open spec fn spec_inherit(parent: InfoView, child: InfoView) -> InfoView {
    InfoView {
        season: spec_pick(child.season, parent.season),
        episode: child.episode,
        kind: spec_pick(child.kind, parent.kind),
        title: if child.title.len() == 0 {
            parent.title
        } else {
            child.title
        },
    }
}

impl ParsedInfo {
    /// Inherit fields from a parent node.
    ///
    /// The higher-confidence value wins; on equal confidence, the child
    /// wins. The episode is never inherited.
    pub fn inherit(parent: &ParsedInfo, child: &ParsedInfo) -> (r: ParsedInfo)
        ensures
            r@ == spec_inherit(parent@, child@),
    {
        ParsedInfo {
            season: Scored::pick(child.season, parent.season),
            episode: child.episode,
            kind: Scored::pick(child.kind, parent.kind),
            title: if child.title.as_str().is_empty() {
                parent.title.clone()
            } else {
                child.title.clone()
            },
        }
    }
}

/// The rule fires on `name`: its match function gives a result.
pub open spec fn fires(rule: MatchRule, name: Seq<char>) -> bool {
    spec_run_matcher(rule.match_fn, name) is Some
}

/// The number a rule's match function reads from `name`, if any.
pub open spec fn rule_number(rule: MatchRule, name: Seq<char>) -> Option<u32> {
    match spec_run_matcher(rule.match_fn, name) {
        Some(res) => res.number,
        None => None,
    }
}

/// A season rule that fires on `name`.
pub open spec fn season_fires(rule: MatchRule, name: Seq<char>) -> bool {
    rule.kind == TokenKind::Season && fires(rule, name)
}

/// An episode rule that fires on `name`.
pub open spec fn episode_fires(rule: MatchRule, name: Seq<char>) -> bool {
    rule.kind == TokenKind::Episode && fires(rule, name)
}

/// An extra rule that fires, with or without a number.
pub open spec fn extra_hit(rule: MatchRule, name: Seq<char>) -> bool {
    rule.kind is Extra && fires(rule, name)
}

/// Rule `i` is the first season rule of `rules` that fires on `name`.
pub open spec fn first_season_rule(rules: Seq<MatchRule>, name: Seq<char>, i: int) -> bool {
    &&& 0 <= i < rules.len()
    &&& season_fires(rules[i], name)
    &&& forall|j: int| 0 <= j < i ==> !season_fires(#[trigger] rules[j], name)
}

/// Rule `i` is the first episode rule of `rules` that fires on `name`.
pub open spec fn first_episode_rule(rules: Seq<MatchRule>, name: Seq<char>, i: int) -> bool {
    &&& 0 <= i < rules.len()
    &&& episode_fires(rules[i], name)
    &&& forall|j: int| 0 <= j < i ==> !episode_fires(#[trigger] rules[j], name)
}

/// The information gathered so far, and which kinds a rule has already
/// claimed (a season or episode rule claims its kind when it fires, even
/// without a number; an extra rule fills its kind whenever it fires).
pub struct RuleState {
    pub info: InfoView,
    pub season_done: bool,
    pub episode_done: bool,
}

/// One rule applied to the state: a kind already claimed is skipped.
pub open spec fn rule_step(st: RuleState, rule: MatchRule, name: Seq<char>) -> RuleState {
    match rule.kind {
        TokenKind::Season => if !st.season_done && fires(rule, name) {
            RuleState {
                info: InfoView {
                    season: match rule_number(rule, name) {
                        Some(n) => Some(Scored { value: n, confidence: rule.confidence }),
                        None => None,
                    },
                    ..st.info
                },
                season_done: true,
                ..st
            }
        } else {
            st
        },
        TokenKind::Episode => if !st.episode_done && fires(rule, name) {
            RuleState {
                info: InfoView {
                    episode: match rule_number(rule, name) {
                        Some(n) => Some(Scored { value: n, confidence: rule.confidence }),
                        None => None,
                    },
                    ..st.info
                },
                episode_done: true,
                ..st
            }
        } else {
            st
        },
        TokenKind::Extra(k) => if st.info.kind is None && fires(rule, name) {
            RuleState {
                info: InfoView {
                    kind: Some(Scored { value: TokenKind::Extra(k), confidence: rule.confidence }),
                    ..st.info
                },
                ..st
            }
        } else {
            st
        },
    }
}

/// The rules applied in order to `name`.
pub open spec fn spec_rule_state(name: Seq<char>, rules: Seq<MatchRule>) -> RuleState
    decreases rules.len(),
{
    if rules.len() == 0 {
        RuleState { info: empty_info(), season_done: false, episode_done: false }
    } else {
        rule_step(spec_rule_state(name, rules.drop_last()), rules.last(), name)
    }
}

/// The information the rules give on `name`.
pub open spec fn spec_parse_rules(name: Seq<char>, rules: Seq<MatchRule>) -> InfoView {
    spec_rule_state(name, rules).info
}

/// Run the full rule list against `name` and return the combined result.
///
/// Each [`TokenKind`] accepts at most one match — the first rule of that
/// kind that fires wins, and later rules of that kind are skipped (a
/// season or episode rule that fires without a number leaves its field
/// empty).
pub fn parse_info(name: &str, rules: &[MatchRule]) -> (r: ParsedInfo)
    ensures
        r@ == spec_parse_rules(name@, rules@),
{
    let mut info = ParsedInfo::default();
    let mut season_done = false;
    let mut episode_done = false;
    let mut i: usize = 0;
    while i < rules.len()
        invariant
            i <= rules@.len(),
            info@ == spec_rule_state(name@, rules@.take(i as int)).info,
            season_done == spec_rule_state(name@, rules@.take(i as int)).season_done,
            episode_done == spec_rule_state(name@, rules@.take(i as int)).episode_done,
        decreases rules.len() - i,
    {
        let rule = rules[i];
        proof {
            assert(rules@.take(i + 1).drop_last() =~= rules@.take(i as int));
            assert(rules@.take(i + 1).last() == rule);
        }
        i = i + 1;
        let skip = match rule.kind {
            TokenKind::Season => season_done,
            TokenKind::Episode => episode_done,
            TokenKind::Extra(_) => info.kind.is_some(),
        };
        if skip {
            continue;
        }
        let result = match rule.match_fn.run(name) {
            Some(result) => result,
            None => {
                continue;
            },
        };
        match rule.kind {
            TokenKind::Season => {
                season_done = true;
                info.season = match result.number {
                    Some(n) => Some(Scored { value: n, confidence: rule.confidence }),
                    None => None,
                };
            },
            TokenKind::Episode => {
                episode_done = true;
                info.episode = match result.number {
                    Some(n) => Some(Scored { value: n, confidence: rule.confidence }),
                    None => None,
                };
            },
            TokenKind::Extra(k) => {
                info.kind = Some(Scored { value: TokenKind::Extra(k), confidence: rule.confidence });
            },
        }
    }
    proof {
        assert(rules@.take(rules@.len() as int) =~= rules@);
    }
    info
}

/// Law: each kind is decided by the first rule of that kind that fires, in
/// rule order: the season (episode) is that rule's number at that rule's
/// confidence, and stays empty when that rule reads no number or when no
/// season (episode) rule fires; later rules of the kind are skipped. The
/// extra kind is that of the first extra rule that fires. No rule fills
/// the title.
pub proof fn lemma_first_match_wins(name: Seq<char>, rules: Seq<MatchRule>)
    ensures
        match spec_parse_rules(name, rules).season {
            Some(sc) => exists|i: int|
                #[trigger] first_season_rule(rules, name, i) && rule_number(rules[i], name) == Some(sc.value)
                    && sc.confidence == rules[i].confidence,
            None => forall|i: int| #[trigger] first_season_rule(rules, name, i) ==> rule_number(rules[i], name) is None,
        },
        match spec_parse_rules(name, rules).episode {
            Some(sc) => exists|i: int|
                #[trigger] first_episode_rule(rules, name, i) && rule_number(rules[i], name) == Some(sc.value)
                    && sc.confidence == rules[i].confidence,
            None => forall|i: int| #[trigger] first_episode_rule(rules, name, i) ==> rule_number(rules[i], name) is None,
        },
        match spec_parse_rules(name, rules).kind {
            Some(sc) => exists|i: int|
                0 <= i < rules.len() && extra_hit(rules[i], name) && sc.value == rules[i].kind
                    && sc.confidence == rules[i].confidence && forall|j: int|
                    0 <= j < i ==> !extra_hit(#[trigger] rules[j], name),
            None => forall|i: int| 0 <= i < rules.len() ==> !extra_hit(#[trigger] rules[i], name),
        },
        spec_parse_rules(name, rules).title.len() == 0,
        spec_rule_state(name, rules).season_done <==> exists|i: int|
            0 <= i < rules.len() && season_fires(#[trigger] rules[i], name),
        spec_rule_state(name, rules).episode_done <==> exists|i: int|
            0 <= i < rules.len() && episode_fires(#[trigger] rules[i], name),
    decreases rules.len(),
{
    if rules.len() > 0 {
        let pre = rules.drop_last();
        let last = rules.last();
        let n = (rules.len() - 1) as int;
        lemma_first_match_wins(name, pre);
        let before = spec_rule_state(name, pre);
        let after = spec_rule_state(name, rules);
        assert(after == rule_step(before, last, name));
        assert forall|j: int| 0 <= j < n implies #[trigger] rules[j] == pre[j] by {}
        assert(rules[n] == last);
        // Season.
        if before.season_done {
            let w = choose|w: int| 0 <= w < pre.len() && season_fires(#[trigger] pre[w], name);
            assert(season_fires(rules[w], name));
            assert(after.season_done == before.season_done);
            assert(after.info.season == before.info.season);
            assert forall|i: int| #[trigger] first_season_rule(rules, name, i) implies i < n && first_season_rule(pre, name, i) by {
                if i == n {
                    assert(!season_fires(rules[w], name));
                }
                assert forall|j: int| 0 <= j < i implies !season_fires(#[trigger] pre[j], name) by {
                    assert(rules[j] == pre[j]);
                }
            }
            match before.info.season {
                Some(sc) => {
                    let i = choose|i: int|
                        #[trigger] first_season_rule(pre, name, i) && rule_number(pre[i], name) == Some(sc.value)
                            && sc.confidence == pre[i].confidence;
                    assert forall|j: int| 0 <= j < i implies !season_fires(#[trigger] rules[j], name) by {
                        assert(rules[j] == pre[j]);
                    }
                    assert(first_season_rule(rules, name, i));
                },
                None => {},
            }
            assert(season_fires(rules[w], name));
        } else {
            assert forall|j: int| 0 <= j < n implies !season_fires(#[trigger] rules[j], name) by {
                assert(rules[j] == pre[j]);
            }
            if last.kind == TokenKind::Season && fires(last, name) {
                assert(first_season_rule(rules, name, n));
                assert forall|i: int| #[trigger] first_season_rule(rules, name, i) implies i == n by {
                    if i < n {
                        assert(!season_fires(rules[i], name));
                    }
                }
                assert(season_fires(rules[n], name));
            } else {
                assert(after.info.season == before.info.season);
                assert forall|i: int| #[trigger] first_season_rule(rules, name, i) implies false by {
                    if i < n {
                        assert(!season_fires(rules[i], name));
                    }
                }
                if before.info.season is Some {
                    let sc = before.info.season->0;
                    let i = choose|i: int|
                        #[trigger] first_season_rule(pre, name, i) && rule_number(pre[i], name) == Some(sc.value)
                            && sc.confidence == pre[i].confidence;
                    assert(season_fires(pre[i], name));
                }
                assert forall|i: int| 0 <= i < rules.len() implies !season_fires(#[trigger] rules[i], name) by {
                    if i < n {
                        assert(rules[i] == pre[i]);
                    }
                }
            }
        }
        // Episode.
        if before.episode_done {
            let w = choose|w: int| 0 <= w < pre.len() && episode_fires(#[trigger] pre[w], name);
            assert(episode_fires(rules[w], name));
            assert(after.episode_done == before.episode_done);
            assert(after.info.episode == before.info.episode);
            assert forall|i: int| #[trigger] first_episode_rule(rules, name, i) implies i < n && first_episode_rule(pre, name, i) by {
                if i == n {
                    assert(!episode_fires(rules[w], name));
                }
                assert forall|j: int| 0 <= j < i implies !episode_fires(#[trigger] pre[j], name) by {
                    assert(rules[j] == pre[j]);
                }
            }
            match before.info.episode {
                Some(sc) => {
                    let i = choose|i: int|
                        #[trigger] first_episode_rule(pre, name, i) && rule_number(pre[i], name) == Some(sc.value)
                            && sc.confidence == pre[i].confidence;
                    assert forall|j: int| 0 <= j < i implies !episode_fires(#[trigger] rules[j], name) by {
                        assert(rules[j] == pre[j]);
                    }
                    assert(first_episode_rule(rules, name, i));
                },
                None => {},
            }
        } else {
            assert forall|j: int| 0 <= j < n implies !episode_fires(#[trigger] rules[j], name) by {
                assert(rules[j] == pre[j]);
            }
            if last.kind == TokenKind::Episode && fires(last, name) {
                assert(first_episode_rule(rules, name, n));
                assert forall|i: int| #[trigger] first_episode_rule(rules, name, i) implies i == n by {
                    if i < n {
                        assert(!episode_fires(rules[i], name));
                    }
                }
                assert(episode_fires(rules[n], name));
            } else {
                assert(after.info.episode == before.info.episode);
                assert forall|i: int| #[trigger] first_episode_rule(rules, name, i) implies false by {
                    if i < n {
                        assert(!episode_fires(rules[i], name));
                    }
                }
                if before.info.episode is Some {
                    let sc = before.info.episode->0;
                    let i = choose|i: int|
                        #[trigger] first_episode_rule(pre, name, i) && rule_number(pre[i], name) == Some(sc.value)
                            && sc.confidence == pre[i].confidence;
                    assert(episode_fires(pre[i], name));
                }
                assert forall|i: int| 0 <= i < rules.len() implies !episode_fires(#[trigger] rules[i], name) by {
                    if i < n {
                        assert(rules[i] == pre[i]);
                    }
                }
            }
        }
        // Extra kind.
        match before.info.kind {
            Some(sc) => {
                let i = choose|i: int|
                    0 <= i < pre.len() && extra_hit(pre[i], name) && sc.value == pre[i].kind
                        && sc.confidence == pre[i].confidence && forall|j: int|
                        0 <= j < i ==> !extra_hit(#[trigger] pre[j], name);
                assert(after.info.kind == Some(sc));
                assert(rules[i] == pre[i]);
                assert forall|j: int| 0 <= j < i implies !extra_hit(#[trigger] rules[j], name) by {
                    assert(rules[j] == pre[j]);
                }
            },
            None => {
                if after.info.kind is Some {
                    assert(extra_hit(rules[n], name));
                    assert forall|j: int| 0 <= j < n implies !extra_hit(#[trigger] rules[j], name) by {
                        assert(rules[j] == pre[j]);
                    }
                } else {
                    assert forall|i: int| 0 <= i < rules.len() implies !extra_hit(#[trigger] rules[i], name) by {
                        if i < n {
                            assert(rules[i] == pre[i]);
                        }
                    }
                }
            },
        }
    }
}

} // verus!
