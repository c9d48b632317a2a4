//! Parsing of one series subtree, and merging of same-title series.
use vstd::prelude::*;

use crate::anime::action::matcher::extra::{
    extra_tag_from_name, extra_title_from_name, spec_extra_tag_from_name,
    spec_extra_title_from_name,
};
use crate::anime::action::matcher::info::{
    empty_info, parse_info, spec_inherit, spec_parse_rules, ExtraKind, InfoView, ParsedInfo,
    Scored, TokenKind,
};
use crate::anime::action::matcher::name::{series_title_from_name, spec_series_title_from_name};
use crate::anime::action::matcher::season::{spec_strip_season_markers, strip_season_markers};
use crate::anime::action::rebuild::model::{
    dir_season_of, find_dir_season, record_dir_season, ExtraDir, ExtraDirView, ExtraItem,
    ExtraItemView, NodeKind, ParsedFile, ParsedFileView, ParsedSeries, Placed, PlacedView,
    RawNode, SeriesView, Slot,
};
use crate::anime::action::rebuild::rules::{dir_rules, file_rules, spec_dir_rules, spec_file_rules};

verus! {

/// The value of an optional scored field.
pub open spec fn scored_value<T>(o: Option<Scored<T>>) -> Option<T> {
    match o {
        Some(s) => Some(s.value),
        None => None,
    }
}

/// The extra kind an effective info names, if any.
pub open spec fn extra_kind_of(info: InfoView) -> Option<ExtraKind> {
    match info.kind {
        Some(sc) => match sc.value {
            TokenKind::Extra(k) => Some(k),
            _ => None,
        },
        None => None,
    }
}

/// Effective information of a directory: its own name's parse inherited
/// from the parent's. The series root's name is a release-group name, not
/// content: its kind is dropped so it never turns the whole series into
/// extras.
pub open spec fn dir_effective(name: Seq<char>, inherited: InfoView, is_root: bool) -> InfoView {
    let eff = spec_inherit(inherited, spec_parse_rules(name, spec_dir_rules()));
    if is_root {
        InfoView { kind: None, ..eff }
    } else {
        eff
    }
}

/// Effective information of a file.
pub open spec fn file_effective(name: Seq<char>, inherited: InfoView) -> InfoView {
    spec_inherit(inherited, spec_parse_rules(name, spec_file_rules()))
}

/// Where a main (non-extra) file goes: its season's episodes when it has
/// an episode number, the season's `unknown` otherwise, the series'
/// `unknown` when it has no season.
pub open spec fn main_slot(season: Option<u32>, episode: Option<u32>) -> Slot {
    match season {
        Some(s) => if episode is Some {
            Slot::SeasonEpisode(s)
        } else {
            Slot::SeasonUnknown(s)
        },
        None => Slot::SeriesUnknown,
    }
}

/// Where an extra file goes: its extra directory, else its season's loose
/// extras, else the series' loose extras.
pub open spec fn extra_slot(extra_dir: Option<usize>, season: Option<u32>) -> Slot {
    match extra_dir {
        Some(d) => Slot::ExtraDirFile(d),
        None => match season {
            Some(s) => Slot::SeasonLoose(s),
            None => Slot::LooseExtra,
        },
    }
}

/// A file node collected into the series.
pub open spec fn file_walk(
    id: u64,
    name: Seq<char>,
    inherited: InfoView,
    anchor_parent: Option<u64>,
    extra_dir: Option<usize>,
    s: SeriesView,
) -> SeriesView {
    let eff = file_effective(name, inherited);
    let season = scored_value(eff.season);
    match extra_kind_of(eff) {
        Some(kind) => {
            let file = ParsedFileView {
                id,
                is_file: true,
                season,
                episode: None,
                anchor_parent,
                extra: Some(
                    ExtraItemView {
                        kind,
                        title: spec_extra_title_from_name(name),
                        tag: spec_extra_tag_from_name(name, kind),
                    },
                ),
            };
            SeriesView {
                files: s.files.push(PlacedView { slot: extra_slot(extra_dir, season), file }),
                ..s
            }
        },
        None => {
            let episode = scored_value(eff.episode);
            let file = ParsedFileView {
                id,
                is_file: true,
                season,
                episode,
                anchor_parent,
                extra: None,
            };
            let ds = match (anchor_parent, season) {
                (Some(pid), Some(se)) => record_dir_season(s.dir_seasons, pid, se),
                _ => s.dir_seasons,
            };
            SeriesView {
                files: s.files.push(PlacedView { slot: main_slot(season, episode), file }),
                dir_seasons: ds,
                ..s
            }
        },
    }
}

/// A node of another type: kept whole under the series' `unknown`.
pub open spec fn other_walk(id: u64, s: SeriesView) -> SeriesView {
    SeriesView {
        files: s.files.push(
            PlacedView {
                slot: Slot::SeriesUnknown,
                file: ParsedFileView {
                    id,
                    is_file: false,
                    season: None,
                    episode: None,
                    anchor_parent: None,
                    extra: None,
                },
            },
        ),
        ..s
    }
}

/// The read-only walk of one subtree: files are collected by place,
/// regular directories recorded for deletion, extra directories carved
/// out (with their contents) to be rebuilt instead. Nodes without a type
/// or a name are skipped.
pub open spec fn spec_walk(
    node: RawNode,
    inherited: InfoView,
    anchor_parent: Option<u64>,
    extra_dir: Option<usize>,
    is_root: bool,
    s: SeriesView,
) -> SeriesView
    decreases node, 1int, 0int,
{
    match (node.kind, node.name) {
        (Some(NodeKind::File), Some(name)) => file_walk(
            node.id,
            name@,
            inherited,
            anchor_parent,
            extra_dir,
            s,
        ),
        (Some(NodeKind::Other), Some(_)) => other_walk(node.id, s),
        (Some(_), Some(name)) => {
            let eff = dir_effective(name@, inherited, is_root);
            if !is_root && extra_kind_of(eff) is Some {
                let idx = s.extra_dirs.len() as usize;
                let dir = ExtraDirView {
                    id: node.id,
                    name: name@,
                    kind: extra_kind_of(eff)->0,
                    season: scored_value(eff.season),
                    anchor_parent,
                    parent: extra_dir,
                };
                spec_walk_children(
                    node,
                    0,
                    eff,
                    anchor_parent,
                    Some(idx),
                    SeriesView { extra_dirs: s.extra_dirs.push(dir), ..s },
                )
            } else {
                spec_walk_children(
                    node,
                    0,
                    eff,
                    Some(node.id),
                    extra_dir,
                    SeriesView { dirs_to_delete: s.dirs_to_delete.push(node.id), ..s },
                )
            }
        },
        _ => s,
    }
}

/// The children of `node` from index `i` on, walked in order.
pub open spec fn spec_walk_children(
    node: RawNode,
    i: int,
    inherited: InfoView,
    anchor_parent: Option<u64>,
    extra_dir: Option<usize>,
    s: SeriesView,
) -> SeriesView
    decreases node, 0int, node.children@.len() - i,
{
    if 0 <= i < node.children@.len() {
        spec_walk_children(
            node,
            i + 1,
            inherited,
            anchor_parent,
            extra_dir,
            spec_walk(node.children@[i], inherited, anchor_parent, extra_dir, false, s),
        )
    } else {
        s
    }
}

fn scored_u32(o: &Option<Scored<u32>>) -> (r: Option<u32>)
    ensures
        r == scored_value(*o),
{
    match o {
        Some(s) => Some(s.value),
        None => None,
    }
}

fn extra_kind_in(info: &ParsedInfo) -> (r: Option<ExtraKind>)
    ensures
        r == extra_kind_of(info@),
{
    match info.kind {
        Some(sc) => match sc.value {
            TokenKind::Extra(k) => Some(k),
            _ => None,
        },
        None => None,
    }
}

fn walk_file(
    id: u64,
    name: &str,
    inherited: &ParsedInfo,
    anchor_parent: Option<u64>,
    extra_dir: Option<usize>,
    series: &mut ParsedSeries,
)
    ensures
        final(series)@ == file_walk(id, name@, inherited@, anchor_parent, extra_dir, old(series)@),
{
    let rules = file_rules();
    let own = parse_info(name, rules.as_slice());
    let effective = ParsedInfo::inherit(inherited, &own);
    let season = scored_u32(&effective.season);
    match extra_kind_in(&effective) {
        Some(kind) => {
            let file = ParsedFile {
                id,
                is_file: true,
                season,
                episode: None,
                anchor_parent,
                extra: Some(
                    ExtraItem {
                        kind,
                        title: extra_title_from_name(name),
                        tag: extra_tag_from_name(name, kind),
                    },
                ),
            };
            let slot = match extra_dir {
                Some(d) => Slot::ExtraDirFile(d),
                None => match season {
                    Some(s) => Slot::SeasonLoose(s),
                    None => Slot::LooseExtra,
                },
            };
            series.place(slot, file);
        },
        None => {
            if let Some(pid) = anchor_parent {
                if let Some(s) = season {
                    series.record_dir_season(pid, s);
                }
            }
            let episode = scored_u32(&effective.episode);
            let file = ParsedFile { id, is_file: true, season, episode, anchor_parent, extra: None };
            let slot = match season {
                Some(s) => if episode.is_some() {
                    Slot::SeasonEpisode(s)
                } else {
                    Slot::SeasonUnknown(s)
                },
                None => Slot::SeriesUnknown,
            };
            series.place(slot, file);
        },
    }
}

/// Recursively read-only walk one series subtree, collecting files by
/// place, recording all directories for later deletion, and carving out
/// extra directories (which are rebuilt instead of deleted). The series
/// root never becomes an extra directory: release-group names carry extra
/// labels (`[01-13TV全集+特典映像]`, `[BD ...]`) yet hold the main files.
pub fn walk(
    node: &RawNode,
    inherited: &ParsedInfo,
    anchor_parent: Option<u64>,
    extra_dir: Option<usize>,
    is_root: bool,
    series: &mut ParsedSeries,
)
    ensures
        final(series)@ == spec_walk(*node, inherited@, anchor_parent, extra_dir, is_root, old(series)@),
    decreases node,
{
    let mtype = match node.kind {
        Some(k) => k,
        None => {
            return;
        },
    };
    let name = match &node.name {
        Some(n) => n,
        None => {
            return;
        },
    };
    match mtype {
        NodeKind::File => {
            walk_file(node.id, name.as_str(), inherited, anchor_parent, extra_dir, series);
        },
        NodeKind::Other => {
            series.place(
                Slot::SeriesUnknown,
                ParsedFile {
                    id: node.id,
                    is_file: false,
                    season: None,
                    episode: None,
                    anchor_parent: None,
                    extra: None,
                },
            );
        },
        NodeKind::Directory | NodeKind::Virtual => {
            let rules = dir_rules();
            let own = parse_info(name.as_str(), rules.as_slice());
            let mut effective = ParsedInfo::inherit(inherited, &own);
            if is_root {
                effective.kind = None;
            }
            let kind = extra_kind_in(&effective);
            let child_anchor: Option<u64>;
            let child_dir: Option<usize>;
            if !is_root && kind.is_some() {
                let idx = series.extra_dirs.len();
                series.push_extra_dir(
                    ExtraDir {
                        id: node.id,
                        name: name.clone(),
                        kind: kind.unwrap(),
                        season: scored_u32(&effective.season),
                        anchor_parent,
                        parent: extra_dir,
                    },
                );
                child_anchor = anchor_parent;
                child_dir = Some(idx);
            } else {
                series.push_dir_to_delete(node.id);
                child_anchor = Some(node.id);
                child_dir = extra_dir;
            }
            let ghost start = series@;
            let mut i: usize = 0;
            while i < node.children.len()
                invariant
                    i <= node.children@.len(),
                    spec_walk_children(*node, 0, effective@, child_anchor, child_dir, start)
                        == spec_walk_children(
                        *node,
                        i as int,
                        effective@,
                        child_anchor,
                        child_dir,
                        series@,
                    ),
                decreases node.children.len() - i,
            {
                walk(&node.children[i], &effective, child_anchor, child_dir, false, series);
                i = i + 1;
            }
        },
    }
}

/// `s.take(i + 1).filter(p)` from `s.take(i).filter(p)`.
proof fn lemma_filter_take_step<A>(s: Seq<A>, i: int, p: spec_fn(A) -> bool)
    requires
        0 <= i < s.len(),
    ensures
        s.take(i + 1).filter(p) == if p(s[i]) {
            s.take(i).filter(p).push(s[i])
        } else {
            s.take(i).filter(p)
        },
{
    reveal(Seq::filter);
    assert(s.take(i + 1).drop_last() =~= s.take(i));
    assert(s.take(i + 1).last() == s[i]);
}

/// A season-less extra directory adopts the season recorded for its
/// anchor directory, if any.
pub open spec fn anchor_dir(d: ExtraDirView, ds: Seq<(u64, u32)>) -> ExtraDirView {
    if d.season is None && d.anchor_parent is Some {
        ExtraDirView { season: dir_season_of(ds, d.anchor_parent->0), ..d }
    } else {
        d
    }
}

/// A loose series-level extra moves to the loose extras of the season
/// recorded for its anchor directory, if any.
pub open spec fn anchor_loose(p: PlacedView, ds: Seq<(u64, u32)>) -> PlacedView {
    match p.file.anchor_parent {
        Some(pid) => match dir_season_of(ds, pid) {
            Some(s) => PlacedView { slot: Slot::SeasonLoose(s), ..p },
            None => p,
        },
        None => p,
    }
}

pub open spec fn is_loose_extra(p: PlacedView) -> bool {
    p.slot == Slot::LooseExtra
}

pub open spec fn is_series_unknown(p: PlacedView) -> bool {
    p.slot == Slot::SeriesUnknown
}

/// Season-less extras adopt the season of main-episode files sitting in
/// the same regular directory; the rest stay at series level. Files that
/// move are appended after the season's own loose extras.
pub open spec fn spec_anchor_extras(s: SeriesView) -> SeriesView {
    SeriesView {
        extra_dirs: s.extra_dirs.map_values(|d: ExtraDirView| anchor_dir(d, s.dir_seasons)),
        files: s.files.filter(|p: PlacedView| !is_loose_extra(p)) + s.files.filter(
            |p: PlacedView| is_loose_extra(p),
        ).map_values(|p: PlacedView| anchor_loose(p, s.dir_seasons)),
        ..s
    }
}

/// Season-less extras adopt the season of main-episode files sitting in
/// the same regular directory; the rest stay at series level.
pub fn anchor_extras(series: &mut ParsedSeries)
    ensures
        final(series)@ == spec_anchor_extras(old(series)@),
{
    let ghost s = series@;
    let mut dirs: Vec<ExtraDir> = Vec::new();
    let mut i: usize = 0;
    while i < series.extra_dirs.len()
        invariant
            series@ == s,
            i <= series.extra_dirs@.len(),
            dirs@.map_values(|d: ExtraDir| d@) == s.extra_dirs.take(i as int).map_values(
                |d: ExtraDirView| anchor_dir(d, s.dir_seasons),
            ),
        decreases series.extra_dirs.len() - i,
    {
        let mut d = series.extra_dirs[i].duplicate();
        if d.season.is_none() {
            if let Some(pid) = d.anchor_parent {
                d.season = find_dir_season(&series.dir_seasons, pid);
            }
        }
        proof {
            assert(s.extra_dirs[i as int] == series.extra_dirs@[i as int]@);
            assert(series.dir_seasons@ == s.dir_seasons);
            assert(d@ == anchor_dir(s.extra_dirs[i as int], s.dir_seasons));
        }
        let ghost before = dirs@;
        dirs.push(d);
        proof {
            assert(dirs@.map_values(|d: ExtraDir| d@) =~= before.map_values(|d: ExtraDir| d@).push(d@));
            assert(s.extra_dirs.take(i + 1).map_values(|d: ExtraDirView| anchor_dir(d, s.dir_seasons))
                =~= s.extra_dirs.take(i as int).map_values(
                |d: ExtraDirView| anchor_dir(d, s.dir_seasons),
            ).push(anchor_dir(s.extra_dirs[i as int], s.dir_seasons)));
            assert(dirs@.map_values(|d: ExtraDir| d@) =~= s.extra_dirs.take(i + 1).map_values(
                |d: ExtraDirView| anchor_dir(d, s.dir_seasons),
            ));
        }
        i = i + 1;
    }
    let mut kept: Vec<Placed> = Vec::new();
    let mut i: usize = 0;
    while i < series.files.len()
        invariant
            series@ == s,
            i <= series.files@.len(),
            kept@.map_values(|p: Placed| p@) == s.files.take(i as int).filter(
                |p: PlacedView| !is_loose_extra(p),
            ),
        decreases series.files.len() - i,
    {
        proof {
            lemma_filter_take_step(s.files, i as int, |p: PlacedView| !is_loose_extra(p));
            assert(s.files[i as int] == series.files@[i as int]@);
        }
        if series.files[i].slot != Slot::LooseExtra {
            let p = series.files[i].duplicate();
            kept.push(p);
            proof {
                assert(kept@.map_values(|p: Placed| p@) =~= s.files.take(i + 1).filter(
                    |p: PlacedView| !is_loose_extra(p),
                ));
            }
        }
        i = i + 1;
    }
    let ghost prefix = kept@.map_values(|p: Placed| p@);
    let mut i: usize = 0;
    while i < series.files.len()
        invariant
            series@ == s,
            i <= series.files@.len(),
            kept@.map_values(|p: Placed| p@) == prefix + s.files.take(i as int).filter(
                |p: PlacedView| is_loose_extra(p),
            ).map_values(|p: PlacedView| anchor_loose(p, s.dir_seasons)),
        decreases series.files.len() - i,
    {
        proof {
            lemma_filter_take_step(s.files, i as int, |p: PlacedView| is_loose_extra(p));
            assert(s.files[i as int] == series.files@[i as int]@);
        }
        if series.files[i].slot == Slot::LooseExtra {
            let mut p = series.files[i].duplicate();
            if let Some(pid) = p.file.anchor_parent {
                if let Some(season) = find_dir_season(&series.dir_seasons, pid) {
                    p.slot = Slot::SeasonLoose(season);
                }
            }
            proof {
                assert(series.dir_seasons@ == s.dir_seasons);
                assert(p@ == anchor_loose(s.files[i as int], s.dir_seasons));
            }
            let ghost before = kept@;
            kept.push(p);
            proof {
                assert(kept@.map_values(|p: Placed| p@) =~= before.map_values(|p: Placed| p@).push(p@));
                let f = s.files.take(i as int).filter(|p: PlacedView| is_loose_extra(p));
                assert(s.files.take(i + 1).filter(|p: PlacedView| is_loose_extra(p)) == f.push(s.files[i as int]));
                assert(f.push(s.files[i as int]).map_values(|p: PlacedView| anchor_loose(p, s.dir_seasons))
                    =~= f.map_values(|p: PlacedView| anchor_loose(p, s.dir_seasons)).push(anchor_loose(s.files[i as int], s.dir_seasons)));
                assert(kept@.map_values(|p: Placed| p@) =~= prefix + s.files.take(i + 1).filter(
                    |p: PlacedView| is_loose_extra(p),
                ).map_values(|p: PlacedView| anchor_loose(p, s.dir_seasons)));
            }
        }
        i = i + 1;
    }
    proof {
        assert(s.files.take(s.files.len() as int) =~= s.files);
        assert(s.extra_dirs.take(s.extra_dirs.len() as int) =~= s.extra_dirs);
    }
    series.extra_dirs = dirs;
    series.files = kept;
}

/// Some file among the series' `unknown`.
pub open spec fn has_unknown_file(s: SeriesView) -> bool {
    exists|i: int| 0 <= i < s.files.len() && is_series_unknown(#[trigger] s.files[i]) && s.files[i].file.is_file
}

/// A file of the series' `unknown` moved to the first season (its
/// episodes when it has a number, its `unknown` otherwise); other nodes
/// stay.
pub open spec fn to_first_season(p: PlacedView) -> PlacedView {
    if p.file.is_file {
        PlacedView {
            slot: if p.file.episode is Some {
                Slot::SeasonEpisode(1)
            } else {
                Slot::SeasonUnknown(1)
            },
            ..p
        }
    } else {
        p
    }
}

/// Files whose season could not be recognized go to the first season;
/// non-file nodes stay in the series' `unknown`. Nothing changes when the
/// `unknown` holds no file.
pub open spec fn spec_assign_unknown_to_first_season(s: SeriesView) -> SeriesView {
    if has_unknown_file(s) {
        SeriesView {
            files: s.files.filter(|p: PlacedView| !is_series_unknown(p)) + s.files.filter(
                |p: PlacedView| is_series_unknown(p),
            ).map_values(|p: PlacedView| to_first_season(p)),
            ..s
        }
    } else {
        s
    }
}

/// Files whose season could not be recognized are assigned to the
/// first season by default. Non-file nodes are left in `unknown`.
pub fn assign_unknown_to_first_season(series: &mut ParsedSeries)
    ensures
        final(series)@ == spec_assign_unknown_to_first_season(old(series)@),
{
    let ghost s = series@;
    let mut any = false;
    let mut i: usize = 0;
    while i < series.files.len()
        invariant
            series@ == s,
            i <= series.files@.len(),
            any ==> has_unknown_file(s),
            !any ==> forall|k: int| 0 <= k < i ==> !(is_series_unknown(#[trigger] s.files[k]) && s.files[k].file.is_file),
        decreases series.files.len() - i,
    {
        proof {
            assert(s.files[i as int] == series.files@[i as int]@);
        }
        if series.files[i].slot == Slot::SeriesUnknown && series.files[i].file.is_file {
            any = true;
        }
        i = i + 1;
    }
    if !any {
        return;
    }
    let mut kept: Vec<Placed> = Vec::new();
    let mut i: usize = 0;
    while i < series.files.len()
        invariant
            series@ == s,
            i <= series.files@.len(),
            kept@.map_values(|p: Placed| p@) == s.files.take(i as int).filter(
                |p: PlacedView| !is_series_unknown(p),
            ),
        decreases series.files.len() - i,
    {
        proof {
            lemma_filter_take_step(s.files, i as int, |p: PlacedView| !is_series_unknown(p));
            assert(s.files[i as int] == series.files@[i as int]@);
        }
        if series.files[i].slot != Slot::SeriesUnknown {
            let p = series.files[i].duplicate();
            let ghost before = kept@;
            kept.push(p);
            proof {
                assert(kept@.map_values(|p: Placed| p@) =~= before.map_values(|p: Placed| p@).push(p@));
            }
        }
        i = i + 1;
    }
    let ghost prefix = kept@.map_values(|p: Placed| p@);
    let mut i: usize = 0;
    while i < series.files.len()
        invariant
            series@ == s,
            i <= series.files@.len(),
            kept@.map_values(|p: Placed| p@) == prefix + s.files.take(i as int).filter(
                |p: PlacedView| is_series_unknown(p),
            ).map_values(|p: PlacedView| to_first_season(p)),
        decreases series.files.len() - i,
    {
        proof {
            lemma_filter_take_step(s.files, i as int, |p: PlacedView| is_series_unknown(p));
            assert(s.files[i as int] == series.files@[i as int]@);
        }
        if series.files[i].slot == Slot::SeriesUnknown {
            let mut p = series.files[i].duplicate();
            if p.file.is_file {
                if p.file.episode.is_some() {
                    p.slot = Slot::SeasonEpisode(1);
                } else {
                    p.slot = Slot::SeasonUnknown(1);
                }
            }
            proof {
                assert(p@ == to_first_season(s.files[i as int]));
            }
            let ghost before = kept@;
            kept.push(p);
            proof {
                assert(kept@.map_values(|p: Placed| p@) =~= before.map_values(|p: Placed| p@).push(p@));
                let f = s.files.take(i as int).filter(|p: PlacedView| is_series_unknown(p));
                assert(f.push(s.files[i as int]).map_values(|p: PlacedView| to_first_season(p))
                    =~= f.map_values(|p: PlacedView| to_first_season(p)).push(to_first_season(s.files[i as int])));
            }
        }
        i = i + 1;
    }
    proof {
        assert(s.files.take(s.files.len() as int) =~= s.files);
    }
    series.files = kept;
}

/// Display name of a series: the tag-free title with season markers
/// stripped, or the raw name when nothing is left.
pub open spec fn spec_series_display_name(raw: Seq<char>) -> Seq<char> {
    let title = spec_strip_season_markers(spec_series_title_from_name(raw));
    if title.len() == 0 {
        raw
    } else {
        title
    }
}

/// An empty series called `name`.
pub open spec fn empty_series(name: Seq<char>) -> SeriesView {
    SeriesView { name, files: seq![], dirs_to_delete: seq![], extra_dirs: seq![], dir_seasons: seq![] }
}

/// The parse of the series subtree rooted at `root`.
pub open spec fn spec_parse_series(root: RawNode) -> SeriesView {
    let raw = match root.name {
        Some(n) => n@,
        None => Seq::empty(),
    };
    spec_assign_unknown_to_first_season(
        spec_anchor_extras(spec_walk(root, empty_info(), None, None, true, empty_series(spec_series_display_name(raw)))),
    )
}

/// Walk the series subtree rooted at `root` and collect everything the
/// rebuild needs: files by place, extra trees, and the list of
/// directories to delete.
pub fn parse_series(root: &RawNode) -> (r: ParsedSeries)
    ensures
        r@ == spec_parse_series(*root),
{
    let name = match &root.name {
        Some(n) => n.clone(),
        None => String::new(),
    };
    let cleaned = series_title_from_name(name.as_str());
    // Strip season markers now so merge keys on the pure title; the season
    // number itself is already inherited into files by `walk` via the
    // root's directory-rule classification, so it is intentionally
    // discarded here.
    let title = strip_season_markers(cleaned.as_str());
    let display_name = if title.as_str().is_empty() {
        name
    } else {
        title
    };
    let mut series = ParsedSeries::named(display_name);
    let start = ParsedInfo::default();
    walk(root, &start, None, None, true, &mut series);
    anchor_extras(&mut series);
    assign_unknown_to_first_season(&mut series);
    series
}

/// Every element of a filtered sequence keeps a property that held of
/// every element of the original.
proof fn lemma_filter_all<A>(s: Seq<A>, p: spec_fn(A) -> bool, q: spec_fn(A) -> bool)
    requires
        forall|k: int| 0 <= k < s.len() ==> q(#[trigger] s[k]),
    ensures
        forall|i: int| 0 <= i < s.filter(p).len() ==> q(#[trigger] s.filter(p)[i]),
    decreases s.len(),
{
    reveal(Seq::filter);
    if s.len() > 0 {
        assert forall|k: int| 0 <= k < s.drop_last().len() implies q(#[trigger] s.drop_last()[k]) by {
            assert(s.drop_last()[k] == s[k]);
        }
        lemma_filter_all(s.drop_last(), p, q);
        assert(q(s[s.len() - 1]));
        let sub = s.drop_last().filter(p);
        let f = s.filter(p);
        assert(f == if p(s.last()) {
            sub.push(s.last())
        } else {
            sub
        });
        assert forall|i: int| 0 <= i < f.len() implies q(#[trigger] f[i]) by {
            if i < sub.len() {
                assert(f[i] == sub[i]);
            } else {
                assert(f[i] == s.last());
            }
        }
    }
}

/// Extra-directory references point to existing directories, and a
/// directory's parent comes before it.
pub open spec fn series_wf(s: SeriesView) -> bool {
    &&& forall|i: int|
        0 <= i < s.extra_dirs.len() ==> ((#[trigger] s.extra_dirs[i]).parent matches Some(p) ==> (p as int) < i)
    &&& forall|i: int|
        0 <= i < s.files.len() ==> ((#[trigger] s.files[i]).slot matches Slot::ExtraDirFile(d) ==> (d as int)
            < s.extra_dirs.len())
}

/// Number of nodes in a raw subtree.
pub open spec fn node_count(node: RawNode) -> nat
    decreases node, 1int, 0int,
{
    1 + children_count(node, 0)
}

/// Number of nodes under the children of `node` from index `i` on.
pub open spec fn children_count(node: RawNode, i: int) -> nat
    decreases node, 0int, node.children@.len() - i,
{
    if 0 <= i < node.children@.len() {
        node_count(node.children@[i]) + children_count(node, i + 1)
    } else {
        0
    }
}

proof fn lemma_walk_wf(
    node: RawNode,
    inherited: InfoView,
    anchor_parent: Option<u64>,
    extra_dir: Option<usize>,
    is_root: bool,
    s: SeriesView,
)
    requires
        series_wf(s),
        extra_dir matches Some(d) ==> (d as int) < s.extra_dirs.len(),
    ensures
        series_wf(spec_walk(node, inherited, anchor_parent, extra_dir, is_root, s)),
        s.extra_dirs.len() <= spec_walk(node, inherited, anchor_parent, extra_dir, is_root, s).extra_dirs.len()
            <= s.extra_dirs.len() + node_count(node),
    decreases node, 1int, 0int,
{
    let r = spec_walk(node, inherited, anchor_parent, extra_dir, is_root, s);
    match (node.kind, node.name) {
        (Some(NodeKind::File), Some(name)) => {
            let eff = file_effective(name@, inherited);
            assert forall|i: int| 0 <= i < r.files.len() implies ((#[trigger] r.files[i]).slot matches Slot::ExtraDirFile(d) ==> (d as int) < r.extra_dirs.len()) by {
                if i < s.files.len() {
                    assert(r.files[i] == s.files[i]);
                }
            }
        },
        (Some(NodeKind::Other), Some(_)) => {
            assert forall|i: int| 0 <= i < r.files.len() implies ((#[trigger] r.files[i]).slot matches Slot::ExtraDirFile(d) ==> (d as int) < r.extra_dirs.len()) by {
                if i < s.files.len() {
                    assert(r.files[i] == s.files[i]);
                }
            }
        },
        (Some(_), Some(name)) => {
            let eff = dir_effective(name@, inherited, is_root);
            if !is_root && extra_kind_of(eff) is Some {
                let idx = s.extra_dirs.len() as usize;
                let dir = ExtraDirView {
                    id: node.id,
                    name: name@,
                    kind: extra_kind_of(eff)->0,
                    season: scored_value(eff.season),
                    anchor_parent,
                    parent: extra_dir,
                };
                let s1 = SeriesView { extra_dirs: s.extra_dirs.push(dir), ..s };
                assert forall|i: int| 0 <= i < s1.extra_dirs.len() implies ((#[trigger] s1.extra_dirs[i]).parent matches Some(p) ==> (p as int) < i) by {
                    if i < s.extra_dirs.len() {
                        assert(s1.extra_dirs[i] == s.extra_dirs[i]);
                    }
                }
                lemma_walk_children_wf(node, 0, eff, anchor_parent, Some(idx), s1);
            } else {
                let s1 = SeriesView { dirs_to_delete: s.dirs_to_delete.push(node.id), ..s };
                lemma_walk_children_wf(node, 0, eff, Some(node.id), extra_dir, s1);
            }
        },
        _ => {},
    }
}

proof fn lemma_walk_children_wf(
    node: RawNode,
    i: int,
    inherited: InfoView,
    anchor_parent: Option<u64>,
    extra_dir: Option<usize>,
    s: SeriesView,
)
    requires
        series_wf(s),
        extra_dir matches Some(d) ==> (d as int) < s.extra_dirs.len(),
    ensures
        series_wf(spec_walk_children(node, i, inherited, anchor_parent, extra_dir, s)),
        s.extra_dirs.len() <= spec_walk_children(node, i, inherited, anchor_parent, extra_dir, s).extra_dirs.len()
            <= s.extra_dirs.len() + children_count(node, i),
    decreases node, 0int, node.children@.len() - i,
{
    if 0 <= i < node.children@.len() {
        let s1 = spec_walk(node.children@[i], inherited, anchor_parent, extra_dir, false, s);
        lemma_walk_wf(node.children@[i], inherited, anchor_parent, extra_dir, false, s);
        lemma_walk_children_wf(node, i + 1, inherited, anchor_parent, extra_dir, s1);
    }
}

/// Law: the parse of a series is well formed (every extra-directory
/// reference points to an existing, earlier directory) and has at most
/// one extra directory per node of its subtree.
pub proof fn lemma_parse_series_wf(root: RawNode)
    ensures
        series_wf(spec_parse_series(root)),
        spec_parse_series(root).extra_dirs.len() <= node_count(root),
{
    let raw = match root.name {
        Some(n) => n@,
        None => Seq::empty(),
    };
    let s0 = empty_series(spec_series_display_name(raw));
    lemma_walk_wf(root, empty_info(), None, None, true, s0);
    let w = spec_walk(root, empty_info(), None, None, true, s0);
    let a = spec_anchor_extras(w);
    assert forall|i: int| 0 <= i < a.extra_dirs.len() implies ((#[trigger] a.extra_dirs[i]).parent matches Some(p) ==> (p as int) < i) by {
        assert(a.extra_dirs[i] == anchor_dir(w.extra_dirs[i], w.dir_seasons));
    }
    let n = w.extra_dirs.len();
    let q = |p: PlacedView| (p.slot matches Slot::ExtraDirFile(d) ==> (d as int) < n);
    assert forall|k: int| 0 <= k < w.files.len() implies q(#[trigger] w.files[k]) by {}
    lemma_filter_all(w.files, |p: PlacedView| !is_loose_extra(p), q);
    lemma_filter_all(w.files, |p: PlacedView| is_loose_extra(p), q);
    let f1 = w.files.filter(|p: PlacedView| !is_loose_extra(p));
    let f2 = w.files.filter(|p: PlacedView| is_loose_extra(p)).map_values(|p: PlacedView| anchor_loose(p, w.dir_seasons));
    assert forall|i: int| 0 <= i < a.files.len() implies q(#[trigger] a.files[i]) by {
        if i < f1.len() {
            assert(a.files[i] == f1[i]);
        } else {
            assert(a.files[i] == f2[i - f1.len()]);
        }
    }
    let b = spec_assign_unknown_to_first_season(a);
    if has_unknown_file(a) {
        lemma_filter_all(a.files, |p: PlacedView| !is_series_unknown(p), q);
        lemma_filter_all(a.files, |p: PlacedView| is_series_unknown(p), q);
        let g1 = a.files.filter(|p: PlacedView| !is_series_unknown(p));
        let g2 = a.files.filter(|p: PlacedView| is_series_unknown(p)).map_values(|p: PlacedView| to_first_season(p));
        assert forall|i: int| 0 <= i < b.files.len() implies q(#[trigger] b.files[i]) by {
            if i < g1.len() {
                assert(b.files[i] == g1[i]);
            } else {
                assert(b.files[i] == g2[i - g1.len()]);
            }
        }
    }
}

/// A place that holds extras: an extra directory, or loose extras.
pub open spec fn is_extra_slot(slot: Slot) -> bool {
    match slot {
        Slot::ExtraDirFile(_) | Slot::SeasonLoose(_) | Slot::LooseExtra => true,
        _ => false,
    }
}

/// Every file placed as an extra carries its extra item.
pub open spec fn extras_tagged(s: SeriesView) -> bool {
    forall|i: int| 0 <= i < s.files.len() && is_extra_slot((#[trigger] s.files[i]).slot) ==> s.files[i].file.extra is Some
}

proof fn lemma_walk_tagged(
    node: RawNode,
    inherited: InfoView,
    anchor_parent: Option<u64>,
    extra_dir: Option<usize>,
    is_root: bool,
    s: SeriesView,
)
    requires
        extras_tagged(s),
    ensures
        extras_tagged(spec_walk(node, inherited, anchor_parent, extra_dir, is_root, s)),
    decreases node, 1int, 0int,
{
    let r = spec_walk(node, inherited, anchor_parent, extra_dir, is_root, s);
    match (node.kind, node.name) {
        (Some(NodeKind::File), Some(name)) => {
            assert forall|i: int| 0 <= i < r.files.len() && is_extra_slot((#[trigger] r.files[i]).slot) implies r.files[i].file.extra is Some by {
                if i < s.files.len() {
                    assert(r.files[i] == s.files[i]);
                }
            }
        },
        (Some(NodeKind::Other), Some(_)) => {
            assert forall|i: int| 0 <= i < r.files.len() && is_extra_slot((#[trigger] r.files[i]).slot) implies r.files[i].file.extra is Some by {
                if i < s.files.len() {
                    assert(r.files[i] == s.files[i]);
                }
            }
        },
        (Some(_), Some(name)) => {
            let eff = dir_effective(name@, inherited, is_root);
            if !is_root && extra_kind_of(eff) is Some {
                let idx = s.extra_dirs.len() as usize;
                let dir = ExtraDirView {
                    id: node.id,
                    name: name@,
                    kind: extra_kind_of(eff)->0,
                    season: scored_value(eff.season),
                    anchor_parent,
                    parent: extra_dir,
                };
                lemma_walk_children_tagged(node, 0, eff, anchor_parent, Some(idx), SeriesView { extra_dirs: s.extra_dirs.push(dir), ..s });
            } else {
                lemma_walk_children_tagged(node, 0, eff, Some(node.id), extra_dir, SeriesView { dirs_to_delete: s.dirs_to_delete.push(node.id), ..s });
            }
        },
        _ => {},
    }
}

proof fn lemma_walk_children_tagged(
    node: RawNode,
    i: int,
    inherited: InfoView,
    anchor_parent: Option<u64>,
    extra_dir: Option<usize>,
    s: SeriesView,
)
    requires
        extras_tagged(s),
    ensures
        extras_tagged(spec_walk_children(node, i, inherited, anchor_parent, extra_dir, s)),
    decreases node, 0int, node.children@.len() - i,
{
    if 0 <= i < node.children@.len() {
        let s1 = spec_walk(node.children@[i], inherited, anchor_parent, extra_dir, false, s);
        lemma_walk_tagged(node.children@[i], inherited, anchor_parent, extra_dir, false, s);
        lemma_walk_children_tagged(node, i + 1, inherited, anchor_parent, extra_dir, s1);
    }
}

/// Law: in the parse of a series every file placed as an extra (in an
/// extra directory or loose) carries its extra item.
pub proof fn lemma_parse_series_extras_tagged(root: RawNode)
    ensures
        extras_tagged(spec_parse_series(root)),
{
    let raw = match root.name {
        Some(n) => n@,
        None => Seq::empty(),
    };
    let s0 = empty_series(spec_series_display_name(raw));
    lemma_walk_tagged(root, empty_info(), None, None, true, s0);
    let w = spec_walk(root, empty_info(), None, None, true, s0);
    let a = spec_anchor_extras(w);
    let q = |p: PlacedView| (is_extra_slot(p.slot) ==> p.file.extra is Some);
    assert forall|k: int| 0 <= k < w.files.len() implies q(#[trigger] w.files[k]) by {}
    lemma_filter_all(w.files, |p: PlacedView| !is_loose_extra(p), q);
    lemma_filter_all(w.files, |p: PlacedView| is_loose_extra(p), q);
    let f1 = w.files.filter(|p: PlacedView| !is_loose_extra(p));
    let f2l = w.files.filter(|p: PlacedView| is_loose_extra(p));
    let f2 = f2l.map_values(|p: PlacedView| anchor_loose(p, w.dir_seasons));
    assert forall|i: int| 0 <= i < a.files.len() implies q(#[trigger] a.files[i]) by {
        if i < f1.len() {
            assert(a.files[i] == f1[i]);
        } else {
            assert(a.files[i] == f2[i - f1.len()]);
            assert(q(f2l[i - f1.len()]));
            assert(a.files[i].file == f2l[i - f1.len()].file);
        }
    }
    let b = spec_assign_unknown_to_first_season(a);
    if has_unknown_file(a) {
        lemma_filter_all(a.files, |p: PlacedView| !is_series_unknown(p), q);
        lemma_filter_all(a.files, |p: PlacedView| is_series_unknown(p), q);
        let g1 = a.files.filter(|p: PlacedView| !is_series_unknown(p));
        let g2l = a.files.filter(|p: PlacedView| is_series_unknown(p));
        let g2 = g2l.map_values(|p: PlacedView| to_first_season(p));
        assert forall|i: int| 0 <= i < b.files.len() implies q(#[trigger] b.files[i]) by {
            if i < g1.len() {
                assert(b.files[i] == g1[i]);
            } else {
                assert(b.files[i] == g2[i - g1.len()]);
                assert(q(g2l[i - g1.len()]));
            }
        }
    }
    assert forall|i: int| 0 <= i < b.files.len() && is_extra_slot((#[trigger] b.files[i]).slot) implies b.files[i].file.extra is Some by {
        assert(q(b.files[i]));
    }
}

/// Index of the first series named `name`.
pub open spec fn find_series(merged: Seq<SeriesView>, name: Seq<char>) -> Option<int>
    decreases merged.len(),
{
    if merged.len() == 0 {
        None
    } else if merged[0].name == name {
        Some(0)
    } else {
        match find_series(merged.drop_first(), name) {
            Some(k) => Some(k + 1),
            None => None,
        }
    }
}

/// An extra-directory index moved past `off` directories.
pub open spec fn shift_index(d: usize, off: nat) -> usize {
    (d + off) as usize
}

pub open spec fn shift_placed(p: PlacedView, off: nat) -> PlacedView {
    match p.slot {
        Slot::ExtraDirFile(d) => PlacedView { slot: Slot::ExtraDirFile(shift_index(d, off)), ..p },
        _ => p,
    }
}

pub open spec fn shift_dir(d: ExtraDirView, off: nat) -> ExtraDirView {
    match d.parent {
        Some(p) => ExtraDirView { parent: Some(shift_index(p, off)), ..d },
        None => d,
    }
}

/// `s` merged into `t`: its files, directories to delete and extra
/// directories are appended, extra-directory indices shifted by the number
/// of directories `t` already has.
pub open spec fn absorb(t: SeriesView, s: SeriesView) -> SeriesView {
    let off = t.extra_dirs.len();
    SeriesView {
        files: t.files + s.files.map_values(|p: PlacedView| shift_placed(p, off)),
        dirs_to_delete: t.dirs_to_delete + s.dirs_to_delete,
        extra_dirs: t.extra_dirs + s.extra_dirs.map_values(|d: ExtraDirView| shift_dir(d, off)),
        ..t
    }
}

/// One series added to the merged list.
pub open spec fn merge_step(merged: Seq<SeriesView>, s: SeriesView) -> Seq<SeriesView> {
    match find_series(merged, s.name) {
        Some(i) => merged.update(i, absorb(merged[i], s)),
        None => merged.push(s),
    }
}

/// Same-title series merged, in order of first appearance.
pub open spec fn spec_merge_series(list: Seq<SeriesView>) -> Seq<SeriesView>
    decreases list.len(),
{
    if list.len() == 0 {
        seq![]
    } else {
        merge_step(spec_merge_series(list.drop_last()), list.last())
    }
}

/// Total number of extra directories in a list of series.
pub open spec fn total_extra_dirs(list: Seq<SeriesView>) -> nat
    decreases list.len(),
{
    if list.len() == 0 {
        0
    } else {
        total_extra_dirs(list.drop_last()) + list.last().extra_dirs.len()
    }
}

pub open spec fn series_views(list: Seq<ParsedSeries>) -> Seq<SeriesView> {
    list.map_values(|s: ParsedSeries| s@)
}

proof fn lemma_find_series(merged: Seq<SeriesView>, name: Seq<char>, j: int)
    requires
        0 <= j <= merged.len(),
        forall|k: int| 0 <= k < j ==> (#[trigger] merged[k]).name != name,
    ensures
        j < merged.len() && merged[j].name == name ==> find_series(merged, name) == Some(j),
        j == merged.len() ==> find_series(merged, name) is None,
    decreases j,
{
    if j > 0 {
        assert forall|k: int| 0 <= k < j - 1 implies (#[trigger] merged.drop_first()[k]).name != name by {
            assert(merged.drop_first()[k] == merged[k + 1]);
        }
        assert(merged[0].name != name);
        lemma_find_series(merged.drop_first(), name, j - 1);
        if j < merged.len() {
            assert(merged.drop_first()[j - 1] == merged[j]);
        }
    }
}

proof fn lemma_total_prefix(list: Seq<SeriesView>, i: int)
    requires
        0 <= i <= list.len(),
    ensures
        total_extra_dirs(list.take(i)) <= total_extra_dirs(list),
    decreases list.len() - i,
{
    if i < list.len() {
        assert(list.drop_last().take(i) =~= list.take(i));
        lemma_total_prefix(list.drop_last(), i);
    } else {
        assert(list.take(i) =~= list);
    }
}

/// Every extra-directory index that `s` holds (in a file's place or a
/// directory's parent) stays within `usize` when moved past `off`
/// directories.
pub open spec fn indices_fit(s: SeriesView, off: int) -> bool {
    &&& forall|i: int|
        0 <= i < s.files.len() ==> ((#[trigger] s.files[i]).slot matches Slot::ExtraDirFile(d) ==> d + off
            <= usize::MAX)
    &&& forall|i: int|
        0 <= i < s.extra_dirs.len() ==> ((#[trigger] s.extra_dirs[i]).parent matches Some(p) ==> p + off
            <= usize::MAX)
}

proof fn lemma_indices_fit_mono(s: SeriesView, a: int, b: int)
    requires
        a <= b,
        indices_fit(s, b),
    ensures
        indices_fit(s, a),
{
    assert forall|i: int| 0 <= i < s.files.len() implies ((#[trigger] s.files[i]).slot matches Slot::ExtraDirFile(d) ==> d + a
        <= usize::MAX) by {}
    assert forall|i: int| 0 <= i < s.extra_dirs.len() implies ((#[trigger] s.extra_dirs[i]).parent matches Some(p) ==> p + a
        <= usize::MAX) by {}
}

/// A well-formed series at position `i` of a list whose extra directories
/// fit a `usize` has its indices fit past those of the series before it.
pub(crate) proof fn lemma_wf_indices_fit(list: Seq<SeriesView>, i: int)
    requires
        0 <= i < list.len(),
        series_wf(list[i]),
        total_extra_dirs(list) <= usize::MAX,
    ensures
        indices_fit(list[i], total_extra_dirs(list.take(i)) as int),
{
    lemma_total_prefix(list, i + 1);
    assert(list.take(i + 1).drop_last() =~= list.take(i));
    assert(list.take(i + 1).last() == list[i]);
    let s = list[i];
    assert forall|k: int| 0 <= k < s.files.len() implies ((#[trigger] s.files[k]).slot matches Slot::ExtraDirFile(d) ==> d
        + total_extra_dirs(list.take(i)) <= usize::MAX) by {}
    assert forall|k: int| 0 <= k < s.extra_dirs.len() implies ((#[trigger] s.extra_dirs[k]).parent matches Some(p) ==> p
        + total_extra_dirs(list.take(i)) <= usize::MAX) by {}
}

/// `s` merged into `t`.
fn absorb_into(t: &mut ParsedSeries, s: ParsedSeries)
    requires
        indices_fit(s@, old(t)@.extra_dirs.len() as int),
        old(t)@.extra_dirs.len() + s@.extra_dirs.len() <= usize::MAX,
    ensures
        final(t)@ == absorb(old(t)@, s@),
{
    let ghost t0 = t@;
    let offset = t.extra_dirs.len();
    let mut i: usize = 0;
    while i < s.files.len()
        invariant
            t0 == old(t)@,
            offset == t0.extra_dirs.len(),
            indices_fit(s@, offset as int),
            offset + s@.extra_dirs.len() <= usize::MAX,
            i <= s.files@.len(),
            t@ == (SeriesView {
                files: t0.files + s@.files.take(i as int).map_values(|p: PlacedView| shift_placed(p, offset as nat)),
                ..t0
            }),
        decreases s.files.len() - i,
    {
        let mut p = s.files[i].duplicate();
        proof {
            assert(s@.files[i as int] == p@);
        }
        if let Slot::ExtraDirFile(d) = p.slot {
            p.slot = Slot::ExtraDirFile(d + offset);
        }
        let ghost before = t@;
        t.place(p.slot, p.file);
        proof {
            assert(s@.files.take(i + 1).map_values(|p: PlacedView| shift_placed(p, offset as nat))
                =~= s@.files.take(i as int).map_values(|p: PlacedView| shift_placed(p, offset as nat)).push(
                shift_placed(s@.files[i as int], offset as nat),
            ));
            assert(t@.files =~= t0.files + s@.files.take(i + 1).map_values(
                |p: PlacedView| shift_placed(p, offset as nat),
            ));
        }
        i = i + 1;
    }
    proof {
        assert(s@.files.take(s@.files.len() as int) =~= s@.files);
        assert(s@.dirs_to_delete.take(0) =~= Seq::<u64>::empty());
        assert(t0.dirs_to_delete + Seq::<u64>::empty() =~= t0.dirs_to_delete);
    }
    let mut i: usize = 0;
    while i < s.dirs_to_delete.len()
        invariant
            t0 == old(t)@,
            offset == t0.extra_dirs.len(),
            i <= s.dirs_to_delete@.len(),
            t@ == (SeriesView {
                files: t0.files + s@.files.map_values(|p: PlacedView| shift_placed(p, offset as nat)),
                dirs_to_delete: t0.dirs_to_delete + s@.dirs_to_delete.take(i as int),
                ..t0
            }),
        decreases s.dirs_to_delete.len() - i,
    {
        t.push_dir_to_delete(s.dirs_to_delete[i]);
        proof {
            assert(t0.dirs_to_delete + s@.dirs_to_delete.take(i + 1) =~= (t0.dirs_to_delete
                + s@.dirs_to_delete.take(i as int)).push(s@.dirs_to_delete[i as int]));
        }
        i = i + 1;
    }
    proof {
        assert(s@.dirs_to_delete.take(s@.dirs_to_delete.len() as int) =~= s@.dirs_to_delete);
        assert(s@.extra_dirs.take(0).map_values(|d: ExtraDirView| shift_dir(d, offset as nat))
            =~= Seq::<ExtraDirView>::empty());
        assert(t0.extra_dirs + Seq::<ExtraDirView>::empty() =~= t0.extra_dirs);
    }
    let mut i: usize = 0;
    while i < s.extra_dirs.len()
        invariant
            t0 == old(t)@,
            offset == t0.extra_dirs.len(),
            indices_fit(s@, offset as int),
            offset + s@.extra_dirs.len() <= usize::MAX,
            i <= s.extra_dirs@.len(),
            t@ == (SeriesView {
                files: t0.files + s@.files.map_values(|p: PlacedView| shift_placed(p, offset as nat)),
                dirs_to_delete: t0.dirs_to_delete + s@.dirs_to_delete,
                extra_dirs: t0.extra_dirs + s@.extra_dirs.take(i as int).map_values(
                    |d: ExtraDirView| shift_dir(d, offset as nat),
                ),
                ..t0
            }),
        decreases s.extra_dirs.len() - i,
    {
        let mut d = s.extra_dirs[i].duplicate();
        proof {
            assert(s@.extra_dirs[i as int] == d@);
        }
        if let Some(p) = d.parent {
            d.parent = Some(p + offset);
        }
        t.push_extra_dir(d);
        proof {
            assert(s@.extra_dirs.take(i + 1).map_values(|d: ExtraDirView| shift_dir(d, offset as nat))
                =~= s@.extra_dirs.take(i as int).map_values(|d: ExtraDirView| shift_dir(d, offset as nat)).push(
                shift_dir(s@.extra_dirs[i as int], offset as nat),
            ));
            assert(t@.extra_dirs =~= t0.extra_dirs + s@.extra_dirs.take(i + 1).map_values(
                |d: ExtraDirView| shift_dir(d, offset as nat),
            ));
        }
        i = i + 1;
    }
    proof {
        assert(s@.files.take(s@.files.len() as int) =~= s@.files);
        assert(s@.dirs_to_delete.take(s@.dirs_to_delete.len() as int) =~= s@.dirs_to_delete);
        assert(s@.extra_dirs.take(s@.extra_dirs.len() as int) =~= s@.extra_dirs);
    }
}

/// Merge series whose names are equal after stripping season markers,
/// e.g. `葬送的芙莉蓮` + `葬送的芙莉蓮 S2`. The markers are stripped
/// during `parse_series`, so `series.name` is already a pure title and
/// the merge keys on it directly. Works uniformly for any number of
/// candidates, including a single `xxx 第二季` directory with no other
/// seasons present.
///
/// Extra-directory indices are moved past the directories already merged
/// into a series; the list must be one on which that move cannot overflow
/// a `usize` (every well-formed list whose directories fit a `usize` is).
pub fn merge_series(list: Vec<ParsedSeries>) -> (r: Vec<ParsedSeries>)
    requires
        forall|i: int|
            0 <= i < list@.len() ==> indices_fit(
                #[trigger] list@[i]@,
                total_extra_dirs(series_views(list@).take(i)) as int,
            ),
        total_extra_dirs(series_views(list@)) <= usize::MAX,
    ensures
        series_views(r@) == spec_merge_series(series_views(list@)),
{
    let ghost orig = series_views(list@);
    let mut list = list;
    let mut merged: Vec<ParsedSeries> = Vec::new();
    let ghost mut done: int = 0;
    proof {
        assert(series_views(merged@) =~= spec_merge_series(orig.take(0)));
        assert(series_views(list@) =~= orig.skip(0));
    }
    while list.len() > 0
        invariant
            0 <= done <= orig.len(),
            series_views(list@) == orig.skip(done),
            forall|i: int|
                0 <= i < list@.len() ==> indices_fit(
                    #[trigger] list@[i]@,
                    total_extra_dirs(orig.take(done + i)) as int,
                ),
            total_extra_dirs(orig) <= usize::MAX,
            series_views(merged@) == spec_merge_series(orig.take(done)),
            forall|j: int| 0 <= j < merged@.len() ==> (#[trigger] merged@[j])@.extra_dirs.len()
                <= total_extra_dirs(orig.take(done)),
        decreases list.len(),
    {
        let ghost before_list = list@;
        proof {
            if done == 0 {
                assert(series_views(list@) =~= orig);
            }
            assert(series_views(before_list).len() == before_list.len());
            assert(done < orig.len());
            assert(series_views(before_list)[0] == before_list[0]@);
            assert(orig.skip(done)[0] == orig[done]);
        }
        let s = list.remove(0);
        proof {
            assert(s@ == orig[done]);
            assert(indices_fit(before_list[0]@, total_extra_dirs(orig.take(done + 0)) as int));
            assert(orig.take(done + 0) == orig.take(done));
            assert(series_views(list@) =~= orig.skip(done + 1)) by {
                assert forall|k: int| 0 <= k < list@.len() implies #[trigger] series_views(list@)[k] == orig.skip(done + 1)[k] by {
                    assert(list@[k] == before_list[k + 1]);
                    assert(series_views(before_list)[k + 1] == orig.skip(done)[k + 1]);
                }
            }
            assert forall|i: int| 0 <= i < list@.len() implies indices_fit(
                #[trigger] list@[i]@,
                total_extra_dirs(orig.take(done + 1 + i)) as int,
            ) by {
                assert(list@[i] == before_list[i + 1]);
                assert(done + (i + 1) == done + 1 + i);
            }
            assert(orig.take(done + 1).drop_last() =~= orig.take(done));
            assert(orig.take(done + 1).last() == orig[done]);
            lemma_total_prefix(orig, done + 1);
        }
        let ghost m = series_views(merged@);
        let mut j: usize = 0;
        loop
            invariant
                j <= merged@.len(),
                m == series_views(merged@),
                forall|k: int| 0 <= k < j ==> (#[trigger] m[k]).name != s@.name,
            ensures
                j <= merged@.len(),
                forall|k: int| 0 <= k < j ==> (#[trigger] m[k]).name != s@.name,
                j < merged@.len() ==> m[j as int].name == s@.name,
            decreases merged.len() - j,
        {
            if j >= merged.len() {
                break;
            }
            proof {
                assert(m[j as int] == merged@[j as int]@);
            }
            if merged[j].name == s.name {
                break;
            }
            j = j + 1;
        }
        let found: Option<usize> = if j < merged.len() {
            Some(j)
        } else {
            None
        };
        proof {
            if let Some(jj) = found {
                assert(m[jj as int] == merged@[jj as int]@);
                lemma_find_series(m, s@.name, jj as int);
            } else {
                lemma_find_series(m, s@.name, m.len() as int);
            }
        }
        match found {
            Some(k) => {
                let mut t = merged.remove(k);
                proof {
                    assert(t@ == m[k as int]);
                    assert(t@.extra_dirs.len() + s@.extra_dirs.len() <= total_extra_dirs(orig.take(done + 1)));
                    lemma_indices_fit_mono(s@, t@.extra_dirs.len() as int, total_extra_dirs(orig.take(done)) as int);
                }
                absorb_into(&mut t, s);
                merged.insert(k, t);
                proof {
                    assert(series_views(merged@) =~= m.update(k as int, absorb(m[k as int], orig[done])));
                    assert forall|jj: int| 0 <= jj < merged@.len() implies (#[trigger] merged@[jj])@.extra_dirs.len()
                        <= total_extra_dirs(orig.take(done + 1)) by {
                        if jj != k {
                            assert(merged@[jj]@ == m[jj]);
                        }
                    }
                }
            },
            None => {
                merged.push(s);
                proof {
                    assert(series_views(merged@) =~= m.push(orig[done]));
                    assert forall|jj: int| 0 <= jj < merged@.len() implies (#[trigger] merged@[jj])@.extra_dirs.len()
                        <= total_extra_dirs(orig.take(done + 1)) by {
                        if jj < m.len() {
                            assert(merged@[jj]@ == m[jj]);
                        }
                    }
                }
            },
        }
        proof {
            done = done + 1;
        }
    }
    proof {
        assert(orig.skip(done).len() == 0);
        assert(orig.take(done) =~= orig);
    }
    merged
}


/// Number of placed files over a list of series.
pub open spec fn total_files(list: Seq<SeriesView>) -> nat
    decreases list.len(),
{
    if list.len() == 0 {
        0
    } else {
        total_files(list.drop_last()) + list.last().files.len()
    }
}

proof fn lemma_find_series_result(merged: Seq<SeriesView>, name: Seq<char>)
    ensures
        match find_series(merged, name) {
            Some(i) => 0 <= i < merged.len() && merged[i].name == name,
            None => forall|k: int| 0 <= k < merged.len() ==> (#[trigger] merged[k]).name != name,
        },
    decreases merged.len(),
{
    if merged.len() > 0 {
        lemma_find_series_result(merged.drop_first(), name);
        if merged[0].name != name {
            match find_series(merged.drop_first(), name) {
                Some(i) => {
                    assert(merged.drop_first()[i] == merged[i + 1]);
                },
                None => {
                    assert forall|k: int| 0 <= k < merged.len() implies (#[trigger] merged[k]).name != name by {
                        if k > 0 {
                            assert(merged.drop_first()[k - 1] == merged[k]);
                        }
                    }
                },
            }
        }
    }
}

proof fn lemma_total_files_update(list: Seq<SeriesView>, i: int, x: SeriesView)
    requires
        0 <= i < list.len(),
    ensures
        total_files(list.update(i, x)) + list[i].files.len() == total_files(list) + x.files.len(),
    decreases list.len(),
{
    let u = list.update(i, x);
    if i == list.len() - 1 {
        assert(u.drop_last() =~= list.drop_last());
    } else {
        assert(u.drop_last() =~= list.drop_last().update(i, x));
        lemma_total_files_update(list.drop_last(), i, x);
    }
}

/// Law: merging leaves at most one series per name, keeps a series for
/// every name it was given, and loses no placed file.
pub proof fn lemma_merge_series(list: Seq<SeriesView>)
    ensures
        forall|i: int, j: int|
            0 <= i < j < spec_merge_series(list).len() ==> (#[trigger] spec_merge_series(list)[i]).name
                != (#[trigger] spec_merge_series(list)[j]).name,
        forall|i: int| 0 <= i < list.len() ==> find_series(spec_merge_series(list), (#[trigger] list[i]).name) is Some,
        total_files(spec_merge_series(list)) == total_files(list),
    decreases list.len(),
{
    if list.len() > 0 {
        let pre = list.drop_last();
        let s = list.last();
        lemma_merge_series(pre);
        let m = spec_merge_series(pre);
        let m2 = spec_merge_series(list);
        lemma_find_series_result(m, s.name);
        match find_series(m, s.name) {
            Some(i) => {
                let a = absorb(m[i], s);
                assert(m2 == m.update(i, a));
                assert(a.files.len() == m[i].files.len() + s.files.len());
                lemma_total_files_update(m, i, a);
                assert forall|k: int| 0 <= k < m2.len() implies (#[trigger] m2[k]).name == m[k].name by {}
                assert forall|k: int| 0 <= k < list.len() implies find_series(m2, (#[trigger] list[k]).name) is Some by {
                    if k < pre.len() {
                        assert(pre[k] == list[k]);
                        lemma_find_series_result(m, pre[k].name);
                    }
                    lemma_find_series_result(m2, list[k].name);
                    let j = if k < pre.len() {
                        find_series(m, pre[k].name)->0
                    } else {
                        i
                    };
                    assert(m2[j].name == list[k].name);
                }
            },
            None => {
                assert(m2 == m.push(s));
                assert(m2.drop_last() =~= m);
                assert forall|k: int| 0 <= k < list.len() implies find_series(m2, (#[trigger] list[k]).name) is Some by {
                    lemma_find_series_result(m2, list[k].name);
                    if k < pre.len() {
                        assert(pre[k] == list[k]);
                        lemma_find_series_result(m, pre[k].name);
                        let j = find_series(m, pre[k].name)->0;
                        assert(m2[j] == m[j]);
                    } else {
                        assert(m2[m.len() as int] == s);
                    }
                }
            },
        }
    }
}

/// Law: after parsing, the series' `unknown` holds no file: files of
/// unknown season went to the first season; only non-file nodes stay.
pub proof fn lemma_parse_series_unknown(root: RawNode)
    ensures
        forall|i: int|
            0 <= i < spec_parse_series(root).files.len() && is_series_unknown(
                #[trigger] spec_parse_series(root).files[i],
            ) ==> !spec_parse_series(root).files[i].file.is_file,
{
    let raw = match root.name {
        Some(n) => n@,
        None => Seq::empty(),
    };
    let a = spec_anchor_extras(
        spec_walk(root, empty_info(), None, None, true, empty_series(spec_series_display_name(raw))),
    );
    let r = spec_parse_series(root);
    assert(r == spec_assign_unknown_to_first_season(a));
    if has_unknown_file(a) {
        let kept = a.files.filter(|p: PlacedView| !is_series_unknown(p));
        let moved = a.files.filter(|p: PlacedView| is_series_unknown(p)).map_values(
            |p: PlacedView| to_first_season(p),
        );
        assert(r.files == kept + moved);
        assert forall|i: int| 0 <= i < r.files.len() && is_series_unknown(#[trigger] r.files[i]) implies !r.files[i].file.is_file by {
            if i < kept.len() {
                assert(r.files[i] == kept[i]);
                a.files.lemma_filter_pred(|p: PlacedView| !is_series_unknown(p), i);
            } else {
                assert(r.files[i] == moved[i - kept.len()]);
            }
        }
    } else {
        assert forall|i: int| 0 <= i < r.files.len() && is_series_unknown(#[trigger] r.files[i]) implies !r.files[i].file.is_file by {
            if r.files[i].file.is_file {
                assert(is_series_unknown(a.files[i]) && a.files[i].file.is_file);
            }
        }
    }
}


/// Some series of `list` holds a node with this id.
pub open spec fn has_file_id(list: Seq<SeriesView>, id: u64) -> bool {
    exists|m: int, j: int|
        0 <= m < list.len() && 0 <= j < list[m].files.len() && (#[trigger] list[m].files[j]).file.id == id
}

proof fn lemma_absorb_wf(t: SeriesView, s: SeriesView)
    requires
        series_wf(t),
        series_wf(s),
        extras_tagged(t),
        extras_tagged(s),
        t.extra_dirs.len() + s.extra_dirs.len() <= usize::MAX,
    ensures
        series_wf(absorb(t, s)),
        extras_tagged(absorb(t, s)),
        absorb(t, s).extra_dirs.len() == t.extra_dirs.len() + s.extra_dirs.len(),
        absorb(t, s).files.len() == t.files.len() + s.files.len(),
        forall|j: int| 0 <= j < t.files.len() ==> (#[trigger] absorb(t, s).files[j]) == t.files[j],
        forall|j: int|
            0 <= j < s.files.len() ==> (#[trigger] absorb(t, s).files[t.files.len() + j]).file == s.files[j].file,
{
    let a = absorb(t, s);
    let off = t.extra_dirs.len();
    assert forall|i: int| 0 <= i < a.extra_dirs.len() implies ((#[trigger] a.extra_dirs[i]).parent matches Some(p) ==> (p as int) < i) by {
        if i >= off {
            assert(a.extra_dirs[i] == shift_dir(s.extra_dirs[i - off], off));
            assert(s.extra_dirs[i - off].parent matches Some(p) ==> (p as int) < i - off);
        } else {
            assert(a.extra_dirs[i] == t.extra_dirs[i]);
        }
    }
    assert forall|i: int| 0 <= i < a.files.len() implies ((#[trigger] a.files[i]).slot matches Slot::ExtraDirFile(d) ==> (d as int) < a.extra_dirs.len()) by {
        if i >= t.files.len() {
            assert(a.files[i] == shift_placed(s.files[i - t.files.len()], off));
            assert(s.files[i - t.files.len()].slot matches Slot::ExtraDirFile(d) ==> (d as int) < s.extra_dirs.len());
        } else {
            assert(a.files[i] == t.files[i]);
        }
    }
    assert forall|i: int| 0 <= i < a.files.len() && is_extra_slot((#[trigger] a.files[i]).slot) implies a.files[i].file.extra is Some by {
        if i >= t.files.len() {
            assert(a.files[i] == shift_placed(s.files[i - t.files.len()], off));
            assert(is_extra_slot(s.files[i - t.files.len()].slot));
        } else {
            assert(a.files[i] == t.files[i]);
        }
    }
    assert forall|j: int| 0 <= j < s.files.len() implies (#[trigger] a.files[t.files.len() + j]).file == s.files[j].file by {
        assert(a.files[t.files.len() + j] == shift_placed(s.files[j], off));
    }
}

/// Law: merging well-formed series whose extras carry their kind keeps
/// every merged series so, and every node of every input series is found
/// in some merged series.
pub proof fn lemma_merge_series_keeps_nodes(list: Seq<SeriesView>)
    requires
        forall|k: int| 0 <= k < list.len() ==> series_wf(#[trigger] list[k]) && extras_tagged(list[k]),
        total_extra_dirs(list) <= usize::MAX,
    ensures
        forall|m: int|
            0 <= m < spec_merge_series(list).len() ==> series_wf(#[trigger] spec_merge_series(list)[m])
                && extras_tagged(spec_merge_series(list)[m]) && spec_merge_series(list)[m].extra_dirs.len()
                <= total_extra_dirs(list),
        forall|k: int, i: int|
            0 <= k < list.len() && 0 <= i < list[k].files.len() ==> has_file_id(
                spec_merge_series(list),
                (#[trigger] list[k].files[i]).file.id,
            ),
    decreases list.len(),
{
    if list.len() > 0 {
        let pre = list.drop_last();
        let s = list.last();
        assert forall|k: int| 0 <= k < pre.len() implies series_wf(#[trigger] pre[k]) && extras_tagged(pre[k]) by {
            assert(pre[k] == list[k]);
        }
        lemma_merge_series_keeps_nodes(pre);
        let m = spec_merge_series(pre);
        let m2 = spec_merge_series(list);
        assert(series_wf(list[list.len() - 1]) && extras_tagged(list[list.len() - 1]));
        lemma_find_series_result(m, s.name);
        match find_series(m, s.name) {
            Some(ix) => {
                let a = absorb(m[ix], s);
                assert(m2 == m.update(ix, a));
                assert(series_wf(m[ix]) && extras_tagged(m[ix]));
                lemma_absorb_wf(m[ix], s);
                assert forall|mm: int| 0 <= mm < m2.len() implies series_wf(#[trigger] m2[mm]) && extras_tagged(m2[mm])
                    && m2[mm].extra_dirs.len() <= total_extra_dirs(list) by {
                    if mm != ix {
                        assert(m2[mm] == m[mm]);
                    }
                }
                assert forall|k: int, i: int| 0 <= k < list.len() && 0 <= i < list[k].files.len() implies has_file_id(
                    m2,
                    (#[trigger] list[k].files[i]).file.id,
                ) by {
                    if k < pre.len() {
                        assert(pre[k] == list[k]);
                        assert(has_file_id(m, pre[k].files[i].file.id));
                        let (mm, jj) = choose|mm: int, jj: int|
                            0 <= mm < m.len() && 0 <= jj < m[mm].files.len() && (#[trigger] m[mm].files[jj]).file.id
                                == pre[k].files[i].file.id;
                        if mm == ix {
                            assert(m2[ix].files[jj] == m[ix].files[jj]);
                        } else {
                            assert(m2[mm] == m[mm]);
                        }
                    } else {
                        assert(list[k] == s);
                        let jj = m[ix].files.len() + i;
                        assert(m2[ix].files[jj].file == s.files[i].file);
                    }
                }
            },
            None => {
                assert(m2 == m.push(s));
                assert forall|mm: int| 0 <= mm < m2.len() implies series_wf(#[trigger] m2[mm]) && extras_tagged(m2[mm])
                    && m2[mm].extra_dirs.len() <= total_extra_dirs(list) by {
                    if mm < m.len() {
                        assert(m2[mm] == m[mm]);
                    }
                }
                assert forall|k: int, i: int| 0 <= k < list.len() && 0 <= i < list[k].files.len() implies has_file_id(
                    m2,
                    (#[trigger] list[k].files[i]).file.id,
                ) by {
                    if k < pre.len() {
                        assert(pre[k] == list[k]);
                        assert(has_file_id(m, pre[k].files[i].file.id));
                        let (mm, jj) = choose|mm: int, jj: int|
                            0 <= mm < m.len() && 0 <= jj < m[mm].files.len() && (#[trigger] m[mm].files[jj]).file.id
                                == pre[k].files[i].file.id;
                        assert(m2[mm] == m[mm]);
                    } else {
                        assert(list[k] == s);
                        assert(m2[m.len() as int] == s);
                        assert(m2[m.len() as int].files[i] == s.files[i]);
                    }
                }
            },
        }
    }
}


/// The series of `list` named `n`, in order.
pub open spec fn named(list: Seq<SeriesView>, n: Seq<char>) -> Seq<SeriesView>
    decreases list.len(),
{
    if list.len() == 0 {
        seq![]
    } else if list.last().name == n {
        named(list.drop_last(), n).push(list.last())
    } else {
        named(list.drop_last(), n)
    }
}

/// The extra directories of `group` one after the other, each series'
/// parent indices moved past the directories of the series before it.
pub open spec fn shifted_dirs(group: Seq<SeriesView>) -> Seq<ExtraDirView>
    decreases group.len(),
{
    if group.len() == 0 {
        seq![]
    } else {
        shifted_dirs(group.drop_last()) + group.last().extra_dirs.map_values(
            |d: ExtraDirView| shift_dir(d, total_extra_dirs(group.drop_last())),
        )
    }
}

proof fn lemma_shifted_dirs_len(group: Seq<SeriesView>)
    ensures
        shifted_dirs(group).len() == total_extra_dirs(group),
    decreases group.len(),
{
    if group.len() > 0 {
        lemma_shifted_dirs_len(group.drop_last());
    }
}

/// Law: each merged series holds the extra directories of the input series
/// of its name, in input order, each series' parent indices moved past the
/// directories of the series merged before it (its files' directory
/// indices likewise, see `absorb`).
pub proof fn lemma_merge_series_shifts_dirs(list: Seq<SeriesView>)
    ensures
        forall|m: int|
            0 <= m < spec_merge_series(list).len() ==> (#[trigger] spec_merge_series(list)[m]).extra_dirs
                == shifted_dirs(named(list, spec_merge_series(list)[m].name)),
        forall|m: int|
            0 <= m < spec_merge_series(list).len() ==> named(list, (#[trigger] spec_merge_series(list)[m]).name).len()
                > 0,
    decreases list.len(),
{
    if list.len() > 0 {
        let pre = list.drop_last();
        let s = list.last();
        lemma_merge_series_shifts_dirs(pre);
        lemma_merge_series(pre);
        let m = spec_merge_series(pre);
        let m2 = spec_merge_series(list);
        lemma_find_series_result(m, s.name);
        match find_series(m, s.name) {
            Some(ix) => {
                let a = absorb(m[ix], s);
                assert(m2 == m.update(ix, a));
                let g = named(pre, s.name);
                assert(named(list, s.name) == g.push(s));
                assert(g.push(s).drop_last() =~= g);
                lemma_shifted_dirs_len(g);
                assert(m[ix].extra_dirs == shifted_dirs(g));
                assert(a.extra_dirs =~= shifted_dirs(g.push(s)));
                assert forall|mm: int| 0 <= mm < m2.len() implies (#[trigger] m2[mm]).extra_dirs == shifted_dirs(
                    named(list, m2[mm].name),
                ) && named(list, m2[mm].name).len() > 0 by {
                    if mm != ix {
                        assert(m2[mm] == m[mm]);
                        assert(m[mm].name != s.name) by {
                            if m[mm].name == s.name {
                                assert(m[ix].name == m[mm].name);
                            }
                        }
                        assert(named(list, m[mm].name) == named(pre, m[mm].name));
                    }
                }
            },
            None => {
                assert(m2 == m.push(s));
                assert(named(pre, s.name).len() == 0) by {
                    if named(pre, s.name).len() > 0 {
                        lemma_named_member(pre, s.name);
                        let k = choose|k: int| 0 <= k < pre.len() && (#[trigger] pre[k]).name == s.name;
                        assert(find_series(m, pre[k].name) is Some);
                    }
                }
                assert(named(list, s.name) == named(pre, s.name).push(s));
                assert(named(list, s.name) =~= seq![s]);
                let one = seq![s];
                assert(one.drop_last() =~= Seq::<SeriesView>::empty());
                assert(one.last() == s);
                assert(shifted_dirs(one.drop_last()) == Seq::<ExtraDirView>::empty());
                assert(total_extra_dirs(one.drop_last()) == 0);
                assert(shifted_dirs(one) =~= s.extra_dirs.map_values(|d: ExtraDirView| shift_dir(d, 0)));
                assert(s.extra_dirs.map_values(|d: ExtraDirView| shift_dir(d, 0)) =~= s.extra_dirs) by {
                    assert forall|k: int| 0 <= k < s.extra_dirs.len() implies shift_dir(s.extra_dirs[k], 0)
                        == s.extra_dirs[k] by {
                        if let Some(p) = s.extra_dirs[k].parent {
                            assert(shift_index(p, 0) == p);
                        }
                    }
                }
                assert forall|mm: int| 0 <= mm < m2.len() implies (#[trigger] m2[mm]).extra_dirs == shifted_dirs(
                    named(list, m2[mm].name),
                ) && named(list, m2[mm].name).len() > 0 by {
                    if mm < m.len() {
                        assert(m2[mm] == m[mm]);
                        assert(m[mm].name != s.name);
                        assert(named(list, m[mm].name) == named(pre, m[mm].name));
                    } else {
                        assert(m2[mm] == s);
                    }
                }
            },
        }
    }
}

proof fn lemma_named_member(list: Seq<SeriesView>, n: Seq<char>)
    requires
        named(list, n).len() > 0,
    ensures
        exists|k: int| 0 <= k < list.len() && (#[trigger] list[k]).name == n,
    decreases list.len(),
{
    if list.last().name == n {
        assert(list[list.len() - 1].name == n);
    } else {
        lemma_named_member(list.drop_last(), n);
        let k = choose|k: int| 0 <= k < list.drop_last().len() && (#[trigger] list.drop_last()[k]).name == n;
        assert(list[k] == list.drop_last()[k]);
    }
}

/// Law: a list whose names are pairwise distinct is left as it is by the
/// merge; so merging twice is merging once.
pub proof fn lemma_merge_series_idempotent(list: Seq<SeriesView>)
    ensures
        (forall|i: int, j: int| 0 <= i < j < list.len() ==> (#[trigger] list[i]).name != (#[trigger] list[j]).name)
            ==> spec_merge_series(list) == list,
        spec_merge_series(spec_merge_series(list)) == spec_merge_series(list),
    decreases list.len(),
{
    lemma_merge_distinct(list);
    lemma_merge_series(list);
    lemma_merge_distinct(spec_merge_series(list));
}

proof fn lemma_merge_distinct(list: Seq<SeriesView>)
    ensures
        (forall|i: int, j: int| 0 <= i < j < list.len() ==> (#[trigger] list[i]).name != (#[trigger] list[j]).name)
            ==> spec_merge_series(list) == list,
    decreases list.len(),
{
    if list.len() > 0 && forall|i: int, j: int|
        0 <= i < j < list.len() ==> (#[trigger] list[i]).name != (#[trigger] list[j]).name {
        let pre = list.drop_last();
        assert forall|i: int, j: int| 0 <= i < j < pre.len() implies (#[trigger] pre[i]).name != (#[trigger] pre[j]).name by {
            assert(pre[i] == list[i] && pre[j] == list[j]);
        }
        lemma_merge_distinct(pre);
        lemma_find_series_result(pre, list.last().name);
        if let Some(k) = find_series(pre, list.last().name) {
            assert(pre[k] == list[k]);
            assert(list[k].name != list[list.len() - 1].name);
        }
        assert(list =~= pre.push(list.last()));
    }
}

/// Law: the walk only appends to the directories to delete, and a node
/// walked as a regular directory records itself first, before anything
/// of its subtree: the list is in depth-first pre-order, each directory
/// after its ancestors, so deleting in reverse goes deepest first.
pub proof fn lemma_walk_dirs_preorder(
    node: RawNode,
    inherited: InfoView,
    anchor_parent: Option<u64>,
    extra_dir: Option<usize>,
    is_root: bool,
    s: SeriesView,
)
    ensures
        spec_walk(node, inherited, anchor_parent, extra_dir, is_root, s).dirs_to_delete.len() >= s.dirs_to_delete.len(),
        spec_walk(node, inherited, anchor_parent, extra_dir, is_root, s).dirs_to_delete.take(
            s.dirs_to_delete.len() as int,
        ) == s.dirs_to_delete,
        walked_as_regular_dir(node, inherited, is_root) ==> spec_walk(
            node,
            inherited,
            anchor_parent,
            extra_dir,
            is_root,
            s,
        ).dirs_to_delete.len() > s.dirs_to_delete.len() && spec_walk(
            node,
            inherited,
            anchor_parent,
            extra_dir,
            is_root,
            s,
        ).dirs_to_delete[s.dirs_to_delete.len() as int] == node.id,
    decreases node, 1int, 0int,
{
    let r = spec_walk(node, inherited, anchor_parent, extra_dir, is_root, s);
    match (node.kind, node.name) {
        (Some(NodeKind::File), Some(_)) => {
            assert(s.dirs_to_delete.take(s.dirs_to_delete.len() as int) =~= s.dirs_to_delete);
        },
        (Some(NodeKind::Other), Some(_)) => {
            assert(s.dirs_to_delete.take(s.dirs_to_delete.len() as int) =~= s.dirs_to_delete);
        },
        (Some(_), Some(name)) => {
            let eff = dir_effective(name@, inherited, is_root);
            if !is_root && extra_kind_of(eff) is Some {
                let idx = s.extra_dirs.len() as usize;
                let dir = ExtraDirView {
                    id: node.id,
                    name: name@,
                    kind: extra_kind_of(eff)->0,
                    season: scored_value(eff.season),
                    anchor_parent,
                    parent: extra_dir,
                };
                lemma_walk_children_dirs_preorder(node, 0, eff, anchor_parent, Some(idx), SeriesView { extra_dirs: s.extra_dirs.push(dir), ..s });
            } else {
                let s1 = SeriesView { dirs_to_delete: s.dirs_to_delete.push(node.id), ..s };
                lemma_walk_children_dirs_preorder(node, 0, eff, Some(node.id), extra_dir, s1);
                let n = s.dirs_to_delete.len() as int;
                assert(r.dirs_to_delete.take(n + 1) == s1.dirs_to_delete);
                assert(r.dirs_to_delete[n] == r.dirs_to_delete.take(n + 1)[n]);
                assert(r.dirs_to_delete.take(n) =~= r.dirs_to_delete.take(n + 1).take(n));
                assert(s1.dirs_to_delete.take(n) =~= s.dirs_to_delete);
            }
        },
        _ => {
            assert(s.dirs_to_delete.take(s.dirs_to_delete.len() as int) =~= s.dirs_to_delete);
        },
    }
}

/// `node` is walked as a regular directory (recorded for deletion): a
/// named directory or virtual node that is the series root or whose
/// effective information names no extra kind.
pub open spec fn walked_as_regular_dir(node: RawNode, inherited: InfoView, is_root: bool) -> bool {
    match (node.kind, node.name) {
        (Some(NodeKind::Directory), Some(name)) | (Some(NodeKind::Virtual), Some(name)) => is_root
            || extra_kind_of(dir_effective(name@, inherited, is_root)) is None,
        _ => false,
    }
}

proof fn lemma_walk_children_dirs_preorder(
    node: RawNode,
    i: int,
    inherited: InfoView,
    anchor_parent: Option<u64>,
    extra_dir: Option<usize>,
    s: SeriesView,
)
    ensures
        spec_walk_children(node, i, inherited, anchor_parent, extra_dir, s).dirs_to_delete.len()
            >= s.dirs_to_delete.len(),
        spec_walk_children(node, i, inherited, anchor_parent, extra_dir, s).dirs_to_delete.take(
            s.dirs_to_delete.len() as int,
        ) == s.dirs_to_delete,
    decreases node, 0int, node.children@.len() - i,
{
    if 0 <= i < node.children@.len() {
        let s1 = spec_walk(node.children@[i], inherited, anchor_parent, extra_dir, false, s);
        lemma_walk_dirs_preorder(node.children@[i], inherited, anchor_parent, extra_dir, false, s);
        lemma_walk_children_dirs_preorder(node, i + 1, inherited, anchor_parent, extra_dir, s1);
        let r = spec_walk_children(node, i, inherited, anchor_parent, extra_dir, s);
        let n = s.dirs_to_delete.len() as int;
        assert(r.dirs_to_delete.take(n) =~= r.dirs_to_delete.take(s1.dirs_to_delete.len() as int).take(n));
    } else {
        assert(s.dirs_to_delete.take(s.dirs_to_delete.len() as int) =~= s.dirs_to_delete);
    }
}


proof fn lemma_walk_keeps_name(
    node: RawNode,
    inherited: InfoView,
    anchor_parent: Option<u64>,
    extra_dir: Option<usize>,
    is_root: bool,
    s: SeriesView,
)
    ensures
        spec_walk(node, inherited, anchor_parent, extra_dir, is_root, s).name == s.name,
    decreases node, 1int, 0int,
{
    match (node.kind, node.name) {
        (Some(NodeKind::File), Some(_)) => {},
        (Some(NodeKind::Other), Some(_)) => {},
        (Some(_), Some(name)) => {
            let eff = dir_effective(name@, inherited, is_root);
            if !is_root && extra_kind_of(eff) is Some {
                let idx = s.extra_dirs.len() as usize;
                let dir = ExtraDirView {
                    id: node.id,
                    name: name@,
                    kind: extra_kind_of(eff)->0,
                    season: scored_value(eff.season),
                    anchor_parent,
                    parent: extra_dir,
                };
                lemma_walk_children_keeps_name(node, 0, eff, anchor_parent, Some(idx), SeriesView { extra_dirs: s.extra_dirs.push(dir), ..s });
            } else {
                lemma_walk_children_keeps_name(node, 0, eff, Some(node.id), extra_dir, SeriesView { dirs_to_delete: s.dirs_to_delete.push(node.id), ..s });
            }
        },
        _ => {},
    }
}

proof fn lemma_walk_children_keeps_name(
    node: RawNode,
    i: int,
    inherited: InfoView,
    anchor_parent: Option<u64>,
    extra_dir: Option<usize>,
    s: SeriesView,
)
    ensures
        spec_walk_children(node, i, inherited, anchor_parent, extra_dir, s).name == s.name,
    decreases node, 0int, node.children@.len() - i,
{
    if 0 <= i < node.children@.len() {
        let s1 = spec_walk(node.children@[i], inherited, anchor_parent, extra_dir, false, s);
        lemma_walk_keeps_name(node.children@[i], inherited, anchor_parent, extra_dir, false, s);
        lemma_walk_children_keeps_name(node, i + 1, inherited, anchor_parent, extra_dir, s1);
    }
}

/// Law: a series is named by the tag-free title of its root directory:
/// the release tags removed (`series_title_from_name`), then its season
/// markers (`strip_season_markers`); the raw name only when nothing is
/// left. So `[VCB-Studio] X [1080p]` is series `X`, and the releases of
/// different groups, and the seasons of one title, share a name and merge.
pub proof fn lemma_parse_series_name(root: RawNode)
    ensures
        spec_parse_series(root).name == ({
            let dir_name = match root.name {
                Some(text) => text@,
                None => Seq::<char>::empty(),
            };
            let bare = spec_strip_season_markers(spec_series_title_from_name(dir_name));
            if bare.len() > 0 {
                bare
            } else {
                dir_name
            }
        }),
{
    let raw = match root.name {
        Some(n) => n@,
        None => Seq::<char>::empty(),
    };
    let s0 = empty_series(spec_series_display_name(raw));
    lemma_walk_keeps_name(root, empty_info(), None, None, true, s0);
}

} // verus!
