//! Data shapes of the rebuild: the raw tree as read from the host, and
//! the parsed series that the rebuild plan is made from.
use vstd::prelude::*;

use crate::anime::action::matcher::info::ExtraKind;
use crate::text::opt_view;

verus! {

/// Type of a node in the raw metadata tree.
#[derive(Debug, Clone, Copy, PartialEq, Eq, Structural)]
pub enum NodeKind {
    File,
    Directory,
    Virtual,
    /// Any other node type; such nodes are kept whole.
    Other,
}

/// A node of the raw metadata tree as the host reports it: its id, its
/// type and name (`None` where the host has none), and its children in
/// host order. Children are read for named directory and virtual nodes
/// only; they are empty otherwise.
#[derive(Debug)]
pub struct RawNode {
    pub id: u64,
    pub kind: Option<NodeKind>,
    pub name: Option<String>,
    pub children: Vec<RawNode>,
}

#[derive(Debug, Clone)]
pub struct ExtraItem {
    pub kind: ExtraKind,
    pub title: String,
    pub tag: Option<String>,
}

pub struct ExtraItemView {
    pub kind: ExtraKind,
    pub title: Seq<char>,
    pub tag: Option<Seq<char>>,
}

impl View for ExtraItem {
    type V = ExtraItemView;

    open spec fn view(&self) -> ExtraItemView {
        ExtraItemView { kind: self.kind, title: self.title@, tag: opt_view(self.tag) }
    }
}

/// A parsed file node; `id` is its rid in the raw tree so it can be
/// moved later without losing any of its fields.
#[derive(Debug, Clone)]
pub struct ParsedFile {
    pub id: u64,
    /// False only for non-file nodes, which must never get a season.
    pub is_file: bool,
    pub season: Option<u32>,
    pub episode: Option<u32>,
    /// Nearest regular (non-extra) ancestor directory; used to anchor
    /// season-less extras to the season of sibling main-episode files.
    pub anchor_parent: Option<u64>,
    pub extra: Option<ExtraItem>,
}

pub struct ParsedFileView {
    pub id: u64,
    pub is_file: bool,
    pub season: Option<u32>,
    pub episode: Option<u32>,
    pub anchor_parent: Option<u64>,
    pub extra: Option<ExtraItemView>,
}

impl View for ParsedFile {
    type V = ParsedFileView;

    open spec fn view(&self) -> ParsedFileView {
        ParsedFileView {
            id: self.id,
            is_file: self.is_file,
            season: self.season,
            episode: self.episode,
            anchor_parent: self.anchor_parent,
            extra: match self.extra {
                Some(e) => Some(e@),
                None => None,
            },
        }
    }
}

/// Where a parsed file ends up in the rebuilt tree.
#[derive(Debug, Clone, Copy, PartialEq, Eq, Structural)]
pub enum Slot {
    /// A main episode of the season.
    SeasonEpisode(u32),
    /// A season member without an episode number (the season's `unknown`).
    SeasonUnknown(u32),
    /// An extra found loose inside the season (no extra directory).
    SeasonLoose(u32),
    /// Not placeable: the series' `unknown`.
    SeriesUnknown,
    /// A season-less extra outside any extra directory.
    LooseExtra,
    /// An extra inside the extra directory with this index.
    ExtraDirFile(usize),
}

/// A parsed file together with its place. The series keeps one flat
/// list of these; each place's files come in list order.
#[derive(Debug, Clone)]
pub struct Placed {
    pub slot: Slot,
    pub file: ParsedFile,
}

pub struct PlacedView {
    pub slot: Slot,
    pub file: ParsedFileView,
}

impl View for Placed {
    type V = PlacedView;

    open spec fn view(&self) -> PlacedView {
        PlacedView { slot: self.slot, file: self.file@ }
    }
}

/// An extra directory discovered during the walk. The directories are
/// stored flat; `parent` is the index of the enclosing extra directory,
/// and a directory's children are the later entries naming it as parent.
/// `season` is inherited from the directory chain or filled in by
/// anchoring; `None` means the whole subtree lands at series level.
#[derive(Debug, Clone)]
pub struct ExtraDir {
    pub id: u64,
    pub name: String,
    pub kind: ExtraKind,
    pub season: Option<u32>,
    pub anchor_parent: Option<u64>,
    pub parent: Option<usize>,
}

pub struct ExtraDirView {
    pub id: u64,
    pub name: Seq<char>,
    pub kind: ExtraKind,
    pub season: Option<u32>,
    pub anchor_parent: Option<u64>,
    pub parent: Option<usize>,
}

impl View for ExtraDir {
    type V = ExtraDirView;

    open spec fn view(&self) -> ExtraDirView {
        ExtraDirView {
            id: self.id,
            name: self.name@,
            kind: self.kind,
            season: self.season,
            anchor_parent: self.anchor_parent,
            parent: self.parent,
        }
    }
}

/// Fully parsed series: placed files, every raw directory node that must
/// be deleted, and the extra directories that are rebuilt instead.
#[derive(Debug, Clone)]
pub struct ParsedSeries {
    pub name: String,
    pub files: Vec<Placed>,
    /// DFS pre-order; delete in reverse (deepest first).
    pub dirs_to_delete: Vec<u64>,
    /// Flat list of every extra directory in the series.
    pub extra_dirs: Vec<ExtraDir>,
    /// Regular directory → season of its main-episode children
    /// (anchoring); the first entry for a directory wins.
    pub dir_seasons: Vec<(u64, u32)>,
}

pub struct SeriesView {
    pub name: Seq<char>,
    pub files: Seq<PlacedView>,
    pub dirs_to_delete: Seq<u64>,
    pub extra_dirs: Seq<ExtraDirView>,
    pub dir_seasons: Seq<(u64, u32)>,
}

impl View for ParsedSeries {
    type V = SeriesView;

    open spec fn view(&self) -> SeriesView {
        SeriesView {
            name: self.name@,
            files: self.files@.map_values(|p: Placed| p@),
            dirs_to_delete: self.dirs_to_delete@,
            extra_dirs: self.extra_dirs@.map_values(|d: ExtraDir| d@),
            dir_seasons: self.dir_seasons@,
        }
    }
}

/// Season recorded for a regular directory: the first entry naming it.
pub open spec fn dir_season_of(ds: Seq<(u64, u32)>, dir: u64) -> Option<u32>
    decreases ds.len(),
{
    if ds.len() == 0 {
        None
    } else if ds[0].0 == dir {
        Some(ds[0].1)
    } else {
        dir_season_of(ds.drop_first(), dir)
    }
}

/// `entry(dir).or_insert(season)`.
pub open spec fn record_dir_season(ds: Seq<(u64, u32)>, dir: u64, season: u32) -> Seq<(u64, u32)> {
    if dir_season_of(ds, dir) is Some {
        ds
    } else {
        ds.push((dir, season))
    }
}

proof fn lemma_dir_season_of_take(ds: Seq<(u64, u32)>, i: int, dir: u64)
    requires
        0 <= i < ds.len(),
        forall|k: int| 0 <= k < i ==> (#[trigger] ds[k]).0 != dir,
    ensures
        dir_season_of(ds, dir) == dir_season_of(ds.skip(i), dir),
    decreases i,
{
    if i > 0 {
        assert(ds.drop_first().skip(i - 1) =~= ds.skip(i));
        assert forall|k: int| 0 <= k < i - 1 implies (#[trigger] ds.drop_first()[k]).0 != dir by {
            assert(ds.drop_first()[k] == ds[k + 1]);
        }
        lemma_dir_season_of_take(ds.drop_first(), i - 1, dir);
    } else {
        assert(ds.skip(0) =~= ds);
    }
}

/// Look up the season recorded for a regular directory.
pub fn find_dir_season(ds: &Vec<(u64, u32)>, dir: u64) -> (r: Option<u32>)
    ensures
        r == dir_season_of(ds@, dir),
{
    let mut i: usize = 0;
    while i < ds.len()
        invariant
            i <= ds.len(),
            forall|k: int| 0 <= k < i ==> (#[trigger] ds@[k]).0 != dir,
        decreases ds.len() - i,
    {
        if ds[i].0 == dir {
            proof {
                lemma_dir_season_of_take(ds@, i as int, dir);
                assert(ds@.skip(i as int)[0] == ds@[i as int]);
            }
            return Some(ds[i].1);
        }
        i = i + 1;
    }
    proof {
        lemma_dir_season_none(ds@, dir);
    }
    None
}

proof fn lemma_dir_season_none(ds: Seq<(u64, u32)>, dir: u64)
    requires
        forall|k: int| 0 <= k < ds.len() ==> (#[trigger] ds[k]).0 != dir,
    ensures
        dir_season_of(ds, dir) is None,
    decreases ds.len(),
{
    if ds.len() > 0 {
        assert forall|k: int| 0 <= k < ds.len() - 1 implies (#[trigger] ds.drop_first()[k]).0 != dir by {
            assert(ds.drop_first()[k] == ds[k + 1]);
        }
        assert(ds[0].0 != dir);
        lemma_dir_season_none(ds.drop_first(), dir);
    }
}

impl ParsedSeries {
    /// An empty series called `name`.
    pub fn named(name: String) -> (r: ParsedSeries)
        ensures
            r@ == (SeriesView {
                name: name@,
                files: seq![],
                dirs_to_delete: seq![],
                extra_dirs: seq![],
                dir_seasons: seq![],
            }),
    {
        let r = ParsedSeries {
            name,
            files: Vec::new(),
            dirs_to_delete: Vec::new(),
            extra_dirs: Vec::new(),
            dir_seasons: Vec::new(),
        };
        proof {
            assert(r@.files =~= Seq::<PlacedView>::empty());
            assert(r@.extra_dirs =~= Seq::<ExtraDirView>::empty());
        }
        r
    }

    /// Place a file at the end of the list.
    pub fn place(&mut self, slot: Slot, file: ParsedFile)
        ensures
            final(self)@ == (SeriesView {
                files: old(self)@.files.push(PlacedView { slot, file: file@ }),
                ..old(self)@
            }),
    {
        self.files.push(Placed { slot, file });
        proof {
            assert(self@.files =~= old(self)@.files.push(PlacedView { slot, file: file@ }));
        }
    }

    /// Record a raw directory for deletion.
    pub fn push_dir_to_delete(&mut self, id: u64)
        ensures
            final(self)@ == (SeriesView {
                dirs_to_delete: old(self)@.dirs_to_delete.push(id),
                ..old(self)@
            }),
    {
        self.dirs_to_delete.push(id);
        proof {
            assert(self@.files =~= old(self)@.files);
            assert(self@.extra_dirs =~= old(self)@.extra_dirs);
        }
    }

    /// Add an extra directory at the end of the list.
    pub fn push_extra_dir(&mut self, dir: ExtraDir)
        ensures
            final(self)@ == (SeriesView {
                extra_dirs: old(self)@.extra_dirs.push(dir@),
                ..old(self)@
            }),
    {
        self.extra_dirs.push(dir);
        proof {
            assert(self@.files =~= old(self)@.files);
            assert(self@.extra_dirs =~= old(self)@.extra_dirs.push(dir@));
        }
    }

    /// `dir_seasons.entry(dir).or_insert(season)`.
    pub fn record_dir_season(&mut self, dir: u64, season: u32)
        ensures
            final(self)@ == (SeriesView {
                dir_seasons: record_dir_season(old(self)@.dir_seasons, dir, season),
                ..old(self)@
            }),
    {
        if find_dir_season(&self.dir_seasons, dir).is_none() {
            self.dir_seasons.push((dir, season));
        }
        proof {
            assert(self@.files =~= old(self)@.files);
            assert(self@.extra_dirs =~= old(self)@.extra_dirs);
        }
    }
}

/// An independent copy of an optional string.
pub fn copy_opt_string(o: &Option<String>) -> (r: Option<String>)
    ensures
        opt_view(r) == opt_view(*o),
{
    match o {
        Some(s) => Some(s.clone()),
        None => None,
    }
}

impl ExtraItem {
    /// An independent copy with the same content.
    pub fn duplicate(&self) -> (r: ExtraItem)
        ensures
            r@ == self@,
    {
        ExtraItem { kind: self.kind, title: self.title.clone(), tag: copy_opt_string(&self.tag) }
    }
}

impl ParsedFile {
    /// An independent copy with the same content.
    pub fn duplicate(&self) -> (r: ParsedFile)
        ensures
            r@ == self@,
    {
        ParsedFile {
            id: self.id,
            is_file: self.is_file,
            season: self.season,
            episode: self.episode,
            anchor_parent: self.anchor_parent,
            extra: match &self.extra {
                Some(e) => Some(e.duplicate()),
                None => None,
            },
        }
    }
}

impl Placed {
    /// An independent copy with the same content.
    pub fn duplicate(&self) -> (r: Placed)
        ensures
            r@ == self@,
    {
        Placed { slot: self.slot, file: self.file.duplicate() }
    }
}

impl ExtraDir {
    /// An independent copy with the same content.
    pub fn duplicate(&self) -> (r: ExtraDir)
        ensures
            r@ == self@,
    {
        ExtraDir {
            id: self.id,
            name: self.name.clone(),
            kind: self.kind,
            season: self.season,
            anchor_parent: self.anchor_parent,
            parent: self.parent,
        }
    }
}

} // verus!
