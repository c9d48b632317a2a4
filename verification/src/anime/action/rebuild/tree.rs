//! Plan of the rebuild of one parsed series: season nodes, extras trees,
//! `unknown` buckets and the deletion of the raw directories.
use vstd::prelude::*;

use crate::anime::action::matcher::extra::{
    extra_bucket_name, extra_kind_str, spec_extra_bucket_name, spec_extra_kind_str,
};
use crate::anime::action::matcher::info::ExtraKind;
use crate::anime::action::rebuild::model::{
    ExtraItemView, ParsedFile, ParsedFileView, ParsedSeries, PlacedView, SeriesView, Slot,
};
use crate::anime::action::rebuild::plan::{
    emit, file_note, kind_note, plan_view, Action, ActionView, EpisodeNote, NoteView, Target,
};
use crate::text::{
    chars_equal, chars_of, lowercase, to_lowercase, trim_trailing_s, trim_trailing_s_chars,
};
use crate::anime::action::rebuild::model::copy_opt_string;

verus! {

/// Number of extra kinds.
pub const KIND_COUNT: usize = 23;

/// The extra kinds in their declared (and `Ord`) order.
pub open spec fn kind_of_rank(r: int) -> ExtraKind {
    if r == 0 {
        ExtraKind::Opening
    } else if r == 1 {
        ExtraKind::Ending
    } else if r == 2 {
        ExtraKind::InsertSong
    } else if r == 3 {
        ExtraKind::Credits
    } else if r == 4 {
        ExtraKind::Menu
    } else if r == 5 {
        ExtraKind::VideoExtra
    } else if r == 6 {
        ExtraKind::PromotionVideo
    } else if r == 7 {
        ExtraKind::NextPreview
    } else if r == 8 {
        ExtraKind::Live
    } else if r == 9 {
        ExtraKind::AudioCommentary
    } else if r == 10 {
        ExtraKind::BonusDisc
    } else if r == 11 {
        ExtraKind::Scan
    } else if r == 12 {
        ExtraKind::Booklet
    } else if r == 13 {
        ExtraKind::Artwork
    } else if r == 14 {
        ExtraKind::Poster
    } else if r == 15 {
        ExtraKind::Subtitle
    } else if r == 16 {
        ExtraKind::Font
    } else if r == 17 {
        ExtraKind::Chapter
    } else if r == 18 {
        ExtraKind::Thumbnail
    } else if r == 19 {
        ExtraKind::DataFile
    } else if r == 20 {
        ExtraKind::Patch
    } else if r == 21 {
        ExtraKind::Generic
    } else {
        ExtraKind::Unknown
    }
}

/// The extra kind at position `r` of the declared order.
pub fn kind_at(r: usize) -> (k: ExtraKind)
    ensures
        k == kind_of_rank(r as int),
{
    if r == 0 {
        ExtraKind::Opening
    } else if r == 1 {
        ExtraKind::Ending
    } else if r == 2 {
        ExtraKind::InsertSong
    } else if r == 3 {
        ExtraKind::Credits
    } else if r == 4 {
        ExtraKind::Menu
    } else if r == 5 {
        ExtraKind::VideoExtra
    } else if r == 6 {
        ExtraKind::PromotionVideo
    } else if r == 7 {
        ExtraKind::NextPreview
    } else if r == 8 {
        ExtraKind::Live
    } else if r == 9 {
        ExtraKind::AudioCommentary
    } else if r == 10 {
        ExtraKind::BonusDisc
    } else if r == 11 {
        ExtraKind::Scan
    } else if r == 12 {
        ExtraKind::Booklet
    } else if r == 13 {
        ExtraKind::Artwork
    } else if r == 14 {
        ExtraKind::Poster
    } else if r == 15 {
        ExtraKind::Subtitle
    } else if r == 16 {
        ExtraKind::Font
    } else if r == 17 {
        ExtraKind::Chapter
    } else if r == 18 {
        ExtraKind::Thumbnail
    } else if r == 19 {
        ExtraKind::DataFile
    } else if r == 20 {
        ExtraKind::Patch
    } else if r == 21 {
        ExtraKind::Generic
    } else {
        ExtraKind::Unknown
    }
}

/// Whether an extra directory should be flattened into its bucket: names
/// equal up to pluralization (`Scan`/`Scans`, `EXTRA`/`Extras`) collapse.
pub open spec fn spec_same_bucket_name(dir_name: Seq<char>, bucket: Seq<char>) -> bool {
    trim_trailing_s(lowercase(dir_name)) == trim_trailing_s(lowercase(bucket))
}

/// Whether an extra directory should be flattened into its bucket: names
/// equal up to pluralization (`Scan`/`Scans`, `EXTRA`/`Extras`) collapse.
pub fn same_bucket_name(dir_name: &str, bucket: &str) -> (r: bool)
    ensures
        r == spec_same_bucket_name(dir_name@, bucket@),
{
    let a = to_lowercase(dir_name);
    let b = to_lowercase(bucket);
    let a = trim_trailing_s_chars(&chars_of(a.as_str()));
    let b = trim_trailing_s_chars(&chars_of(b.as_str()));
    chars_equal(&a, &b)
}

/// Note of an extra file: its season, kind, title (when not empty) and
/// tag.
pub open spec fn extra_note(f: ParsedFileView, e: ExtraItemView) -> NoteView {
    NoteView {
        season_number: f.season,
        episode_number: None,
        extra_kind: Some(spec_extra_kind_str(e.kind)),
        extra_title: if e.title.len() == 0 {
            None
        } else {
            Some(e.title)
        },
        extra_tag: e.tag,
    }
}

/// An extra file moved under `parent`, annotated, and registered.
pub open spec fn move_extra_file_plan(plan: Seq<ActionView>, parent: Target, f: ParsedFileView) -> Seq<ActionView> {
    let p1 = plan.push(ActionView::Move { id: f.id, to: parent });
    let p2 = match f.extra {
        Some(e) => p1.push(ActionView::AnnotateFile { id: f.id, under: parent, note: extra_note(f, e) }),
        None => p1,
    };
    p2.push(ActionView::PushDataFile { id: f.id, under: parent })
}

/// The note of a kind.
pub fn make_kind_note(kind: ExtraKind) -> (r: EpisodeNote)
    ensures
        r@ == kind_note(kind),
{
    EpisodeNote {
        season_number: None,
        episode_number: None,
        extra_kind: Some(extra_kind_str(kind).to_string()),
        extra_title: None,
        extra_tag: None,
    }
}

/// The note of a main file.
pub fn make_file_note(season: Option<u32>, episode: Option<u32>) -> (r: EpisodeNote)
    ensures
        r@ == file_note(season, episode),
{
    EpisodeNote {
        season_number: season,
        episode_number: episode,
        extra_kind: None,
        extra_title: None,
        extra_tag: None,
    }
}

pub fn move_extra_file(plan: &mut Vec<Action>, parent: Target, file: &ParsedFile)
    ensures
        plan_view(final(plan)@) == move_extra_file_plan(plan_view(old(plan)@), parent, file@),
{
    emit(plan, Action::Move { id: file.id, to: parent });
    if let Some(extra) = &file.extra {
        let title = if extra.title.as_str().is_empty() {
            None
        } else {
            Some(extra.title.clone())
        };
        let note = EpisodeNote {
            season_number: file.season,
            episode_number: None,
            extra_kind: Some(extra_kind_str(extra.kind).to_string()),
            extra_title: title,
            extra_tag: copy_opt_string(&extra.tag),
        };
        emit(plan, Action::AnnotateFile { id: file.id, under: parent, note });
    }
    emit(plan, Action::PushDataFile { id: file.id, under: parent });
}

/// The extra kind of a placed file, if it is an extra.
pub open spec fn placed_kind(p: PlacedView) -> Option<ExtraKind> {
    match p.file.extra {
        Some(e) => Some(e.kind),
        None => None,
    }
}

/// Files from index `i` on that sit in `slot` and are extras of `kind`,
/// moved under `dest` in order.
pub open spec fn move_kind_files(
    s: SeriesView,
    slot: Slot,
    kind: ExtraKind,
    dest: Target,
    i: int,
    plan: Seq<ActionView>,
) -> Seq<ActionView>
    decreases s.files.len() - i,
{
    if 0 <= i < s.files.len() {
        let p = s.files[i];
        let plan1 = if p.slot == slot && placed_kind(p) == Some(kind) {
            move_extra_file_plan(plan, dest, p.file)
        } else {
            plan
        };
        move_kind_files(s, slot, kind, dest, i + 1, plan1)
    } else {
        plan
    }
}

/// Some file sits in `slot` as an extra of `kind`.
pub open spec fn has_kind_file(s: SeriesView, slot: Slot, kind: ExtraKind) -> bool {
    exists|i: int| 0 <= i < s.files.len() && (#[trigger] s.files[i]).slot == slot && placed_kind(s.files[i]) == Some(kind)
}

pub fn move_kind_files_exec(
    series: &ParsedSeries,
    slot: Slot,
    kind: ExtraKind,
    dest: Target,
    plan: &mut Vec<Action>,
)
    ensures
        plan_view(final(plan)@) == move_kind_files(series@, slot, kind, dest, 0, plan_view(old(plan)@)),
{
    let ghost s = series@;
    let mut i: usize = 0;
    while i < series.files.len()
        invariant
            s == series@,
            i <= series.files@.len(),
            move_kind_files(s, slot, kind, dest, 0, plan_view(old(plan)@)) == move_kind_files(
                s,
                slot,
                kind,
                dest,
                i as int,
                plan_view(plan@),
            ),
        decreases series.files.len() - i,
    {
        let p = &series.files[i];
        proof {
            assert(s.files[i as int] == p@);
        }
        let is_kind = match &p.file.extra {
            Some(e) => e.kind == kind,
            None => false,
        };
        if p.slot == slot && is_kind {
            move_extra_file(plan, dest, &p.file);
        }
        i = i + 1;
    }
}

fn has_kind_file_exec(series: &ParsedSeries, slot: Slot, kind: ExtraKind) -> (r: bool)
    ensures
        r == has_kind_file(series@, slot, kind),
{
    let ghost s = series@;
    let mut i: usize = 0;
    while i < series.files.len()
        invariant
            s == series@,
            i <= series.files@.len(),
            forall|k: int| 0 <= k < i ==> !((#[trigger] s.files[k]).slot == slot && placed_kind(s.files[k]) == Some(kind)),
        decreases series.files.len() - i,
    {
        let p = &series.files[i];
        proof {
            assert(s.files[i as int] == p@);
        }
        let is_kind = match &p.file.extra {
            Some(e) => e.kind == kind,
            None => false,
        };
        if p.slot == slot && is_kind {
            return true;
        }
        i = i + 1;
    }
    false
}

/// The plan of extra directory `idx` rebuilt under `key`, preserving its
/// original hierarchy: files whose kind matches the directory's stay put,
/// the others are grouped into kind buckets, child directories keep their
/// names.
pub open spec fn extra_dir_plan(s: SeriesView, key: Target, idx: int, plan: Seq<ActionView>) -> Seq<ActionView>
    decreases s.extra_dirs.len() - idx, s.extra_dirs.len() - idx + 1,
{
    if 0 <= idx < s.extra_dirs.len() {
        let dir = s.extra_dirs[idx];
        let p1 = move_kind_files(s, Slot::ExtraDirFile(idx as usize), dir.kind, key, 0, plan);
        let p2 = dir_buckets(s, idx, key, 0, p1);
        dir_children(s, idx, key, idx + 1, p2)
    } else {
        plan
    }
}

/// Buckets of extra directory `idx` for the kinds from rank `r` on.
pub open spec fn dir_buckets(s: SeriesView, idx: int, key: Target, r: int, plan: Seq<ActionView>) -> Seq<ActionView>
    decreases KIND_COUNT - r,
{
    if 0 <= r < KIND_COUNT {
        let k = kind_of_rank(r);
        let slot = Slot::ExtraDirFile(idx as usize);
        let plan1 = if k != s.extra_dirs[idx].kind && has_kind_file(s, slot, k) {
            let b = plan.len();
            let p = plan.push(ActionView::Create { parent: key, name: spec_extra_bucket_name(k) }).push(
                ActionView::AnnotateNode { node: b as usize, note: kind_note(k) },
            );
            move_kind_files(s, slot, k, Target::Created(b as usize), 0, p)
        } else {
            plan
        };
        dir_buckets(s, idx, key, r + 1, plan1)
    } else {
        plan
    }
}

/// Child directories of extra directory `idx` from index `j` on, each
/// recreated under `key` with its name and kind, then rebuilt.
pub open spec fn dir_children(s: SeriesView, idx: int, key: Target, j: int, plan: Seq<ActionView>) -> Seq<ActionView>
    decreases s.extra_dirs.len() - idx, s.extra_dirs.len() - j,
{
    if 0 <= idx < j < s.extra_dirs.len() {
        let child = s.extra_dirs[j];
        let plan1 = if child.parent == Some(idx as usize) {
            let c = plan.len();
            let p = plan.push(ActionView::Create { parent: key, name: child.name }).push(
                ActionView::AnnotateNode { node: c as usize, note: kind_note(child.kind) },
            );
            extra_dir_plan(s, Target::Created(c as usize), j, p)
        } else {
            plan
        };
        dir_children(s, idx, key, j + 1, plan1)
    } else {
        plan
    }
}

/// Rebuild one extra directory under `key`, preserving its original
/// hierarchy: children keep their names, files stay put when their kind
/// matches the directory's, otherwise they are grouped into kind buckets.
pub fn rebuild_extra_dir(series: &ParsedSeries, key: Target, idx: usize, plan: &mut Vec<Action>)
    requires
        idx < series@.extra_dirs.len(),
    ensures
        plan_view(final(plan)@) == extra_dir_plan(series@, key, idx as int, plan_view(old(plan)@)),
    decreases series@.extra_dirs.len() - idx,
{
    let ghost s = series@;
    let dir_kind = series.extra_dirs[idx].kind;
    proof {
        assert(s.extra_dirs[idx as int].kind == dir_kind);
    }
    let slot = Slot::ExtraDirFile(idx);
    move_kind_files_exec(series, slot, dir_kind, key, plan);
    let ghost p1 = plan_view(plan@);
    let mut r: usize = 0;
    while r < KIND_COUNT
        invariant
            s == series@,
            idx < s.extra_dirs.len(),
            dir_kind == s.extra_dirs[idx as int].kind,
            slot == Slot::ExtraDirFile(idx),
            r <= KIND_COUNT,
            dir_buckets(s, idx as int, key, 0, p1) == dir_buckets(s, idx as int, key, r as int, plan_view(plan@)),
        decreases KIND_COUNT - r,
    {
        let k = kind_at(r);
        if k != dir_kind && has_kind_file_exec(series, slot, k) {
            let b = plan.len();
            proof {
                assert(plan_view(plan@).len() == plan@.len());
            }
            emit(plan, Action::Create { parent: key, name: extra_bucket_name(k).to_string() });
            emit(plan, Action::AnnotateNode { node: b, note: make_kind_note(k) });
            move_kind_files_exec(series, slot, k, Target::Created(b), plan);
        }
        r = r + 1;
    }
    let ghost p2 = plan_view(plan@);
    let n = series.extra_dirs.len();
    proof {
        assert(n == s.extra_dirs.len());
    }
    let mut j: usize = idx + 1;
    while j < series.extra_dirs.len()
        invariant
            s == series@,
            idx < j <= s.extra_dirs.len(),
            dir_children(s, idx as int, key, idx + 1, p2) == dir_children(s, idx as int, key, j as int, plan_view(plan@)),
        decreases series.extra_dirs.len() - j,
    {
        let child = &series.extra_dirs[j];
        proof {
            assert(s.extra_dirs[j as int] == child@);
        }
        if child.parent == Some(idx) {
            let c = plan.len();
            proof {
                assert(plan_view(plan@).len() == plan@.len());
            }
            emit(plan, Action::Create { parent: key, name: child.name.clone() });
            emit(plan, Action::AnnotateNode { node: c, note: make_kind_note(child.kind) });
            rebuild_extra_dir(series, Target::Created(c), j, plan);
        }
        j = j + 1;
    }
}

/// Extra directory `i` is a root of the extras tree of `root_season`
/// (`None`: the series-level extras).
pub open spec fn is_root_dir(s: SeriesView, i: int, root_season: Option<u32>) -> bool {
    s.extra_dirs[i].parent is None && s.extra_dirs[i].season == root_season
}

/// Some root directory of `root_season` has kind `kind`.
pub open spec fn has_root_of_kind(s: SeriesView, root_season: Option<u32>, kind: ExtraKind) -> bool {
    exists|i: int| 0 <= i < s.extra_dirs.len() && is_root_dir(s, i, root_season) && (#[trigger] s.extra_dirs[i]).kind == kind
}

/// Some root directory of `root_season` exists.
pub open spec fn has_root(s: SeriesView, root_season: Option<u32>) -> bool {
    exists|i: int| 0 <= i < s.extra_dirs.len() && #[trigger] is_root_dir(s, i, root_season)
}

/// Some file sits in `slot`.
pub open spec fn has_slot(s: SeriesView, slot: Slot) -> bool {
    exists|i: int| 0 <= i < s.files.len() && (#[trigger] s.files[i]).slot == slot
}

/// Root directories of kind `kind` from index `i` on, placed in bucket
/// `b`: flattened into it when the directory is named like the bucket,
/// recreated inside it otherwise.
pub open spec fn bucket_dirs(
    s: SeriesView,
    root_season: Option<u32>,
    kind: ExtraKind,
    b: usize,
    i: int,
    plan: Seq<ActionView>,
) -> Seq<ActionView>
    decreases s.extra_dirs.len() - i,
{
    if 0 <= i < s.extra_dirs.len() {
        let d = s.extra_dirs[i];
        let plan1 = if is_root_dir(s, i, root_season) && d.kind == kind {
            if spec_same_bucket_name(d.name, spec_extra_bucket_name(kind)) {
                extra_dir_plan(s, Target::Created(b), i, plan)
            } else {
                let c = plan.len();
                extra_dir_plan(
                    s,
                    Target::Created(c as usize),
                    i,
                    plan.push(ActionView::Create { parent: Target::Created(b), name: d.name }).push(
                        ActionView::AnnotateNode { node: c as usize, note: kind_note(d.kind) },
                    ),
                )
            }
        } else {
            plan
        };
        bucket_dirs(s, root_season, kind, b, i + 1, plan1)
    } else {
        plan
    }
}

/// The extras tree under `parent` for the kinds from rank `r` on: one
/// bucket per kind holding the loose extras of `loose_slot`, then the
/// root directories of `root_season`.
pub open spec fn extras_plan(
    s: SeriesView,
    parent: Target,
    root_season: Option<u32>,
    loose_slot: Slot,
    r: int,
    plan: Seq<ActionView>,
) -> Seq<ActionView>
    decreases KIND_COUNT - r,
{
    if 0 <= r < KIND_COUNT {
        let k = kind_of_rank(r);
        let plan1 = if has_root_of_kind(s, root_season, k) || has_kind_file(s, loose_slot, k) {
            let b = plan.len();
            let p = plan.push(ActionView::Create { parent, name: spec_extra_bucket_name(k) }).push(
                ActionView::AnnotateNode { node: b as usize, note: kind_note(k) },
            );
            let p2 = move_kind_files(s, loose_slot, k, Target::Created(b as usize), 0, p);
            bucket_dirs(s, root_season, k, b as usize, 0, p2)
        } else {
            plan
        };
        extras_plan(s, parent, root_season, loose_slot, r + 1, plan1)
    } else {
        plan
    }
}

fn has_root_of_kind_exec(series: &ParsedSeries, root_season: Option<u32>, kind: ExtraKind) -> (r: bool)
    ensures
        r == has_root_of_kind(series@, root_season, kind),
{
    let ghost s = series@;
    let mut i: usize = 0;
    while i < series.extra_dirs.len()
        invariant
            s == series@,
            i <= s.extra_dirs.len(),
            forall|k: int| 0 <= k < i ==> !(is_root_dir(s, k, root_season) && (#[trigger] s.extra_dirs[k]).kind == kind),
        decreases series.extra_dirs.len() - i,
    {
        let d = &series.extra_dirs[i];
        proof {
            assert(s.extra_dirs[i as int] == d@);
        }
        if d.parent.is_none() && d.season == root_season && d.kind == kind {
            return true;
        }
        i = i + 1;
    }
    false
}

/// Rebuild the extras tree under `parent`: top-level entries are grouped
/// into kind buckets; a directory whose name matches its bucket is
/// flattened so `Scans/` keeps the shape the release shipped with.
pub fn rebuild_extras(
    series: &ParsedSeries,
    parent: Target,
    root_season: Option<u32>,
    loose_slot: Slot,
    plan: &mut Vec<Action>,
)
    ensures
        plan_view(final(plan)@) == extras_plan(series@, parent, root_season, loose_slot, 0, plan_view(old(plan)@)),
{
    let ghost s = series@;
    let mut r: usize = 0;
    while r < KIND_COUNT
        invariant
            s == series@,
            r <= KIND_COUNT,
            extras_plan(s, parent, root_season, loose_slot, 0, plan_view(old(plan)@)) == extras_plan(
                s,
                parent,
                root_season,
                loose_slot,
                r as int,
                plan_view(plan@),
            ),
        decreases KIND_COUNT - r,
    {
        let k = kind_at(r);
        if has_root_of_kind_exec(series, root_season, k) || has_kind_file_exec(series, loose_slot, k) {
            let b = plan.len();
            proof {
                assert(plan_view(plan@).len() == plan@.len());
            }
            let bucket = extra_bucket_name(k);
            emit(plan, Action::Create { parent, name: bucket.to_string() });
            emit(plan, Action::AnnotateNode { node: b, note: make_kind_note(k) });
            move_kind_files_exec(series, loose_slot, k, Target::Created(b), plan);
            let ghost p2 = plan_view(plan@);
            let mut i: usize = 0;
            while i < series.extra_dirs.len()
                invariant
                    s == series@,
                    i <= s.extra_dirs.len(),
                    bucket@ == spec_extra_bucket_name(k),
                    bucket_dirs(s, root_season, k, b, 0, p2) == bucket_dirs(
                        s,
                        root_season,
                        k,
                        b,
                        i as int,
                        plan_view(plan@),
                    ),
                decreases series.extra_dirs.len() - i,
            {
                let d = &series.extra_dirs[i];
                proof {
                    assert(s.extra_dirs[i as int] == d@);
                }
                if d.parent.is_none() && d.season == root_season && d.kind == k {
                    if same_bucket_name(d.name.as_str(), bucket) {
                        rebuild_extra_dir(series, Target::Created(b), i, plan);
                    } else {
                        let c = plan.len();
                        proof {
                            assert(plan_view(plan@).len() == plan@.len());
                        }
                        emit(plan, Action::Create { parent: Target::Created(b), name: d.name.clone() });
                        emit(plan, Action::AnnotateNode { node: c, note: make_kind_note(d.kind) });
                        rebuild_extra_dir(series, Target::Created(c), i, plan);
                    }
                }
                i = i + 1;
            }
        }
        r = r + 1;
    }
}

/// Ids of extra directory `idx` and its descendants, in DFS pre-order.
pub open spec fn dir_ids(s: SeriesView, idx: int) -> Seq<u64>
    decreases s.extra_dirs.len() - idx, s.extra_dirs.len() - idx + 1,
{
    if 0 <= idx < s.extra_dirs.len() {
        seq![s.extra_dirs[idx].id] + child_ids(s, idx, idx + 1)
    } else {
        seq![]
    }
}

/// Ids of the subtrees of the children of `idx` from index `j` on.
pub open spec fn child_ids(s: SeriesView, idx: int, j: int) -> Seq<u64>
    decreases s.extra_dirs.len() - idx, s.extra_dirs.len() - j,
{
    if 0 <= idx < j < s.extra_dirs.len() {
        (if s.extra_dirs[j].parent == Some(idx as usize) {
            dir_ids(s, j)
        } else {
            seq![]
        }) + child_ids(s, idx, j + 1)
    } else {
        seq![]
    }
}

/// Ids of the extra trees rooted at the root directories of
/// `root_season` from index `i` on.
pub open spec fn root_ids(s: SeriesView, root_season: Option<u32>, i: int) -> Seq<u64>
    decreases s.extra_dirs.len() - i,
{
    if 0 <= i < s.extra_dirs.len() {
        (if is_root_dir(s, i, root_season) {
            dir_ids(s, i)
        } else {
            seq![]
        }) + root_ids(s, root_season, i + 1)
    } else {
        seq![]
    }
}

/// Ids tagged with the node whose existence their deletion depends on.
pub open spec fn tagged(ids: Seq<u64>, guard: Target) -> Seq<(u64, Target)> {
    ids.map_values(|id: u64| (id, guard))
}

fn collect_dir_ids(series: &ParsedSeries, idx: usize, guard: Target, out: &mut Vec<(u64, Target)>)
    requires
        idx < series@.extra_dirs.len(),
    ensures
        final(out)@ == old(out)@ + tagged(dir_ids(series@, idx as int), guard),
    decreases series@.extra_dirs.len() - idx,
{
    let ghost s = series@;
    let ghost o = out@;
    out.push((series.extra_dirs[idx].id, guard));
    proof {
        assert(s.extra_dirs[idx as int] == series.extra_dirs@[idx as int]@);
    }
    let n = series.extra_dirs.len();
    let mut j: usize = idx + 1;
    while j < n
        invariant
            s == series@,
            n == s.extra_dirs.len(),
            idx < j <= n,
            out@ + tagged(child_ids(s, idx as int, j as int), guard) == o + tagged(dir_ids(s, idx as int), guard),
        decreases n - j,
    {
        let ghost before = out@;
        if series.extra_dirs[j].parent == Some(idx) {
            proof {
                assert(s.extra_dirs[j as int] == series.extra_dirs@[j as int]@);
            }
            collect_dir_ids(series, j, guard, out);
        }
        proof {
            assert(s.extra_dirs[j as int] == series.extra_dirs@[j as int]@);
            let here = if s.extra_dirs[j as int].parent == Some(idx) {
                dir_ids(s, j as int)
            } else {
                seq![]
            };
            assert(child_ids(s, idx as int, j as int) == here + child_ids(s, idx as int, j + 1));
            assert(tagged(here + child_ids(s, idx as int, j + 1), guard) =~= tagged(here, guard) + tagged(
                child_ids(s, idx as int, j + 1),
                guard,
            ));
            assert(out@ =~= before + tagged(here, guard));
            assert(before + tagged(here, guard) + tagged(child_ids(s, idx as int, j + 1), guard) =~= before
                + (tagged(here, guard) + tagged(child_ids(s, idx as int, j + 1), guard)));
        }
        j = j + 1;
    }
    proof {
        assert(child_ids(s, idx as int, n as int) =~= Seq::<u64>::empty());
        assert(tagged(Seq::<u64>::empty(), guard) =~= Seq::<(u64, Target)>::empty());
        assert(out@ + Seq::<(u64, Target)>::empty() =~= out@);
    }
}

/// DFS pre-order of extra-directory ids for deletion (reverse order).
pub fn collect_extra_ids(series: &ParsedSeries, root_season: Option<u32>, guard: Target, out: &mut Vec<(u64, Target)>)
    ensures
        final(out)@ == old(out)@ + tagged(root_ids(series@, root_season, 0), guard),
{
    let ghost s = series@;
    let ghost o = out@;
    let mut i: usize = 0;
    while i < series.extra_dirs.len()
        invariant
            s == series@,
            i <= s.extra_dirs.len(),
            out@ + tagged(root_ids(s, root_season, i as int), guard) == o + tagged(root_ids(s, root_season, 0), guard),
        decreases series.extra_dirs.len() - i,
    {
        let ghost before = out@;
        let d = &series.extra_dirs[i];
        proof {
            assert(s.extra_dirs[i as int] == d@);
        }
        if d.parent.is_none() && d.season == root_season {
            collect_dir_ids(series, i, guard, out);
        }
        proof {
            let here = if is_root_dir(s, i as int, root_season) {
                dir_ids(s, i as int)
            } else {
                seq![]
            };
            assert(root_ids(s, root_season, i as int) == here + root_ids(s, root_season, i + 1));
            assert(tagged(here + root_ids(s, root_season, i + 1), guard) =~= tagged(here, guard) + tagged(
                root_ids(s, root_season, i + 1),
                guard,
            ));
            assert(out@ =~= before + tagged(here, guard));
            assert(before + tagged(here, guard) + tagged(root_ids(s, root_season, i + 1), guard) =~= before
                + (tagged(here, guard) + tagged(root_ids(s, root_season, i + 1), guard)));
        }
        i = i + 1;
    }
    proof {
        assert(root_ids(s, root_season, s.extra_dirs.len() as int) =~= Seq::<u64>::empty());
        assert(tagged(Seq::<u64>::empty(), guard) =~= Seq::<(u64, Target)>::empty());
        assert(out@ + Seq::<(u64, Target)>::empty() =~= out@);
    }
}

/// Season of a place inside a season.
pub open spec fn slot_season(slot: Slot) -> Option<u32> {
    match slot {
        Slot::SeasonEpisode(n) => Some(n),
        Slot::SeasonUnknown(n) => Some(n),
        Slot::SeasonLoose(n) => Some(n),
        _ => None,
    }
}

/// The series has files placed in season `n`.
pub open spec fn has_season_bucket(s: SeriesView, n: u32) -> bool {
    exists|i: int| 0 <= i < s.files.len() && slot_season((#[trigger] s.files[i]).slot) == Some(n)
}

/// Season `n` gets a node: it has files, or extras anchored to it.
pub open spec fn is_season(s: SeriesView, n: u32) -> bool {
    has_season_bucket(s, n) || has_root(s, Some(n))
}

/// The smallest season number at least `lo`.
#[verifier::opaque]
pub open spec fn least_season_from(s: SeriesView, lo: int) -> Option<u32> {
    if exists|n: u32| n >= lo && #[trigger] is_season(s, n) {
        Some(
            choose|n: u32|
                n >= lo && is_season(s, n) && forall|m: u32| m >= lo && #[trigger] is_season(s, m) ==> n <= m,
        )
    } else {
        None
    }
}

/// Name of a season node: `Season N`.
pub open spec fn season_dir_name(n: u32) -> Seq<char> {
    "Season "@ + crate::text::spec_decimal(n as nat)
}

/// A main file moved under `dest`, annotated with `season` and its
/// episode, and registered.
pub open spec fn main_file_plan(plan: Seq<ActionView>, dest: Target, f: ParsedFileView, season: Option<u32>) -> Seq<ActionView> {
    plan.push(ActionView::Move { id: f.id, to: dest }).push(
        ActionView::AnnotateFile { id: f.id, under: dest, note: file_note(season, f.episode) },
    ).push(ActionView::PushDataFile { id: f.id, under: dest })
}

/// Files from index `i` on that sit in `slot`, moved under `dest`; the
/// note carries `season` (`None`: each file's own season).
pub open spec fn move_main_files(
    s: SeriesView,
    slot: Slot,
    dest: Target,
    season: Option<u32>,
    i: int,
    plan: Seq<ActionView>,
) -> Seq<ActionView>
    decreases s.files.len() - i,
{
    if 0 <= i < s.files.len() {
        let f = s.files[i].file;
        let plan1 = if s.files[i].slot == slot {
            main_file_plan(plan, dest, f, if season is Some { season } else { f.season })
        } else {
            plan
        };
        move_main_files(s, slot, dest, season, i + 1, plan1)
    } else {
        plan
    }
}

#[verifier::opaque]
/// The nodes of season `n`: its `Season N` node, its episodes, its
/// `unknown`, and its extras tree (whose directories are then queued for
/// deletion under the `extras` node).
pub open spec fn season_plan(
    s: SeriesView,
    series_key: Target,
    n: u32,
    plan: Seq<ActionView>,
    ids: Seq<(u64, Target)>,
) -> (Seq<ActionView>, Seq<(u64, Target)>) {
    let sk = plan.len() as usize;
    let p0 = plan.push(ActionView::Create { parent: series_key, name: season_dir_name(n) });
    let p1 = if has_season_bucket(s, n) {
        let pe = move_main_files(s, Slot::SeasonEpisode(n), Target::Created(sk), Some(n), 0, p0);
        if has_slot(s, Slot::SeasonUnknown(n)) {
            let uk = pe.len() as usize;
            move_main_files(
                s,
                Slot::SeasonUnknown(n),
                Target::Created(uk),
                Some(n),
                0,
                pe.push(ActionView::Create { parent: Target::Created(sk), name: "unknown"@ }),
            )
        } else {
            pe
        }
    } else {
        p0
    };
    if has_root(s, Some(n)) || has_slot(s, Slot::SeasonLoose(n)) {
        let ek = p1.len() as usize;
        (
            extras_plan(
                s,
                Target::Created(ek),
                Some(n),
                Slot::SeasonLoose(n),
                0,
                p1.push(ActionView::Create { parent: Target::Created(sk), name: "extras"@ }),
            ),
            ids + tagged(root_ids(s, Some(n), 0), Target::Created(ek)),
        )
    } else {
        (p1, ids)
    }
}

/// The seasons from number `lo` on, in increasing order.
pub open spec fn seasons_plan(
    s: SeriesView,
    series_key: Target,
    lo: int,
    plan: Seq<ActionView>,
    ids: Seq<(u64, Target)>,
) -> (Seq<ActionView>, Seq<(u64, Target)>)
    decreases u32::MAX + 1 - lo,
{
    if lo < 0 || lo > u32::MAX {
        (plan, ids)
    } else {
        match least_season_from(s, lo) {
            Some(n) => if n >= lo {
                let (p, i2) = season_plan(s, series_key, n, plan, ids);
                seasons_plan(s, series_key, n + 1, p, i2)
            } else {
                (plan, ids)
            },
            None => (plan, ids),
        }
    }
}

/// Deletions of `ids`, last first, each under its guard.
pub open spec fn deletes_rev(ids: Seq<(u64, Target)>, plan: Seq<ActionView>) -> Seq<ActionView>
    decreases ids.len(),
{
    if ids.len() == 0 {
        plan
    } else {
        deletes_rev(ids.drop_last(), plan.push(ActionView::Delete { id: ids.last().0, under: ids.last().1 }))
    }
}

/// The plan of one series: a virtual series node under the root; a
/// `Season N` node per season with its episodes, `unknown` and extras;
/// the series-level extras; the series' `unknown`; then the deletion of
/// the extra directories and of every raw directory, deepest first.
pub open spec fn series_plan(s: SeriesView, plan: Seq<ActionView>) -> Seq<ActionView> {
    let k = plan.len() as usize;
    let key = Target::Created(k);
    let p0 = plan.push(ActionView::Create { parent: Target::Root, name: s.name });
    let (p1, ids1) = seasons_plan(s, key, 0, p0, seq![]);
    let (p2, ids2) = if has_root(s, None) || has_slot(s, Slot::LooseExtra) {
        let ek = p1.len() as usize;
        (
            extras_plan(
                s,
                Target::Created(ek),
                None,
                Slot::LooseExtra,
                0,
                p1.push(ActionView::Create { parent: key, name: "extras"@ }),
            ),
            ids1 + tagged(root_ids(s, None, 0), Target::Created(ek)),
        )
    } else {
        (p1, ids1)
    };
    let p3 = if has_slot(s, Slot::SeriesUnknown) {
        let uk = p2.len() as usize;
        move_main_files(
            s,
            Slot::SeriesUnknown,
            Target::Created(uk),
            None,
            0,
            p2.push(ActionView::Create { parent: key, name: "unknown"@ }),
        )
    } else {
        p2
    };
    deletes_rev(tagged(s.dirs_to_delete, key), deletes_rev(ids2, p3))
}

pub fn move_main_files_exec(
    series: &ParsedSeries,
    slot: Slot,
    dest: Target,
    season: Option<u32>,
    plan: &mut Vec<Action>,
)
    ensures
        plan_view(final(plan)@) == move_main_files(series@, slot, dest, season, 0, plan_view(old(plan)@)),
{
    let ghost s = series@;
    let mut i: usize = 0;
    while i < series.files.len()
        invariant
            s == series@,
            i <= series.files@.len(),
            move_main_files(s, slot, dest, season, 0, plan_view(old(plan)@)) == move_main_files(
                s,
                slot,
                dest,
                season,
                i as int,
                plan_view(plan@),
            ),
        decreases series.files.len() - i,
    {
        let p = &series.files[i];
        proof {
            assert(s.files[i as int] == p@);
        }
        if p.slot == slot {
            let note_season = if season.is_some() {
                season
            } else {
                p.file.season
            };
            emit(plan, Action::Move { id: p.file.id, to: dest });
            emit(
                plan,
                Action::AnnotateFile {
                    id: p.file.id,
                    under: dest,
                    note: make_file_note(note_season, p.file.episode),
                },
            );
            emit(plan, Action::PushDataFile { id: p.file.id, under: dest });
        }
        i = i + 1;
    }
}

fn has_slot_exec(series: &ParsedSeries, slot: Slot) -> (r: bool)
    ensures
        r == has_slot(series@, slot),
{
    let ghost s = series@;
    let mut i: usize = 0;
    while i < series.files.len()
        invariant
            s == series@,
            i <= series.files@.len(),
            forall|k: int| 0 <= k < i ==> (#[trigger] s.files[k]).slot != slot,
        decreases series.files.len() - i,
    {
        proof {
            assert(s.files[i as int] == series.files@[i as int]@);
        }
        if series.files[i].slot == slot {
            return true;
        }
        i = i + 1;
    }
    false
}

fn has_root_exec(series: &ParsedSeries, root_season: Option<u32>) -> (r: bool)
    ensures
        r == has_root(series@, root_season),
{
    let ghost s = series@;
    let mut i: usize = 0;
    while i < series.extra_dirs.len()
        invariant
            s == series@,
            i <= s.extra_dirs.len(),
            forall|k: int| 0 <= k < i ==> !(#[trigger] is_root_dir(s, k, root_season)),
        decreases series.extra_dirs.len() - i,
    {
        let d = &series.extra_dirs[i];
        proof {
            assert(s.extra_dirs[i as int] == d@);
        }
        if d.parent.is_none() && d.season == root_season {
            proof {
                assert(is_root_dir(s, i as int, root_season));
            }
            return true;
        }
        i = i + 1;
    }
    false
}

fn has_season_bucket_exec(series: &ParsedSeries, n: u32) -> (r: bool)
    ensures
        r == has_season_bucket(series@, n),
{
    let ghost s = series@;
    let mut i: usize = 0;
    while i < series.files.len()
        invariant
            s == series@,
            i <= series.files@.len(),
            forall|k: int| 0 <= k < i ==> slot_season((#[trigger] s.files[k]).slot) != Some(n),
        decreases series.files.len() - i,
    {
        proof {
            assert(s.files[i as int] == series.files@[i as int]@);
        }
        let hit = match series.files[i].slot {
            Slot::SeasonEpisode(m) => m == n,
            Slot::SeasonUnknown(m) => m == n,
            Slot::SeasonLoose(m) => m == n,
            _ => false,
        };
        if hit {
            return true;
        }
        i = i + 1;
    }
    false
}

/// `x`, when present and at least `lo`, is at least `best`.
pub open spec fn covers(best: Option<u32>, x: Option<u32>, lo: int) -> bool {
    match x {
        Some(x) => x < lo || (best is Some && best->0 <= x),
        None => true,
    }
}

fn min_opt(best: Option<u32>, x: u32) -> (r: Option<u32>)
    ensures
        r == Some(match best {
            Some(b) => if b <= x {
                b
            } else {
                x
            },
            None => x,
        }),
{
    match best {
        Some(b) => if b <= x {
            Some(b)
        } else {
            Some(x)
        },
        None => Some(x),
    }
}

/// The smallest season number at least `lo`.
pub fn least_season(series: &ParsedSeries, lo: u64) -> (r: Option<u32>)
    ensures
        r == least_season_from(series@, lo as int),
        r matches Some(n) ==> n >= lo,
{
    reveal(least_season_from);
    let ghost s = series@;
    let mut best: Option<u32> = None;
    let mut i: usize = 0;
    while i < series.files.len()
        invariant
            s == series@,
            i <= series.files@.len(),
            best matches Some(b) ==> b >= lo && is_season(s, b),
            forall|k: int| 0 <= k < i ==> covers(best, slot_season((#[trigger] s.files[k]).slot), lo as int),
        decreases series.files.len() - i,
    {
        proof {
            assert(s.files[i as int] == series.files@[i as int]@);
        }
        let x = match series.files[i].slot {
            Slot::SeasonEpisode(m) => Some(m),
            Slot::SeasonUnknown(m) => Some(m),
            Slot::SeasonLoose(m) => Some(m),
            _ => None,
        };
        if let Some(x) = x {
            if x as u64 >= lo {
                proof {
                    assert(slot_season(s.files[i as int].slot) == Some(x));
                    assert(has_season_bucket(s, x));
                }
                best = min_opt(best, x);
            }
        }
        i = i + 1;
    }
    let mut i: usize = 0;
    while i < series.extra_dirs.len()
        invariant
            s == series@,
            i <= s.extra_dirs.len(),
            best matches Some(b) ==> b >= lo && is_season(s, b),
            forall|k: int| 0 <= k < s.files.len() ==> covers(best, slot_season((#[trigger] s.files[k]).slot), lo as int),
            forall|k: int|
                0 <= k < i ==> ((#[trigger] s.extra_dirs[k]).parent is None ==> covers(best, s.extra_dirs[k].season, lo as int)),
        decreases series.extra_dirs.len() - i,
    {
        let d = &series.extra_dirs[i];
        proof {
            assert(s.extra_dirs[i as int] == d@);
        }
        if d.parent.is_none() {
            if let Some(x) = d.season {
                if x as u64 >= lo {
                    proof {
                        assert(is_root_dir(s, i as int, Some(x)));
                        assert(has_root(s, Some(x)));
                    }
                    best = min_opt(best, x);
                }
            }
        }
        i = i + 1;
    }
    proof {
        let lo_i = lo as int;
        assert forall|m: u32| m >= lo_i && #[trigger] is_season(s, m) implies best matches Some(b) && b <= m by {
            if has_season_bucket(s, m) {
                let k = choose|k: int| 0 <= k < s.files.len() && slot_season((#[trigger] s.files[k]).slot) == Some(m);
                assert(slot_season(s.files[k].slot) == Some(m));
            } else {
                let k = choose|k: int| 0 <= k < s.extra_dirs.len() && #[trigger] is_root_dir(s, k, Some(m));
                assert(s.extra_dirs[k].parent is None);
            }
        }
        match best {
            Some(b) => {
                assert(is_season(s, b));
                let c = choose|n: u32|
                    n >= lo_i && is_season(s, n) && forall|m: u32| m >= lo_i && #[trigger] is_season(s, m) ==> n <= m;
                assert(c <= b);
                assert(b <= c);
            },
            None => {
                assert(!(exists|n: u32| n >= lo_i && #[trigger] is_season(s, n)));
            },
        }
    }
    best
}

/// Name of a season node.
pub fn make_season_dir_name(n: u32) -> (r: String)
    ensures
        r@ == season_dir_name(n),
{
    let mut v = chars_of("Season ");
    let d = crate::text::decimal_chars(n);
    let mut i: usize = 0;
    let ghost v0 = v@;
    while i < d.len()
        invariant
            i <= d.len(),
            v@ == v0 + d@.take(i as int),
        decreases d.len() - i,
    {
        v.push(d[i]);
        i = i + 1;
        proof {
            assert(v@ =~= v0 + d@.take(i as int));
        }
    }
    proof {
        assert(d@.take(d@.len() as int) =~= d@);
    }
    crate::text::string_of(&v)
}

fn emit_deletes_rev(ids: &Vec<(u64, Target)>, plan: &mut Vec<Action>)
    ensures
        plan_view(final(plan)@) == deletes_rev(ids@, plan_view(old(plan)@)),
{
    let mut j: usize = ids.len();
    proof {
        assert(ids@.take(ids@.len() as int) =~= ids@);
    }
    while j > 0
        invariant
            j <= ids@.len(),
            deletes_rev(ids@, plan_view(old(plan)@)) == deletes_rev(ids@.take(j as int), plan_view(plan@)),
        decreases j,
    {
        let (id, under) = ids[j - 1];
        proof {
            let t = ids@.take(j as int);
            assert(t.drop_last() =~= ids@.take(j - 1));
            assert(t.last() == (id, under));
        }
        emit(plan, Action::Delete { id, under });
        j = j - 1;
    }
    proof {
        assert(ids@.take(ids@.len() as int) =~= ids@);
    }
}

fn tag_ids(ids: &Vec<u64>, guard: Target) -> (r: Vec<(u64, Target)>)
    ensures
        r@ == tagged(ids@, guard),
{
    let mut r: Vec<(u64, Target)> = Vec::new();
    let mut i: usize = 0;
    while i < ids.len()
        invariant
            i <= ids@.len(),
            r@ == tagged(ids@.take(i as int), guard),
        decreases ids.len() - i,
    {
        r.push((ids[i], guard));
        i = i + 1;
        proof {
            assert(r@ =~= tagged(ids@.take(i as int), guard));
        }
    }
    proof {
        assert(ids@.take(ids@.len() as int) =~= ids@);
    }
    r
}

fn rebuild_season(
    series: &ParsedSeries,
    series_key: Target,
    n: u32,
    plan: &mut Vec<Action>,
    ids: &mut Vec<(u64, Target)>,
)
    ensures
        (plan_view(final(plan)@), final(ids)@) == season_plan(series@, series_key, n, plan_view(old(plan)@), old(ids)@),
{
    reveal(season_plan);
    let ghost s = series@;
    let sk = plan.len();
    proof {
        assert(plan_view(plan@).len() == plan@.len());
    }
    emit(plan, Action::Create { parent: series_key, name: make_season_dir_name(n) });
    let season_key = Target::Created(sk);
    if has_season_bucket_exec(series, n) {
        move_main_files_exec(series, Slot::SeasonEpisode(n), season_key, Some(n), plan);
        if has_slot_exec(series, Slot::SeasonUnknown(n)) {
            let uk = plan.len();
            proof {
                assert(plan_view(plan@).len() == plan@.len());
            }
            emit(plan, Action::Create { parent: season_key, name: "unknown".to_string() });
            move_main_files_exec(series, Slot::SeasonUnknown(n), Target::Created(uk), Some(n), plan);
        }
    }
    if has_root_exec(series, Some(n)) || has_slot_exec(series, Slot::SeasonLoose(n)) {
        let ek = plan.len();
        proof {
            assert(plan_view(plan@).len() == plan@.len());
        }
        emit(plan, Action::Create { parent: season_key, name: "extras".to_string() });
        rebuild_extras(series, Target::Created(ek), Some(n), Slot::SeasonLoose(n), plan);
        collect_extra_ids(series, Some(n), Target::Created(ek), ids);
    }
    proof {
        reveal_strlit("unknown");
        reveal_strlit("extras");
    }
}

/// The seasons, in increasing order of number.
fn rebuild_seasons(series: &ParsedSeries, series_key: Target, plan: &mut Vec<Action>, ids: &mut Vec<(u64, Target)>)
    ensures
        (plan_view(final(plan)@), final(ids)@) == seasons_plan(series@, series_key, 0, plan_view(old(plan)@), old(ids)@),
{
    let ghost s = series@;
    let ghost p0 = plan_view(plan@);
    let ghost i0 = ids@;
    let mut lo: u64 = 0;
    loop
        invariant
            s == series@,
            lo <= u32::MAX + 1,
            seasons_plan(s, series_key, 0, p0, i0) == seasons_plan(s, series_key, lo as int, plan_view(plan@), ids@),
        ensures
            seasons_plan(s, series_key, 0, p0, i0) == (plan_view(plan@), ids@),
        decreases u32::MAX + 1 - lo,
    {
        if lo > u32::MAX as u64 {
            break;
        }
        match least_season(series, lo) {
            Some(n) => {
                rebuild_season(series, series_key, n, plan, ids);
                lo = n as u64 + 1;
            },
            None => {
                break;
            },
        }
    }
}

/// Rebuild one series.
///
/// 1. Create a virtual series node under the root;
/// 2. create a virtual `Season N` node per season and move files into it,
///    with season members lacking an episode number under a nested `unknown`;
/// 3. rebuild extra trees under each season's `extras`, and the series-level
///    `extras` for anything that could not be anchored;
/// 4. move unplaceable files under a virtual `unknown` node;
/// 5. delete every raw directory node (deepest first).
pub fn rebuild_series(series: &ParsedSeries, plan: &mut Vec<Action>)
    ensures
        plan_view(final(plan)@) == series_plan(series@, plan_view(old(plan)@)),
{
    let ghost s = series@;
    let ghost p_in = plan_view(plan@);
    let k = plan.len();
    proof {
        assert(plan_view(plan@).len() == plan@.len());
    }
    emit(plan, Action::Create { parent: Target::Root, name: series.name.clone() });
    let series_key = Target::Created(k);
    let mut ids: Vec<(u64, Target)> = Vec::new();
    rebuild_seasons(series, series_key, plan, &mut ids);
    let ghost p1 = plan_view(plan@);
    if has_root_exec(series, None) || has_slot_exec(series, Slot::LooseExtra) {
        let ek = plan.len();
        proof {
            assert(plan_view(plan@).len() == plan@.len());
        }
        emit(plan, Action::Create { parent: series_key, name: "extras".to_string() });
        rebuild_extras(series, Target::Created(ek), None, Slot::LooseExtra, plan);
        collect_extra_ids(series, None, Target::Created(ek), &mut ids);
    }
    if has_slot_exec(series, Slot::SeriesUnknown) {
        let uk = plan.len();
        proof {
            assert(plan_view(plan@).len() == plan@.len());
        }
        emit(plan, Action::Create { parent: series_key, name: "unknown".to_string() });
        move_main_files_exec(series, Slot::SeriesUnknown, Target::Created(uk), None, plan);
    }
    // Extra directories are deeper than any regular directory they sit in;
    // delete them first so a cascading delete never hits them twice.
    emit_deletes_rev(&ids, plan);
    let raw = tag_ids(&series.dirs_to_delete, series_key);
    emit_deletes_rev(&raw, plan);
    proof {
        reveal_strlit("unknown");
        reveal_strlit("extras");
    }
}

} // verus!
