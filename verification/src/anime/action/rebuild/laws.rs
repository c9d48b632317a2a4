//! Laws of the rebuild plan.
use vstd::prelude::*;

use crate::anime::action::matcher::info::ExtraKind;
use crate::anime::action::rebuild::model::{ParsedFileView, RawNode, SeriesView, Slot};
use crate::anime::action::rebuild::plan::{action_ok, plan_wf, target_ok, ActionView, Target};
use crate::anime::action::matcher::extra::spec_extra_bucket_name;
use crate::anime::action::rebuild::model::PlacedView;
use crate::anime::action::rebuild::tree::{
    bucket_dirs, deletes_rev, dir_buckets, dir_children, extra_dir_plan, extras_plan,
    has_kind_file, has_root_of_kind, is_root_dir, is_season, kind_of_rank, least_season_from, main_file_plan,
    move_extra_file_plan, move_kind_files, move_main_files, placed_kind, season_dir_name,
    season_plan, seasons_plan, series_plan, slot_season, KIND_COUNT,
};
use crate::anime::action::rebuild::{series_list_plan, spec_rebuild_plan, top_moves, top_plan};
use crate::anime::action::rebuild::walk::{extras_tagged, is_extra_slot, series_wf, spec_merge_series};
use crate::anime::action::rebuild::series_roots;

verus! {

/// `q` extends `p`: every action of `p` stays, in place.
pub open spec fn grows(p: Seq<ActionView>, q: Seq<ActionView>) -> bool {
    p.len() <= q.len() && forall|k: int| 0 <= k < p.len() ==> q[k] == #[trigger] p[k]
}

/// The action at `j`, when it is a `Move`, is followed within two actions
/// by the registration of the same node under the same target.
pub open spec fn pushed_at(q: Seq<ActionView>, j: int) -> bool {
    match q[j] {
        ActionView::Move { id, to } => (j + 1 < q.len() && q[j + 1] == ActionView::PushDataFile {
            id,
            under: to,
        }) || (j + 2 < q.len() && q[j + 2] == ActionView::PushDataFile { id, under: to }),
        _ => true,
    }
}

/// Every `Move` of `q` from index `lo` on is followed by its registration.
pub open spec fn pushes(lo: int, q: Seq<ActionView>) -> bool {
    forall|j: int| lo <= j < q.len() ==> #[trigger] pushed_at(q, j)
}

proof fn lemma_grows_trans(p: Seq<ActionView>, q: Seq<ActionView>, r: Seq<ActionView>)
    ensures
        grows(p, q) && grows(q, r) ==> grows(p, r),
        grows(p, q) && grows(q, r) && pushes(p.len() as int, q) && pushes(q.len() as int, r) ==> pushes(
            p.len() as int,
            r,
        ),
{
    if grows(p, q) && grows(q, r) {
        assert forall|k: int| 0 <= k < p.len() implies r[k] == #[trigger] p[k] by {
            assert(q[k] == p[k]);
        }
        if pushes(p.len() as int, q) && pushes(q.len() as int, r) {
            assert forall|j: int| p.len() <= j < r.len() implies #[trigger] pushed_at(r, j) by {
                if j < q.len() {
                    assert(pushed_at(q, j));
                    assert(r[j] == q[j]);
                    if j + 1 < q.len() {
                        assert(r[j + 1] == q[j + 1]);
                    }
                    if j + 2 < q.len() {
                        assert(r[j + 2] == q[j + 2]);
                    }
                } else {
                    assert(pushed_at(r, j));
                }
            }
        }
    }
}

proof fn lemma_target_grows(p: Seq<ActionView>, q: Seq<ActionView>, t: Target)
    ensures
        grows(p, q) && target_ok(p, p.len() as int, t) ==> target_ok(q, q.len() as int, t),
{
    if grows(p, q) && target_ok(p, p.len() as int, t) {
        if let Target::Created(k) = t {
            assert(q[k as int] == p[k as int]);
        }
    }
}

/// Every id of `ids` is guarded by a node that exists in `plan`.
pub open spec fn ids_ok(plan: Seq<ActionView>, ids: Seq<(u64, Target)>) -> bool {
    forall|k: int| 0 <= k < ids.len() ==> target_ok(plan, plan.len() as int, (#[trigger] ids[k]).1)
}

proof fn lemma_ids_grow(p: Seq<ActionView>, q: Seq<ActionView>, ids: Seq<(u64, Target)>)
    ensures
        grows(p, q) && ids_ok(p, ids) ==> ids_ok(q, ids),
{
    if grows(p, q) && ids_ok(p, ids) {
        assert forall|k: int| 0 <= k < ids.len() implies target_ok(q, q.len() as int, (#[trigger] ids[k]).1) by {
            lemma_target_grows(p, q, ids[k].1);
        }
    }
}

proof fn lemma_action_grows(p: Seq<ActionView>, q: Seq<ActionView>, j: int, a: ActionView)
    requires
        grows(p, q),
        action_ok(p, j, a),
        j <= p.len(),
    ensures
        action_ok(q, j, a),
{
    match a {
        ActionView::Create { parent, .. } => {
            if let Target::Created(k) = parent {
                assert(q[k as int] == p[k as int]);
            }
        },
        ActionView::Move { to, .. } => {
            if let Target::Created(k) = to {
                assert(q[k as int] == p[k as int]);
            }
        },
        ActionView::AnnotateFile { under, .. } => {
            if let Target::Created(k) = under {
                assert(q[k as int] == p[k as int]);
            }
        },
        ActionView::AnnotateNode { node, .. } => {
            assert(q[node as int] == p[node as int]);
        },
        ActionView::PushDataFile { under, .. } => {
            if let Target::Created(k) = under {
                assert(q[k as int] == p[k as int]);
            }
        },
        ActionView::Delete { under, .. } => {
            if let Target::Created(k) = under {
                assert(q[k as int] == p[k as int]);
            }
        },
    }
}

proof fn lemma_push(p: Seq<ActionView>, a: ActionView)
    ensures
        grows(p, p.push(a)),
        plan_wf(p) && action_ok(p, p.len() as int, a) ==> plan_wf(p.push(a)),
        !(a is Move) ==> pushes(p.len() as int, p.push(a)),
{
    let q = p.push(a);
    assert forall|k: int| 0 <= k < p.len() implies q[k] == #[trigger] p[k] by {}
    if !(a is Move) {
        assert forall|j: int| p.len() <= j < q.len() implies #[trigger] pushed_at(q, j) by {
            assert(q[j] == a);
        }
    }
    if plan_wf(p) && action_ok(p, p.len() as int, a) {
        assert forall|j: int| 0 <= j < q.len() implies action_ok(q, j, #[trigger] q[j]) by {
            if j < p.len() {
                assert(q[j] == p[j]);
                assert(action_ok(p, j, p[j]));
                lemma_action_grows(p, q, j, p[j]);
            } else {
                assert(q[j] == a);
                lemma_action_grows(p, q, j, a);
            }
        }
    }
}

/// A `Create` pushed on a plan: the new node is a valid target.
proof fn lemma_push_create(p: Seq<ActionView>, parent: Target, name: Seq<char>)
    ensures
        grows(p, p.push(ActionView::Create { parent, name })),
        pushes(p.len() as int, p.push(ActionView::Create { parent, name })),
        plan_wf(p) && target_ok(p, p.len() as int, parent) ==> plan_wf(
            p.push(ActionView::Create { parent, name }),
        ),
        p.len() < usize::MAX ==> target_ok(
            p.push(ActionView::Create { parent, name }),
            (p.len() + 1) as int,
            Target::Created(p.len() as usize),
        ),
{
    lemma_push(p, ActionView::Create { parent, name });
}

/// `q` extends `plan`, registers every node it moves, and is well formed
/// when `plan` is, `t` exists in `plan`, and `q` fits in memory.
pub open spec fn keeps(plan: Seq<ActionView>, t: Target, q: Seq<ActionView>) -> bool {
    &&& grows(plan, q)
    &&& pushes(plan.len() as int, q)
    &&& plan_wf(plan) && target_ok(plan, plan.len() as int, t) && q.len() <= usize::MAX
        ==> plan_wf(q)
}

proof fn lemma_move_extra_file(plan: Seq<ActionView>, parent: Target, f: ParsedFileView)
    ensures
        keeps(plan, parent, move_extra_file_plan(plan, parent, f)),
{
    let p1 = plan.push(ActionView::Move { id: f.id, to: parent });
    lemma_push(plan, ActionView::Move { id: f.id, to: parent });
    lemma_target_grows(plan, p1, parent);
    let p2 = match f.extra {
        Some(e) => p1.push(
            ActionView::AnnotateFile {
                id: f.id,
                under: parent,
                note: crate::anime::action::rebuild::tree::extra_note(f, e),
            },
        ),
        None => p1,
    };
    if let Some(e) = f.extra {
        lemma_push(
            p1,
            ActionView::AnnotateFile {
                id: f.id,
                under: parent,
                note: crate::anime::action::rebuild::tree::extra_note(f, e),
            },
        );
        lemma_grows_trans(plan, p1, p2);
    }
    lemma_target_grows(plan, p2, parent);
    lemma_push(p2, ActionView::PushDataFile { id: f.id, under: parent });
    let p3 = p2.push(ActionView::PushDataFile { id: f.id, under: parent });
    lemma_grows_trans(plan, p2, p3);
    assert forall|j: int| plan.len() <= j < p3.len() implies #[trigger] pushed_at(p3, j) by {
        if j == plan.len() {
            assert(p3[j] == ActionView::Move { id: f.id, to: parent });
        } else if j + 1 == p3.len() {
            assert(p3[j] == ActionView::PushDataFile { id: f.id, under: parent });
        } else {
            assert(p3[j] == p2[j]);
        }
    }
}

proof fn lemma_move_kind_files(
    s: SeriesView,
    slot: Slot,
    kind: ExtraKind,
    dest: Target,
    i: int,
    plan: Seq<ActionView>,
)
    ensures
        keeps(plan, dest, move_kind_files(s, slot, kind, dest, i, plan)),
    decreases s.files.len() - i,
{
    if 0 <= i < s.files.len() {
        let p = s.files[i];
        let plan1 = if p.slot == slot && crate::anime::action::rebuild::tree::placed_kind(p) == Some(kind) {
            move_extra_file_plan(plan, dest, p.file)
        } else {
            plan
        };
        if p.slot == slot && crate::anime::action::rebuild::tree::placed_kind(p) == Some(kind) {
            lemma_move_extra_file(plan, dest, p.file);
        }
        lemma_target_grows(plan, plan1, dest);
        lemma_move_kind_files(s, slot, kind, dest, i + 1, plan1);
        lemma_grows_trans(plan, plan1, move_kind_files(s, slot, kind, dest, i + 1, plan1));
    }
}

proof fn lemma_dir_buckets(s: SeriesView, idx: int, key: Target, r: int, plan: Seq<ActionView>)
    ensures
        keeps(plan, key, dir_buckets(s, idx, key, r, plan)),
    decreases KIND_COUNT - r,
{
    if 0 <= r < KIND_COUNT {
        let k = crate::anime::action::rebuild::tree::kind_of_rank(r);
        let slot = Slot::ExtraDirFile(idx as usize);
        if k != s.extra_dirs[idx].kind && crate::anime::action::rebuild::tree::has_kind_file(s, slot, k) {
            let b = plan.len();
            let name = crate::anime::action::matcher::extra::spec_extra_bucket_name(k);
            let pa = plan.push(ActionView::Create { parent: key, name });
            lemma_push_create(plan, key, name);
            let an = ActionView::AnnotateNode {
                node: b as usize,
                note: crate::anime::action::rebuild::plan::kind_note(k),
            };
            lemma_push(pa, an);
            let pb = pa.push(an);
            lemma_grows_trans(plan, pa, pb);
            lemma_target_grows(pa, pb, Target::Created(b as usize));
            lemma_move_kind_files(s, slot, k, Target::Created(b as usize), 0, pb);
            let plan1 = move_kind_files(s, slot, k, Target::Created(b as usize), 0, pb);
            lemma_grows_trans(plan, pb, plan1);
            lemma_target_grows(plan, plan1, key);
            lemma_dir_buckets(s, idx, key, r + 1, plan1);
            lemma_grows_trans(plan, plan1, dir_buckets(s, idx, key, r + 1, plan1));
        } else {
            lemma_dir_buckets(s, idx, key, r + 1, plan);
        }
    }
}

proof fn lemma_extra_dir_plan(s: SeriesView, key: Target, idx: int, plan: Seq<ActionView>)
    ensures
        keeps(plan, key, extra_dir_plan(s, key, idx, plan)),
    decreases s.extra_dirs.len() - idx, s.extra_dirs.len() - idx + 1,
{
    if 0 <= idx < s.extra_dirs.len() {
        let dir = s.extra_dirs[idx];
        lemma_move_kind_files(s, Slot::ExtraDirFile(idx as usize), dir.kind, key, 0, plan);
        let p1 = move_kind_files(s, Slot::ExtraDirFile(idx as usize), dir.kind, key, 0, plan);
        lemma_target_grows(plan, p1, key);
        lemma_dir_buckets(s, idx, key, 0, p1);
        let p2 = dir_buckets(s, idx, key, 0, p1);
        lemma_grows_trans(plan, p1, p2);
        lemma_target_grows(plan, p2, key);
        lemma_dir_children(s, idx, key, idx + 1, p2);
        lemma_grows_trans(plan, p2, dir_children(s, idx, key, idx + 1, p2));
    }
}

proof fn lemma_dir_children(s: SeriesView, idx: int, key: Target, j: int, plan: Seq<ActionView>)
    ensures
        keeps(plan, key, dir_children(s, idx, key, j, plan)),
    decreases s.extra_dirs.len() - idx, s.extra_dirs.len() - j,
{
    if 0 <= idx < j < s.extra_dirs.len() {
        let child = s.extra_dirs[j];
        if child.parent == Some(idx as usize) {
            let c = plan.len();
            let pa = plan.push(ActionView::Create { parent: key, name: child.name });
            lemma_push_create(plan, key, child.name);
            let an = ActionView::AnnotateNode {
                node: c as usize,
                note: crate::anime::action::rebuild::plan::kind_note(child.kind),
            };
            lemma_push(pa, an);
            let pb = pa.push(an);
            lemma_grows_trans(plan, pa, pb);
            lemma_target_grows(pa, pb, Target::Created(c as usize));
            lemma_extra_dir_plan(s, Target::Created(c as usize), j, pb);
            let plan1 = extra_dir_plan(s, Target::Created(c as usize), j, pb);
            lemma_grows_trans(plan, pb, plan1);
            lemma_target_grows(plan, plan1, key);
            lemma_dir_children(s, idx, key, j + 1, plan1);
            lemma_grows_trans(plan, plan1, dir_children(s, idx, key, j + 1, plan1));
        } else {
            lemma_dir_children(s, idx, key, j + 1, plan);
        }
    }
}

proof fn lemma_bucket_dirs(
    s: SeriesView,
    root_season: Option<u32>,
    kind: ExtraKind,
    b: usize,
    i: int,
    plan: Seq<ActionView>,
)
    ensures
        keeps(plan, Target::Created(b), bucket_dirs(s, root_season, kind, b, i, plan)),
    decreases s.extra_dirs.len() - i,
{
    if 0 <= i < s.extra_dirs.len() {
        let d = s.extra_dirs[i];
        let plan1 = if crate::anime::action::rebuild::tree::is_root_dir(s, i, root_season) && d.kind == kind {
            if crate::anime::action::rebuild::tree::spec_same_bucket_name(
                d.name,
                crate::anime::action::matcher::extra::spec_extra_bucket_name(kind),
            ) {
                lemma_extra_dir_plan(s, Target::Created(b), i, plan);
                extra_dir_plan(s, Target::Created(b), i, plan)
            } else {
                let c = plan.len();
                let pa = plan.push(ActionView::Create { parent: Target::Created(b), name: d.name });
                lemma_push_create(plan, Target::Created(b), d.name);
                let an = ActionView::AnnotateNode {
                    node: c as usize,
                    note: crate::anime::action::rebuild::plan::kind_note(d.kind),
                };
                lemma_push(pa, an);
                let pb = pa.push(an);
                lemma_grows_trans(plan, pa, pb);
                lemma_target_grows(pa, pb, Target::Created(c as usize));
                lemma_extra_dir_plan(s, Target::Created(c as usize), i, pb);
                lemma_grows_trans(plan, pb, extra_dir_plan(s, Target::Created(c as usize), i, pb));
                extra_dir_plan(s, Target::Created(c as usize), i, pb)
            }
        } else {
            plan
        };
        lemma_target_grows(plan, plan1, Target::Created(b));
        lemma_bucket_dirs(s, root_season, kind, b, i + 1, plan1);
        lemma_grows_trans(plan, plan1, bucket_dirs(s, root_season, kind, b, i + 1, plan1));
    }
}

proof fn lemma_extras_plan(
    s: SeriesView,
    parent: Target,
    root_season: Option<u32>,
    loose_slot: Slot,
    r: int,
    plan: Seq<ActionView>,
)
    ensures
        keeps(plan, parent, extras_plan(s, parent, root_season, loose_slot, r, plan)),
    decreases KIND_COUNT - r,
{
    if 0 <= r < KIND_COUNT {
        let k = crate::anime::action::rebuild::tree::kind_of_rank(r);
        if crate::anime::action::rebuild::tree::has_root_of_kind(s, root_season, k)
            || crate::anime::action::rebuild::tree::has_kind_file(s, loose_slot, k) {
            let b = plan.len();
            let name = crate::anime::action::matcher::extra::spec_extra_bucket_name(k);
            let pa = plan.push(ActionView::Create { parent, name });
            lemma_push_create(plan, parent, name);
            let an = ActionView::AnnotateNode {
                node: b as usize,
                note: crate::anime::action::rebuild::plan::kind_note(k),
            };
            lemma_push(pa, an);
            let pb = pa.push(an);
            lemma_grows_trans(plan, pa, pb);
            lemma_target_grows(pa, pb, Target::Created(b as usize));
            lemma_move_kind_files(s, loose_slot, k, Target::Created(b as usize), 0, pb);
            let p2 = move_kind_files(s, loose_slot, k, Target::Created(b as usize), 0, pb);
            lemma_grows_trans(plan, pb, p2);
            lemma_target_grows(pb, p2, Target::Created(b as usize));
            lemma_bucket_dirs(s, root_season, k, b as usize, 0, p2);
            let plan1 = bucket_dirs(s, root_season, k, b as usize, 0, p2);
            lemma_grows_trans(plan, p2, plan1);
            lemma_target_grows(plan, plan1, parent);
            lemma_extras_plan(s, parent, root_season, loose_slot, r + 1, plan1);
            lemma_grows_trans(plan, plan1, extras_plan(s, parent, root_season, loose_slot, r + 1, plan1));
        } else {
            lemma_extras_plan(s, parent, root_season, loose_slot, r + 1, plan);
        }
    }
}

proof fn lemma_move_main_files(
    s: SeriesView,
    slot: Slot,
    dest: Target,
    season: Option<u32>,
    i: int,
    plan: Seq<ActionView>,
)
    ensures
        keeps(plan, dest, move_main_files(s, slot, dest, season, i, plan)),
    decreases s.files.len() - i,
{
    if 0 <= i < s.files.len() {
        let f = s.files[i].file;
        if s.files[i].slot == slot {
            let sea = if season is Some {
                season
            } else {
                f.season
            };
            let a1 = ActionView::Move { id: f.id, to: dest };
            let p1 = plan.push(a1);
            lemma_push(plan, a1);
            lemma_target_grows(plan, p1, dest);
            let a2 = ActionView::AnnotateFile {
                id: f.id,
                under: dest,
                note: crate::anime::action::rebuild::plan::file_note(sea, f.episode),
            };
            let p2 = p1.push(a2);
            lemma_push(p1, a2);
            lemma_grows_trans(plan, p1, p2);
            lemma_target_grows(plan, p2, dest);
            let a3 = ActionView::PushDataFile { id: f.id, under: dest };
            let p3 = p2.push(a3);
            lemma_push(p2, a3);
            lemma_grows_trans(plan, p2, p3);
            assert(p3 == main_file_plan(plan, dest, f, sea));
            assert forall|j: int| plan.len() <= j < p3.len() implies #[trigger] pushed_at(p3, j) by {
                if j == plan.len() {
                    assert(p3[j] == a1);
                } else if j == plan.len() + 1 {
                    assert(p3[j] == a2);
                } else {
                    assert(p3[j] == a3);
                }
            }
            lemma_target_grows(plan, p3, dest);
            lemma_move_main_files(s, slot, dest, season, i + 1, p3);
            lemma_grows_trans(plan, p3, move_main_files(s, slot, dest, season, i + 1, p3));
        } else {
            lemma_move_main_files(s, slot, dest, season, i + 1, plan);
        }
    }
}

proof fn lemma_season_plan(
    s: SeriesView,
    series_key: Target,
    n: u32,
    plan: Seq<ActionView>,
    ids: Seq<(u64, Target)>,
)
    ensures
        keeps(plan, series_key, season_plan(s, series_key, n, plan, ids).0),
        ids_ok(plan, ids) && season_plan(s, series_key, n, plan, ids).0.len() <= usize::MAX
            ==> ids_ok(season_plan(s, series_key, n, plan, ids).0, season_plan(s, series_key, n, plan, ids).1),
{
    reveal(season_plan);
    let sk = plan.len() as usize;
    let name = crate::anime::action::rebuild::tree::season_dir_name(n);
    let p0 = plan.push(ActionView::Create { parent: series_key, name });
    lemma_push_create(plan, series_key, name);
    let p1 = if crate::anime::action::rebuild::tree::has_season_bucket(s, n) {
        lemma_move_main_files(s, Slot::SeasonEpisode(n), Target::Created(sk), Some(n), 0, p0);
        let pe = move_main_files(s, Slot::SeasonEpisode(n), Target::Created(sk), Some(n), 0, p0);
        lemma_grows_trans(plan, p0, pe);
        if crate::anime::action::rebuild::tree::has_slot(s, Slot::SeasonUnknown(n)) {
            let uk = pe.len() as usize;
            lemma_target_grows(p0, pe, Target::Created(sk));
            lemma_push_create(pe, Target::Created(sk), "unknown"@);
            let pu = pe.push(ActionView::Create { parent: Target::Created(sk), name: "unknown"@ });
            lemma_grows_trans(plan, pe, pu);
            lemma_grows_trans(p0, pe, pu);
            lemma_move_main_files(s, Slot::SeasonUnknown(n), Target::Created(uk), Some(n), 0, pu);
            let pm = move_main_files(s, Slot::SeasonUnknown(n), Target::Created(uk), Some(n), 0, pu);
            lemma_grows_trans(plan, pu, pm);
            lemma_grows_trans(p0, pu, pm);
            lemma_grows_trans(pe, pu, pm);
            pm
        } else {
            pe
        }
    } else {
        p0
    };
    lemma_target_grows(p0, p1, Target::Created(sk));
    lemma_ids_grow(plan, p1, ids);
    if crate::anime::action::rebuild::tree::has_root(s, Some(n))
        || crate::anime::action::rebuild::tree::has_slot(s, Slot::SeasonLoose(n)) {
        let ek = p1.len() as usize;
        lemma_push_create(p1, Target::Created(sk), "extras"@);
        let pe = p1.push(ActionView::Create { parent: Target::Created(sk), name: "extras"@ });
        lemma_grows_trans(plan, p1, pe);
        lemma_grows_trans(p0, p1, pe);
        lemma_extras_plan(s, Target::Created(ek), Some(n), Slot::SeasonLoose(n), 0, pe);
        let pf = extras_plan(s, Target::Created(ek), Some(n), Slot::SeasonLoose(n), 0, pe);
        lemma_grows_trans(plan, pe, pf);
        lemma_grows_trans(p0, pe, pf);
        lemma_grows_trans(p1, pe, pf);
        let new_ids = ids + crate::anime::action::rebuild::tree::tagged(
            crate::anime::action::rebuild::tree::root_ids(s, Some(n), 0),
            Target::Created(ek),
        );
        lemma_target_grows(pe, pf, Target::Created(ek));
        lemma_target_grows(p1, pe, Target::Created(sk));
        lemma_ids_grow(plan, pf, ids);
        if ids_ok(plan, ids) && pf.len() <= usize::MAX {
            assert forall|k: int| 0 <= k < new_ids.len() implies target_ok(
                pf,
                pf.len() as int,
                (#[trigger] new_ids[k]).1,
            ) by {
                if k < ids.len() {
                    assert(new_ids[k] == ids[k]);
                }
            }
        }
    }
}

proof fn lemma_seasons_plan(
    s: SeriesView,
    series_key: Target,
    lo: int,
    plan: Seq<ActionView>,
    ids: Seq<(u64, Target)>,
)
    ensures
        keeps(plan, series_key, seasons_plan(s, series_key, lo, plan, ids).0),
        ids_ok(plan, ids) && seasons_plan(s, series_key, lo, plan, ids).0.len() <= usize::MAX
            ==> ids_ok(seasons_plan(s, series_key, lo, plan, ids).0, seasons_plan(s, series_key, lo, plan, ids).1),
    decreases u32::MAX + 1 - lo,
{
    if !(lo < 0 || lo > u32::MAX) {
        if let Some(n) = least_season_from(s, lo) {
            if n >= lo {
                lemma_season_plan(s, series_key, n, plan, ids);
                let (p, i2) = season_plan(s, series_key, n, plan, ids);
                lemma_target_grows(plan, p, series_key);
                lemma_seasons_plan(s, series_key, n + 1, p, i2);
                lemma_grows_trans(plan, p, seasons_plan(s, series_key, n + 1, p, i2).0);
            }
        }
    }
}

proof fn lemma_deletes_rev(ids: Seq<(u64, Target)>, plan: Seq<ActionView>)
    ensures
        grows(plan, deletes_rev(ids, plan)),
        pushes(plan.len() as int, deletes_rev(ids, plan)),
        plan_wf(plan) && ids_ok(plan, ids) ==> plan_wf(deletes_rev(ids, plan)),
    decreases ids.len(),
{
    if ids.len() > 0 {
        let a = ActionView::Delete { id: ids.last().0, under: ids.last().1 };
        lemma_push(plan, a);
        let p = plan.push(a);
        let rest = ids.drop_last();
        lemma_ids_grow(plan, p, ids);
        if ids_ok(p, ids) {
            assert forall|k: int| 0 <= k < rest.len() implies target_ok(p, p.len() as int, (#[trigger] rest[k]).1) by {
                assert(rest[k] == ids[k]);
            }
        }
        if ids_ok(plan, ids) {
            assert(target_ok(plan, plan.len() as int, ids[ids.len() - 1].1));
        }
        lemma_deletes_rev(rest, p);
        lemma_grows_trans(plan, p, deletes_rev(rest, p));
    }
}

proof fn lemma_series_plan(s: SeriesView, plan: Seq<ActionView>)
    ensures
        keeps(plan, Target::Root, series_plan(s, plan)),
        grows(
            seasons_plan(
                s,
                Target::Created(plan.len() as usize),
                0,
                plan.push(ActionView::Create { parent: Target::Root, name: s.name }),
                seq![],
            ).0,
            series_plan(s, plan),
        ),
{
    let k = plan.len() as usize;
    let key = Target::Created(k);
    let p0 = plan.push(ActionView::Create { parent: Target::Root, name: s.name });
    lemma_push_create(plan, Target::Root, s.name);
    lemma_seasons_plan(s, key, 0, p0, seq![]);
    let (p1, ids1) = seasons_plan(s, key, 0, p0, seq![]);
    lemma_grows_trans(plan, p0, p1);
    lemma_target_grows(p0, p1, key);
    assert(ids_ok(p0, seq![]));
    let (p2, ids2) = if crate::anime::action::rebuild::tree::has_root(s, None)
        || crate::anime::action::rebuild::tree::has_slot(s, Slot::LooseExtra) {
        let ek = p1.len() as usize;
        lemma_push_create(p1, key, "extras"@);
        let pe = p1.push(ActionView::Create { parent: key, name: "extras"@ });
        lemma_extras_plan(s, Target::Created(ek), None, Slot::LooseExtra, 0, pe);
        let pf = extras_plan(s, Target::Created(ek), None, Slot::LooseExtra, 0, pe);
        lemma_grows_trans(p1, pe, pf);
        lemma_grows_trans(p0, p1, pf);
        lemma_grows_trans(plan, p1, pf);
        let new_ids = ids1 + crate::anime::action::rebuild::tree::tagged(
            crate::anime::action::rebuild::tree::root_ids(s, None, 0),
            Target::Created(ek),
        );
        lemma_target_grows(pe, pf, Target::Created(ek));
        lemma_ids_grow(p1, pf, ids1);
        if pf.len() <= usize::MAX && ids_ok(p1, ids1) {
            assert forall|j: int| 0 <= j < new_ids.len() implies target_ok(
                pf,
                pf.len() as int,
                (#[trigger] new_ids[j]).1,
            ) by {
                if j < ids1.len() {
                    assert(new_ids[j] == ids1[j]);
                }
            }
        }
        (pf, new_ids)
    } else {
        (p1, ids1)
    };
    lemma_grows_trans(plan, p1, p2);
    lemma_grows_trans(p0, p1, p2);
    assert(grows(p1, p1));
    lemma_target_grows(p0, p2, key);
    let p3 = if crate::anime::action::rebuild::tree::has_slot(s, Slot::SeriesUnknown) {
        let uk = p2.len() as usize;
        lemma_push_create(p2, key, "unknown"@);
        let pu = p2.push(ActionView::Create { parent: key, name: "unknown"@ });
        lemma_move_main_files(s, Slot::SeriesUnknown, Target::Created(uk), None, 0, pu);
        let pm = move_main_files(s, Slot::SeriesUnknown, Target::Created(uk), None, 0, pu);
        lemma_grows_trans(p2, pu, pm);
        pm
    } else {
        p2
    };
    lemma_grows_trans(plan, p2, p3);
    lemma_grows_trans(p0, p2, p3);
    lemma_grows_trans(p1, p2, p3);
    lemma_ids_grow(p2, p3, ids2);
    lemma_deletes_rev(ids2, p3);
    let p4 = deletes_rev(ids2, p3);
    lemma_grows_trans(plan, p3, p4);
    lemma_grows_trans(p0, p3, p4);
    lemma_grows_trans(p1, p3, p4);
    lemma_target_grows(p0, p4, key);
    let raw = crate::anime::action::rebuild::tree::tagged(s.dirs_to_delete, key);
    if target_ok(p4, p4.len() as int, key) {
        assert forall|j: int| 0 <= j < raw.len() implies target_ok(p4, p4.len() as int, (#[trigger] raw[j]).1) by {}
    }
    lemma_deletes_rev(raw, p4);
    lemma_grows_trans(plan, p4, deletes_rev(raw, p4));
    lemma_grows_trans(p0, p4, deletes_rev(raw, p4));
    lemma_grows_trans(p1, p4, deletes_rev(raw, p4));
}

proof fn lemma_series_list_plan(list: Seq<SeriesView>, plan: Seq<ActionView>)
    ensures
        keeps(plan, Target::Root, series_list_plan(list, plan)),
    decreases list.len(),
{
    if list.len() > 0 {
        lemma_series_list_plan(list.drop_last(), plan);
        let p = series_list_plan(list.drop_last(), plan);
        lemma_series_plan(list.last(), p);
        lemma_grows_trans(plan, p, series_plan(list.last(), p));
    }
}

/// Law: the rebuild plan only ever works under nodes that exist when it
/// runs: the root, or a node made by an earlier `Create` of the same plan.
/// Stated of every plan that fits in memory, as every plan that
/// `rebuild_plan` returns does.
pub proof fn lemma_rebuild_plan_well_formed(roots: Seq<RawNode>)
    requires
        spec_rebuild_plan(roots).len() <= usize::MAX,
    ensures
        plan_wf(spec_rebuild_plan(roots)),
{
    let tops = crate::anime::action::rebuild::top_file_ids(roots);
    let empty: Seq<ActionView> = seq![];
    assert(plan_wf(empty));
    let p0 = top_plan(tops);
    lemma_top_moves(tops);
    if tops.len() > 0 {
        assert forall|j: int| 0 <= j < p0.len() implies action_ok(p0, j, #[trigger] p0[j]) by {
            assert(p0[0] == ActionView::Create { parent: Target::Root, name: "unknown"@ });
            if j > 0 {
                let k = (j - 1) / 2;
                assert(0 <= k < tops.len());
                assert(tops[k] == tops[k]);
                assert(p0[j] == top_moves(tops)[j - 1]);
                if (j - 1) % 2 == 0 {
                    assert(j - 1 == 2 * k);
                    assert(p0[j] == ActionView::Move { id: tops[k], to: Target::Created(0) });
                } else {
                    assert(j - 1 == 2 * k + 1);
                    assert(p0[j] == ActionView::PushDataFile { id: tops[k], under: Target::Created(0) });
                }
                assert(target_ok(p0, j, Target::Created(0)));
            }
        }
    }
    let merged = spec_merge_series(series_roots(roots));
    lemma_series_list_plan(merged, p0);
    let p1 = series_list_plan(merged, p0);
    let orphans = crate::anime::action::rebuild::orphan_ids(roots);
    let all = spec_rebuild_plan(roots);
    assert(all.len() == p1.len() + orphans.len());
    assert(plan_wf(p1));
    assert forall|k: int| 0 <= k < p1.len() implies all[k] == #[trigger] p1[k] by {}
    assert forall|j: int| 0 <= j < all.len() implies action_ok(all, j, #[trigger] all[j]) by {
        if j < p1.len() {
            assert(all[j] == p1[j]);
            assert(action_ok(p1, j, p1[j]));
            lemma_action_grows(p1, all, j, p1[j]);
        } else {
            assert(all[j] == ActionView::Delete { id: orphans[j - p1.len()], under: Target::Root });
        }
    }
}

/// Law: every node that the plan moves is registered in the path mapping
/// right after, under the same target, so that the registration is done
/// or skipped together with the move.
pub proof fn lemma_rebuild_plan_registers_moves(roots: Seq<RawNode>)
    ensures
        forall|j: int|
            0 <= j < spec_rebuild_plan(roots).len() ==> #[trigger] pushed_at(spec_rebuild_plan(roots), j),
{
    let tops = crate::anime::action::rebuild::top_file_ids(roots);
    let p0 = top_plan(tops);
    lemma_top_moves(tops);
    let merged = spec_merge_series(series_roots(roots));
    lemma_series_list_plan(merged, p0);
    let p1 = series_list_plan(merged, p0);
    let orphans = crate::anime::action::rebuild::orphan_ids(roots);
    let all = spec_rebuild_plan(roots);
    assert(all.len() == p1.len() + orphans.len());
    assert forall|j: int| 0 <= j < all.len() implies #[trigger] pushed_at(all, j) by {
        if j < p0.len() {
            assert(p1[j] == p0[j]);
            assert(all[j] == p1[j]);
            if j > 0 {
                let k = (j - 1) / 2;
                assert(0 <= k < tops.len());
                assert(tops[k] == tops[k]);
                assert(p0[j] == top_moves(tops)[j - 1]);
                if (j - 1) % 2 == 0 {
                    assert(j - 1 == 2 * k);
                    assert(p0[j] == ActionView::Move { id: tops[k], to: Target::Created(0) });
                    assert(p0[j + 1] == top_moves(tops)[j]);
                    assert(p0[j + 1] == ActionView::PushDataFile { id: tops[k], under: Target::Created(0) });
                    assert(p1[j + 1] == p0[j + 1]);
                    assert(all[j + 1] == p1[j + 1]);
                } else {
                    assert(j - 1 == 2 * k + 1);
                    assert(p0[j] == ActionView::PushDataFile { id: tops[k], under: Target::Created(0) });
                }
            } else {
                assert(p0[0] == ActionView::Create { parent: Target::Root, name: "unknown"@ });
            }
        } else if j < p1.len() {
            assert(pushed_at(p1, j));
            assert(all[j] == p1[j]);
            if j + 1 < p1.len() {
                assert(all[j + 1] == p1[j + 1]);
            }
            if j + 2 < p1.len() {
                assert(all[j + 2] == p1[j + 2]);
            }
        } else {
            assert(all[j] == ActionView::Delete { id: orphans[j - p1.len()], under: Target::Root });
        }
    }
}

/// The shape of the top-level part: a move and a registration per file.
proof fn lemma_top_moves(tops: Seq<u64>)
    ensures
        top_moves(tops).len() == 2 * tops.len(),
        forall|k: int|
            0 <= k < tops.len() ==> top_moves(tops)[2 * k] == (ActionView::Move {
                id: #[trigger] tops[k],
                to: Target::Created(0),
            }) && top_moves(tops)[2 * k + 1] == (ActionView::PushDataFile {
                id: tops[k],
                under: Target::Created(0),
            }),
    decreases tops.len(),
{
    if tops.len() > 0 {
        let pre = tops.drop_last();
        lemma_top_moves(pre);
        assert forall|k: int| 0 <= k < tops.len() implies top_moves(tops)[2 * k] == (ActionView::Move {
            id: #[trigger] tops[k],
            to: Target::Created(0),
        }) && top_moves(tops)[2 * k + 1] == (ActionView::PushDataFile {
            id: tops[k],
            under: Target::Created(0),
        }) by {
            if k < pre.len() {
                assert(pre[k] == tops[k]);
            }
        }
    }
}

/// Node `id` is moved, in `q`, under a node that `q` creates under
/// `parent` with the name `name`.
pub open spec fn placed_under(q: Seq<ActionView>, id: u64, parent: Target, name: Seq<char>) -> bool {
    exists|k: int, j: int|
        0 <= k < j < q.len() && #[trigger] q[k] == ActionView::Create { parent, name } && #[trigger] q[j]
            == ActionView::Move { id, to: Target::Created(k as usize) }
}

proof fn lemma_placed_grows(p: Seq<ActionView>, q: Seq<ActionView>, id: u64, parent: Target, name: Seq<char>)
    ensures
        grows(p, q) && placed_under(p, id, parent, name) ==> placed_under(q, id, parent, name),
{
    if grows(p, q) && placed_under(p, id, parent, name) {
        let (k, j) = choose|k: int, j: int|
            0 <= k < j < p.len() && #[trigger] p[k] == ActionView::Create { parent, name } && #[trigger] p[j]
                == ActionView::Move { id, to: Target::Created(k as usize) };
        assert(q[k] == p[k]);
        assert(q[j] == p[j]);
    }
}

/// Node `id` is moved under `dest` by an action of `q` from index `lo` on.
pub open spec fn moved_from(q: Seq<ActionView>, lo: int, id: u64, dest: Target) -> bool {
    exists|j: int| lo <= j < q.len() && #[trigger] q[j] == (ActionView::Move { id, to: dest })
}

/// Every file from index `i` on that sits in `slot` is moved under `dest`
/// by the appended part of the plan.
proof fn lemma_move_main_files_moves(
    s: SeriesView,
    slot: Slot,
    dest: Target,
    season: Option<u32>,
    i: int,
    plan: Seq<ActionView>,
)
    requires
        0 <= i,
    ensures
        forall|i2: int|
            i <= i2 < s.files.len() && (#[trigger] s.files[i2]).slot == slot ==> moved_from(
                move_main_files(s, slot, dest, season, i, plan),
                plan.len() as int,
                s.files[i2].file.id,
                dest,
            ),
    decreases s.files.len() - i,
{
    if i < s.files.len() {
        let f = s.files[i].file;
        let plan1 = if s.files[i].slot == slot {
            main_file_plan(plan, dest, f, if season is Some { season } else { f.season })
        } else {
            plan
        };
        let fin = move_main_files(s, slot, dest, season, i, plan);
        assert(fin == move_main_files(s, slot, dest, season, i + 1, plan1));
        lemma_move_main_files_moves(s, slot, dest, season, i + 1, plan1);
        lemma_move_main_files(s, slot, dest, season, i + 1, plan1);
        assert forall|i2: int| i <= i2 < s.files.len() && (#[trigger] s.files[i2]).slot == slot implies moved_from(
            fin,
            plan.len() as int,
            s.files[i2].file.id,
            dest,
        ) by {
            if i2 == i {
                let j = plan.len() as int;
                assert(plan1[j] == ActionView::Move { id: f.id, to: dest });
                assert(fin[j] == plan1[j]);
            } else {
                assert(moved_from(fin, plan1.len() as int, s.files[i2].file.id, dest));
            }
        }
    }
}

proof fn lemma_least_exists(s: SeriesView, lo: int, n0: u32)
    requires
        n0 >= lo,
        is_season(s, n0),
    ensures
        exists|m: u32| m >= lo && is_season(s, m) && forall|x: u32| x >= lo && #[trigger] is_season(s, x) ==> m <= x,
    decreases n0 - lo,
{
    if !(forall|x: u32| x >= lo && #[trigger] is_season(s, x) ==> n0 <= x) {
        let x = choose|x: u32| !(x >= lo && #[trigger] is_season(s, x) ==> n0 <= x);
        lemma_least_exists(s, lo, x);
    }
}

proof fn lemma_least_season_facts(s: SeriesView, lo: int)
    ensures
        match least_season_from(s, lo) {
            Some(m) => m >= lo && is_season(s, m) && forall|x: u32| x >= lo && #[trigger] is_season(s, x) ==> m <= x,
            None => forall|x: u32| x >= lo ==> !#[trigger] is_season(s, x),
        },
{
    reveal(least_season_from);
    if exists|n: u32| n >= lo && #[trigger] is_season(s, n) {
        let n0 = choose|n: u32| n >= lo && #[trigger] is_season(s, n);
        lemma_least_exists(s, lo, n0);
    }
}

/// Where a file of `slot` lands in the plan of its series, whose node is
/// `key`: a main episode under its `Season N` node; a season member
/// without an episode number under the `unknown` node of its `Season N`
/// node; a file of the series' `unknown` under the series' `unknown` node.
/// Extras are placed by kind and are not described here.
pub open spec fn placed_in_series(q: Seq<ActionView>, id: u64, key: Target, slot: Slot) -> bool {
    match slot {
        Slot::SeasonEpisode(n) => placed_under(q, id, key, season_dir_name(n)),
        Slot::SeasonUnknown(n) => exists|k: int|
            0 <= k < q.len() && #[trigger] q[k] == (ActionView::Create { parent: key, name: season_dir_name(n) })
                && placed_under(q, id, Target::Created(k as usize), "unknown"@),
        Slot::SeriesUnknown => placed_under(q, id, key, "unknown"@),
        _ => true,
    }
}

proof fn lemma_placed_in_series_grows(p: Seq<ActionView>, q: Seq<ActionView>, id: u64, key: Target, slot: Slot)
    ensures
        grows(p, q) && placed_in_series(p, id, key, slot) ==> placed_in_series(q, id, key, slot),
{
    if grows(p, q) && placed_in_series(p, id, key, slot) {
        match slot {
            Slot::SeasonEpisode(n) => {
                lemma_placed_grows(p, q, id, key, season_dir_name(n));
            },
            Slot::SeasonUnknown(n) => {
                let k = choose|k: int|
                    0 <= k < p.len() && #[trigger] p[k] == (ActionView::Create {
                        parent: key,
                        name: season_dir_name(n),
                    }) && placed_under(p, id, Target::Created(k as usize), "unknown"@);
                assert(q[k] == p[k]);
                lemma_placed_grows(p, q, id, Target::Created(k as usize), "unknown"@);
            },
            Slot::SeriesUnknown => {
                lemma_placed_grows(p, q, id, key, "unknown"@);
            },
            _ => {},
        }
    }
}

/// The members of season `n` are moved under its `Season N` node.
proof fn lemma_season_plan_places(
    s: SeriesView,
    series_key: Target,
    n: u32,
    plan: Seq<ActionView>,
    ids: Seq<(u64, Target)>,
)
    ensures
        forall|i: int|
            0 <= i < s.files.len() && slot_season((#[trigger] s.files[i]).slot) == Some(n) ==> placed_in_series(
                season_plan(s, series_key, n, plan, ids).0,
                s.files[i].file.id,
                series_key,
                s.files[i].slot,
            ),
{
    reveal(season_plan);
    let fin = season_plan(s, series_key, n, plan, ids).0;
    let sk = plan.len() as usize;
    let k = plan.len() as int;
    let name = season_dir_name(n);
    let p0 = plan.push(ActionView::Create { parent: series_key, name });
    let pe = move_main_files(s, Slot::SeasonEpisode(n), Target::Created(sk), Some(n), 0, p0);
    lemma_move_main_files(s, Slot::SeasonEpisode(n), Target::Created(sk), Some(n), 0, p0);
    lemma_move_main_files_moves(s, Slot::SeasonEpisode(n), Target::Created(sk), Some(n), 0, p0);
    assert(pe[k] == p0[k]);
    let uk = pe.len() as usize;
    let pu = pe.push(ActionView::Create { parent: Target::Created(sk), name: "unknown"@ });
    let pm = move_main_files(s, Slot::SeasonUnknown(n), Target::Created(uk), Some(n), 0, pu);
    lemma_push_create(pe, Target::Created(sk), "unknown"@);
    lemma_move_main_files(s, Slot::SeasonUnknown(n), Target::Created(uk), Some(n), 0, pu);
    lemma_move_main_files_moves(s, Slot::SeasonUnknown(n), Target::Created(uk), Some(n), 0, pu);
    lemma_grows_trans(pe, pu, pm);
    let p1 = if crate::anime::action::rebuild::tree::has_season_bucket(s, n) {
        if crate::anime::action::rebuild::tree::has_slot(s, Slot::SeasonUnknown(n)) {
            pm
        } else {
            pe
        }
    } else {
        p0
    };
    assert(grows(pe, pe));
    assert(grows(p1, p1));
    if crate::anime::action::rebuild::tree::has_root(s, Some(n))
        || crate::anime::action::rebuild::tree::has_slot(s, Slot::SeasonLoose(n)) {
        let ek = p1.len() as usize;
        lemma_push_create(p1, Target::Created(sk), "extras"@);
        let px = p1.push(ActionView::Create { parent: Target::Created(sk), name: "extras"@ });
        lemma_extras_plan(s, Target::Created(ek), Some(n), Slot::SeasonLoose(n), 0, px);
        lemma_grows_trans(p1, px, fin);
    }
    assert(grows(p1, fin));
    lemma_grows_trans(pe, p1, fin);
    assert forall|i: int|
        0 <= i < s.files.len() && slot_season((#[trigger] s.files[i]).slot) == Some(n) implies placed_in_series(
        fin,
        s.files[i].file.id,
        series_key,
        s.files[i].slot,
    ) by {
        let id = s.files[i].file.id;
        assert(crate::anime::action::rebuild::tree::has_season_bucket(s, n));
        if s.files[i].slot == Slot::SeasonEpisode(n) {
            assert(moved_from(pe, p0.len() as int, id, Target::Created(sk)));
            let j = choose|j: int|
                p0.len() <= j < pe.len() && #[trigger] pe[j] == (ActionView::Move { id, to: Target::Created(sk) });
            assert(pe[k] == ActionView::Create { parent: series_key, name });
            assert(pe[j] == ActionView::Move { id, to: Target::Created(k as usize) });
            assert(placed_in_series(pe, id, series_key, s.files[i].slot));
            lemma_placed_in_series_grows(pe, fin, id, series_key, s.files[i].slot);
        } else if s.files[i].slot == Slot::SeasonUnknown(n) {
            assert(crate::anime::action::rebuild::tree::has_slot(s, Slot::SeasonUnknown(n)));
            assert(moved_from(pm, pu.len() as int, id, Target::Created(uk)));
            let j = choose|j: int|
                pu.len() <= j < pm.len() && #[trigger] pm[j] == (ActionView::Move { id, to: Target::Created(uk) });
            let ku = pe.len() as int;
            assert(pm[ku] == pu[ku]);
            assert(pm[ku] == ActionView::Create { parent: Target::Created(k as usize), name: "unknown"@ });
            assert(pm[j] == ActionView::Move { id, to: Target::Created(ku as usize) });
            assert(placed_under(pm, id, Target::Created(k as usize), "unknown"@));
            assert(pm[k] == pe[k]);
            assert(placed_in_series(pm, id, series_key, s.files[i].slot));
            lemma_placed_in_series_grows(pm, fin, id, series_key, s.files[i].slot);
        }
    }
}

/// The members of every season from `lo` on are moved under their
/// `Season N` node.
proof fn lemma_seasons_plan_places(
    s: SeriesView,
    series_key: Target,
    lo: int,
    plan: Seq<ActionView>,
    ids: Seq<(u64, Target)>,
)
    requires
        0 <= lo,
    ensures
        forall|i: int|
            0 <= i < s.files.len() && slot_season((#[trigger] s.files[i]).slot) is Some
                && slot_season(s.files[i].slot)->0 >= lo ==> placed_in_series(
                seasons_plan(s, series_key, lo, plan, ids).0,
                s.files[i].file.id,
                series_key,
                s.files[i].slot,
            ),
    decreases u32::MAX + 1 - lo,
{
    let fin = seasons_plan(s, series_key, lo, plan, ids).0;
    lemma_least_season_facts(s, lo);
    assert forall|i: int|
        0 <= i < s.files.len() && slot_season((#[trigger] s.files[i]).slot) is Some
            && slot_season(s.files[i].slot)->0 >= lo implies placed_in_series(
        fin,
        s.files[i].file.id,
        series_key,
        s.files[i].slot,
    ) by {
        let n = slot_season(s.files[i].slot)->0;
        assert(crate::anime::action::rebuild::tree::has_season_bucket(s, n));
        assert(is_season(s, n));
        let m = least_season_from(s, lo)->0;
        assert(m <= n);
        let (p, i2) = season_plan(s, series_key, m, plan, ids);
        assert(fin == seasons_plan(s, series_key, m + 1, p, i2).0);
        if n == m {
            lemma_season_plan_places(s, series_key, m, plan, ids);
            lemma_seasons_plan(s, series_key, m + 1, p, i2);
            lemma_placed_in_series_grows(p, fin, s.files[i].file.id, series_key, s.files[i].slot);
        } else {
            lemma_seasons_plan_places(s, series_key, m + 1, p, i2);
        }
    }
}

/// Law: the plan of a series moves each of its main episodes under the
/// `Season N` node of its season, each season member without an episode
/// number under that node's `unknown`, and each node of the series'
/// `unknown` under the series' `unknown` node; all of them made by the
/// plan under the series node.
pub proof fn lemma_series_plan_places_files(s: SeriesView, plan: Seq<ActionView>)
    ensures
        forall|i: int|
            0 <= i < s.files.len() ==> placed_in_series(
                series_plan(s, plan),
                (#[trigger] s.files[i]).file.id,
                Target::Created(plan.len() as usize),
                s.files[i].slot,
            ),
{
    let key = Target::Created(plan.len() as usize);
    let fin = series_plan(s, plan);
    let p0 = plan.push(ActionView::Create { parent: Target::Root, name: s.name });
    lemma_seasons_plan_places(s, key, 0, p0, seq![]);
    lemma_series_plan(s, plan);
    let (p1, ids1) = seasons_plan(s, key, 0, p0, seq![]);
    let (p2, ids2) = if crate::anime::action::rebuild::tree::has_root(s, None)
        || crate::anime::action::rebuild::tree::has_slot(s, Slot::LooseExtra) {
        let ek = p1.len() as usize;
        (
            extras_plan(
                s,
                Target::Created(ek),
                None,
                Slot::LooseExtra,
                0,
                p1.push(ActionView::Create { parent: key, name: "extras"@ }),
            ),
            ids1 + crate::anime::action::rebuild::tree::tagged(
                crate::anime::action::rebuild::tree::root_ids(s, None, 0),
                Target::Created(ek),
            ),
        )
    } else {
        (p1, ids1)
    };
    let uk = p2.len() as usize;
    let pu = p2.push(ActionView::Create { parent: key, name: "unknown"@ });
    let pm = move_main_files(s, Slot::SeriesUnknown, Target::Created(uk), None, 0, pu);
    lemma_push_create(p2, key, "unknown"@);
    lemma_move_main_files(s, Slot::SeriesUnknown, Target::Created(uk), None, 0, pu);
    lemma_move_main_files_moves(s, Slot::SeriesUnknown, Target::Created(uk), None, 0, pu);
    lemma_grows_trans(p2, pu, pm);
    let p3 = if crate::anime::action::rebuild::tree::has_slot(s, Slot::SeriesUnknown) {
        pm
    } else {
        p2
    };
    let p4 = deletes_rev(ids2, p3);
    lemma_deletes_rev(ids2, p3);
    let raw = crate::anime::action::rebuild::tree::tagged(s.dirs_to_delete, key);
    lemma_deletes_rev(raw, p4);
    assert(fin == deletes_rev(raw, p4));
    lemma_grows_trans(p3, p4, fin);
    assert forall|i: int| 0 <= i < s.files.len() implies placed_in_series(
        fin,
        (#[trigger] s.files[i]).file.id,
        key,
        s.files[i].slot,
    ) by {
        let id = s.files[i].file.id;
        if slot_season(s.files[i].slot) is Some {
            lemma_placed_in_series_grows(p1, fin, id, key, s.files[i].slot);
        } else if s.files[i].slot == Slot::SeriesUnknown {
            assert(crate::anime::action::rebuild::tree::has_slot(s, Slot::SeriesUnknown));
            assert(moved_from(pm, pu.len() as int, id, Target::Created(uk)));
            let j = choose|j: int|
                pu.len() <= j < pm.len() && #[trigger] pm[j] == (ActionView::Move { id, to: Target::Created(uk) });
            let ku = p2.len() as int;
            assert(pm[ku] == pu[ku]);
            assert(pm[ku] == ActionView::Create { parent: key, name: "unknown"@ });
            assert(pm[j] == ActionView::Move { id, to: Target::Created(ku as usize) });
            assert(placed_in_series(pm, id, key, s.files[i].slot));
            lemma_placed_in_series_grows(pm, fin, id, key, s.files[i].slot);
        }
    }
}

/// `deletes_rev` appends the deletions of `ids`, last id first.
proof fn lemma_deletes_rev_shape(ids: Seq<(u64, Target)>, plan: Seq<ActionView>)
    ensures
        deletes_rev(ids, plan).len() == plan.len() + ids.len(),
        forall|m: int|
            0 <= m < ids.len() ==> #[trigger] deletes_rev(ids, plan)[plan.len() + m] == (ActionView::Delete {
                id: ids[ids.len() - 1 - m].0,
                under: ids[ids.len() - 1 - m].1,
            }),
    decreases ids.len(),
{
    if ids.len() > 0 {
        let a = ActionView::Delete { id: ids.last().0, under: ids.last().1 };
        let p = plan.push(a);
        let rest = ids.drop_last();
        lemma_deletes_rev_shape(rest, p);
        lemma_deletes_rev(rest, p);
        let fin = deletes_rev(ids, plan);
        assert forall|m: int| 0 <= m < ids.len() implies #[trigger] fin[plan.len() + m] == (ActionView::Delete {
            id: ids[ids.len() - 1 - m].0,
            under: ids[ids.len() - 1 - m].1,
        }) by {
            if m == 0 {
                assert(fin[plan.len() as int] == p[plan.len() as int]);
            } else {
                assert(fin[p.len() + (m - 1)] == fin[plan.len() + m]);
                assert(rest[rest.len() - 1 - (m - 1)] == ids[ids.len() - 1 - m]);
            }
        }
    }
}

/// Law: the plan of a series ends with the deletion of the raw directories
/// of the series, deepest first (the reverse of their pre-order), each
/// done only when the series node exists.
pub proof fn lemma_series_plan_deletes_raw_dirs_last(s: SeriesView, plan: Seq<ActionView>)
    ensures
        series_plan(s, plan).len() >= s.dirs_to_delete.len(),
        forall|m: int|
            0 <= m < s.dirs_to_delete.len() ==> #[trigger] series_plan(s, plan)[series_plan(s, plan).len()
                - s.dirs_to_delete.len() + m] == (ActionView::Delete {
                id: s.dirs_to_delete[s.dirs_to_delete.len() - 1 - m],
                under: Target::Created(plan.len() as usize),
            }),
{
    let key = Target::Created(plan.len() as usize);
    let raw = crate::anime::action::rebuild::tree::tagged(s.dirs_to_delete, key);
    lemma_series_plan(s, plan);
    let fin = series_plan(s, plan);
    let n = s.dirs_to_delete.len();
    let base = fin.len() - n;
    assert(raw.len() == n);
    // The last step of the series plan deletes the raw directories.
    let p0 = plan.push(ActionView::Create { parent: Target::Root, name: s.name });
    let (p1, ids1) = seasons_plan(s, key, 0, p0, seq![]);
    let (p2, ids2) = if crate::anime::action::rebuild::tree::has_root(s, None)
        || crate::anime::action::rebuild::tree::has_slot(s, Slot::LooseExtra) {
        let ek = p1.len() as usize;
        (
            extras_plan(
                s,
                Target::Created(ek),
                None,
                Slot::LooseExtra,
                0,
                p1.push(ActionView::Create { parent: key, name: "extras"@ }),
            ),
            ids1 + crate::anime::action::rebuild::tree::tagged(
                crate::anime::action::rebuild::tree::root_ids(s, None, 0),
                Target::Created(ek),
            ),
        )
    } else {
        (p1, ids1)
    };
    let p3 = if crate::anime::action::rebuild::tree::has_slot(s, Slot::SeriesUnknown) {
        move_main_files(
            s,
            Slot::SeriesUnknown,
            Target::Created(p2.len() as usize),
            None,
            0,
            p2.push(ActionView::Create { parent: key, name: "unknown"@ }),
        )
    } else {
        p2
    };
    let p4 = deletes_rev(ids2, p3);
    assert(fin == deletes_rev(raw, p4));
    lemma_deletes_rev_shape(raw, p4);
    assert(base == p4.len());
    assert forall|m: int| 0 <= m < n implies #[trigger] fin[base + m] == (ActionView::Delete {
        id: s.dirs_to_delete[n - 1 - m],
        under: key,
    }) by {
        assert(fin[p4.len() + m] == ActionView::Delete { id: raw[n - 1 - m].0, under: raw[n - 1 - m].1 });
    }
}

/// Position of `k` in the declared order of the extra kinds.
pub open spec fn kind_rank(k: ExtraKind) -> int {
    match k {
        ExtraKind::Opening => 0,
        ExtraKind::Ending => 1,
        ExtraKind::InsertSong => 2,
        ExtraKind::Credits => 3,
        ExtraKind::Menu => 4,
        ExtraKind::VideoExtra => 5,
        ExtraKind::PromotionVideo => 6,
        ExtraKind::NextPreview => 7,
        ExtraKind::Live => 8,
        ExtraKind::AudioCommentary => 9,
        ExtraKind::BonusDisc => 10,
        ExtraKind::Scan => 11,
        ExtraKind::Booklet => 12,
        ExtraKind::Artwork => 13,
        ExtraKind::Poster => 14,
        ExtraKind::Subtitle => 15,
        ExtraKind::Font => 16,
        ExtraKind::Chapter => 17,
        ExtraKind::Thumbnail => 18,
        ExtraKind::DataFile => 19,
        ExtraKind::Patch => 20,
        ExtraKind::Generic => 21,
        ExtraKind::Unknown => 22,
    }
}

proof fn lemma_kind_rank(k: ExtraKind)
    ensures
        0 <= kind_rank(k) < KIND_COUNT,
        kind_of_rank(kind_rank(k)) == k,
{
}

/// Every extra of `kind` from index `i` on that sits in `slot` is moved
/// under `dest` by the appended part of the plan.
proof fn lemma_move_kind_files_moves(
    s: SeriesView,
    slot: Slot,
    kind: ExtraKind,
    dest: Target,
    i: int,
    plan: Seq<ActionView>,
)
    requires
        0 <= i,
    ensures
        forall|i2: int|
            i <= i2 < s.files.len() && (#[trigger] s.files[i2]).slot == slot && placed_kind(s.files[i2]) == Some(
                kind,
            ) ==> moved_from(move_kind_files(s, slot, kind, dest, i, plan), plan.len() as int, s.files[i2].file.id, dest),
    decreases s.files.len() - i,
{
    if i < s.files.len() {
        let p = s.files[i];
        let plan1 = if p.slot == slot && placed_kind(p) == Some(kind) {
            move_extra_file_plan(plan, dest, p.file)
        } else {
            plan
        };
        let fin = move_kind_files(s, slot, kind, dest, i, plan);
        assert(fin == move_kind_files(s, slot, kind, dest, i + 1, plan1));
        lemma_move_kind_files_moves(s, slot, kind, dest, i + 1, plan1);
        lemma_move_kind_files(s, slot, kind, dest, i + 1, plan1);
        if p.slot == slot && placed_kind(p) == Some(kind) {
            lemma_move_extra_file(plan, dest, p.file);
        }
        assert(grows(plan, plan1));
        assert forall|i2: int|
            i <= i2 < s.files.len() && (#[trigger] s.files[i2]).slot == slot && placed_kind(s.files[i2]) == Some(
                kind,
            ) implies moved_from(fin, plan.len() as int, s.files[i2].file.id, dest) by {
            if i2 == i {
                let j = plan.len() as int;
                assert(plan1[j] == ActionView::Move { id: p.file.id, to: dest });
                assert(fin[j] == plan1[j]);
            } else {
                assert(moved_from(fin, plan1.len() as int, s.files[i2].file.id, dest));
            }
        }
    }
}

/// The loose extras of `loose_slot` of the kinds from rank `r` on are moved
/// under the bucket of their kind, made under `parent`.
proof fn lemma_extras_plan_places(
    s: SeriesView,
    parent: Target,
    root_season: Option<u32>,
    loose_slot: Slot,
    r: int,
    plan: Seq<ActionView>,
)
    requires
        0 <= r,
    ensures
        forall|i: int|
            0 <= i < s.files.len() && (#[trigger] s.files[i]).slot == loose_slot && placed_kind(s.files[i]) is Some
                && kind_rank(placed_kind(s.files[i])->0) >= r ==> placed_under(
                extras_plan(s, parent, root_season, loose_slot, r, plan),
                s.files[i].file.id,
                parent,
                spec_extra_bucket_name(placed_kind(s.files[i])->0),
            ),
    decreases KIND_COUNT - r,
{
    if r < KIND_COUNT {
        let fin = extras_plan(s, parent, root_season, loose_slot, r, plan);
        let k = kind_of_rank(r);
        let b = plan.len();
        let name = spec_extra_bucket_name(k);
        let p = plan.push(ActionView::Create { parent, name }).push(
            ActionView::AnnotateNode { node: b as usize, note: crate::anime::action::rebuild::plan::kind_note(k) },
        );
        let p2 = move_kind_files(s, loose_slot, k, Target::Created(b as usize), 0, p);
        let pb = bucket_dirs(s, root_season, k, b as usize, 0, p2);
        let plan1 = if has_root_of_kind(s, root_season, k) || has_kind_file(s, loose_slot, k) {
            pb
        } else {
            plan
        };
        assert(fin == extras_plan(s, parent, root_season, loose_slot, r + 1, plan1));
        lemma_extras_plan_places(s, parent, root_season, loose_slot, r + 1, plan1);
        lemma_extras_plan(s, parent, root_season, loose_slot, r + 1, plan1);
        lemma_move_kind_files(s, loose_slot, k, Target::Created(b as usize), 0, p);
        lemma_move_kind_files_moves(s, loose_slot, k, Target::Created(b as usize), 0, p);
        lemma_bucket_dirs(s, root_season, k, b as usize, 0, p2);
        lemma_grows_trans(p2, pb, fin);
        assert forall|i: int|
            0 <= i < s.files.len() && (#[trigger] s.files[i]).slot == loose_slot && placed_kind(s.files[i]) is Some
                && kind_rank(placed_kind(s.files[i])->0) >= r implies placed_under(
            fin,
            s.files[i].file.id,
            parent,
            spec_extra_bucket_name(placed_kind(s.files[i])->0),
        ) by {
            let kk = placed_kind(s.files[i])->0;
            lemma_kind_rank(kk);
            if kind_rank(kk) == r {
                assert(kk == k);
                assert(has_kind_file(s, loose_slot, k));
                let id = s.files[i].file.id;
                assert(moved_from(p2, p.len() as int, id, Target::Created(b as usize)));
                let j = choose|j: int|
                    p.len() <= j < p2.len() && #[trigger] p2[j] == (ActionView::Move {
                        id,
                        to: Target::Created(b as usize),
                    });
                assert(p2[b as int] == p[b as int]);
                assert(p2[b as int] == ActionView::Create { parent, name });
                assert(placed_under(p2, id, parent, name));
                lemma_placed_grows(p2, fin, id, parent, name);
            }
        }
    }
}

/// The loose extra `p` (of known kind) lands in the bucket of its kind
/// inside an `extras` node that `q` makes under `holder`.
pub open spec fn placed_in_extras(q: Seq<ActionView>, id: u64, holder: Target, kind: ExtraKind) -> bool {
    exists|ke: int|
        0 <= ke < q.len() && #[trigger] q[ke] == (ActionView::Create { parent: holder, name: "extras"@ })
            && placed_under(q, id, Target::Created(ke as usize), spec_extra_bucket_name(kind))
}

/// Where a loose extra of the series lands: an extra found loose in
/// season `N` in the bucket of its kind under the `extras` node of its
/// `Season N` node; a season-less loose extra in the bucket of its kind
/// under the series' `extras` node.
pub open spec fn loose_extra_placed(q: Seq<ActionView>, key: Target, p: PlacedView) -> bool {
    match (p.slot, placed_kind(p)) {
        (Slot::SeasonLoose(n), Some(k)) => exists|ks: int|
            0 <= ks < q.len() && #[trigger] q[ks] == (ActionView::Create { parent: key, name: season_dir_name(n) })
                && placed_in_extras(q, p.file.id, Target::Created(ks as usize), k),
        (Slot::LooseExtra, Some(k)) => placed_in_extras(q, p.file.id, key, k),
        _ => true,
    }
}

proof fn lemma_placed_in_extras_grows(p: Seq<ActionView>, q: Seq<ActionView>, id: u64, holder: Target, kind: ExtraKind)
    ensures
        grows(p, q) && placed_in_extras(p, id, holder, kind) ==> placed_in_extras(q, id, holder, kind),
{
    if grows(p, q) && placed_in_extras(p, id, holder, kind) {
        let ke = choose|ke: int|
            0 <= ke < p.len() && #[trigger] p[ke] == (ActionView::Create { parent: holder, name: "extras"@ })
                && placed_under(p, id, Target::Created(ke as usize), spec_extra_bucket_name(kind));
        assert(q[ke] == p[ke]);
        lemma_placed_grows(p, q, id, Target::Created(ke as usize), spec_extra_bucket_name(kind));
    }
}

proof fn lemma_loose_extra_placed_grows(p: Seq<ActionView>, q: Seq<ActionView>, key: Target, x: PlacedView)
    ensures
        grows(p, q) && loose_extra_placed(p, key, x) ==> loose_extra_placed(q, key, x),
{
    if grows(p, q) && loose_extra_placed(p, key, x) {
        match (x.slot, placed_kind(x)) {
            (Slot::SeasonLoose(n), Some(k)) => {
                let ks = choose|ks: int|
                    0 <= ks < p.len() && #[trigger] p[ks] == (ActionView::Create {
                        parent: key,
                        name: season_dir_name(n),
                    }) && placed_in_extras(p, x.file.id, Target::Created(ks as usize), k);
                assert(q[ks] == p[ks]);
                lemma_placed_in_extras_grows(p, q, x.file.id, Target::Created(ks as usize), k);
            },
            (Slot::LooseExtra, Some(k)) => {
                lemma_placed_in_extras_grows(p, q, x.file.id, key, k);
            },
            _ => {},
        }
    }
}

/// The loose extras of season `n` land in its `extras` buckets.
proof fn lemma_season_plan_places_loose(
    s: SeriesView,
    series_key: Target,
    n: u32,
    plan: Seq<ActionView>,
    ids: Seq<(u64, Target)>,
)
    ensures
        forall|i: int|
            0 <= i < s.files.len() && slot_season((#[trigger] s.files[i]).slot) == Some(n) ==> loose_extra_placed(
                season_plan(s, series_key, n, plan, ids).0,
                series_key,
                s.files[i],
            ),
{
    reveal(season_plan);
    let fin = season_plan(s, series_key, n, plan, ids).0;
    let sk = plan.len() as usize;
    let k0 = plan.len() as int;
    let name = season_dir_name(n);
    let p0 = plan.push(ActionView::Create { parent: series_key, name });
    let pe = move_main_files(s, Slot::SeasonEpisode(n), Target::Created(sk), Some(n), 0, p0);
    lemma_move_main_files(s, Slot::SeasonEpisode(n), Target::Created(sk), Some(n), 0, p0);
    let uk = pe.len() as usize;
    let pu = pe.push(ActionView::Create { parent: Target::Created(sk), name: "unknown"@ });
    let pm = move_main_files(s, Slot::SeasonUnknown(n), Target::Created(uk), Some(n), 0, pu);
    lemma_push_create(pe, Target::Created(sk), "unknown"@);
    lemma_move_main_files(s, Slot::SeasonUnknown(n), Target::Created(uk), Some(n), 0, pu);
    lemma_grows_trans(pe, pu, pm);
    lemma_grows_trans(p0, pe, pm);
    let p1 = if crate::anime::action::rebuild::tree::has_season_bucket(s, n) {
        if crate::anime::action::rebuild::tree::has_slot(s, Slot::SeasonUnknown(n)) {
            pm
        } else {
            pe
        }
    } else {
        p0
    };
    assert(grows(p0, p0));
    assert(grows(p0, p1));
    assert(p1[k0] == p0[k0]);
    assert forall|i: int|
        0 <= i < s.files.len() && slot_season((#[trigger] s.files[i]).slot) == Some(n) implies loose_extra_placed(
        fin,
        series_key,
        s.files[i],
    ) by {
        if s.files[i].slot == Slot::SeasonLoose(n) && placed_kind(s.files[i]) is Some {
            let kk = placed_kind(s.files[i])->0;
            let id = s.files[i].file.id;
            assert(crate::anime::action::rebuild::tree::has_slot(s, Slot::SeasonLoose(n)));
            let ek = p1.len() as usize;
            let px = p1.push(ActionView::Create { parent: Target::Created(sk), name: "extras"@ });
            assert(fin == extras_plan(s, Target::Created(ek), Some(n), Slot::SeasonLoose(n), 0, px));
            lemma_extras_plan_places(s, Target::Created(ek), Some(n), Slot::SeasonLoose(n), 0, px);
            lemma_extras_plan(s, Target::Created(ek), Some(n), Slot::SeasonLoose(n), 0, px);
            lemma_kind_rank(kk);
            assert(placed_under(fin, id, Target::Created(ek), spec_extra_bucket_name(kk)));
            let ke = p1.len() as int;
            assert(fin[ke] == px[ke]);
            assert(fin[ke] == ActionView::Create { parent: Target::Created(sk), name: "extras"@ });
            assert(placed_in_extras(fin, id, Target::Created(sk), kk));
            assert(fin[k0] == px[k0]);
            assert(fin[k0] == ActionView::Create { parent: series_key, name });
        }
    }
}

/// The loose extras of every season from `lo` on land in their season's
/// `extras` buckets.
proof fn lemma_seasons_plan_places_loose(
    s: SeriesView,
    series_key: Target,
    lo: int,
    plan: Seq<ActionView>,
    ids: Seq<(u64, Target)>,
)
    requires
        0 <= lo,
    ensures
        forall|i: int|
            0 <= i < s.files.len() && slot_season((#[trigger] s.files[i]).slot) is Some
                && slot_season(s.files[i].slot)->0 >= lo ==> loose_extra_placed(
                seasons_plan(s, series_key, lo, plan, ids).0,
                series_key,
                s.files[i],
            ),
    decreases u32::MAX + 1 - lo,
{
    let fin = seasons_plan(s, series_key, lo, plan, ids).0;
    lemma_least_season_facts(s, lo);
    assert forall|i: int|
        0 <= i < s.files.len() && slot_season((#[trigger] s.files[i]).slot) is Some
            && slot_season(s.files[i].slot)->0 >= lo implies loose_extra_placed(fin, series_key, s.files[i]) by {
        let n = slot_season(s.files[i].slot)->0;
        assert(crate::anime::action::rebuild::tree::has_season_bucket(s, n));
        assert(is_season(s, n));
        let m = least_season_from(s, lo)->0;
        assert(m <= n);
        let (p, i2) = season_plan(s, series_key, m, plan, ids);
        assert(fin == seasons_plan(s, series_key, m + 1, p, i2).0);
        if n == m {
            lemma_season_plan_places_loose(s, series_key, m, plan, ids);
            lemma_seasons_plan(s, series_key, m + 1, p, i2);
            lemma_loose_extra_placed_grows(p, fin, series_key, s.files[i]);
        } else {
            lemma_seasons_plan_places_loose(s, series_key, m + 1, p, i2);
        }
    }
}

/// Law: the plan of a series puts each loose extra (an extra file found
/// outside any extra directory) in the bucket of its kind: under the
/// `extras` node of its `Season N` node when it belongs to season `N`, under
/// the series' `extras` node otherwise.
pub proof fn lemma_series_plan_places_loose_extras(s: SeriesView, plan: Seq<ActionView>)
    ensures
        forall|i: int|
            0 <= i < s.files.len() ==> loose_extra_placed(
                series_plan(s, plan),
                Target::Created(plan.len() as usize),
                #[trigger] s.files[i],
            ),
{
    let key = Target::Created(plan.len() as usize);
    let fin = series_plan(s, plan);
    let p0 = plan.push(ActionView::Create { parent: Target::Root, name: s.name });
    lemma_seasons_plan_places_loose(s, key, 0, p0, seq![]);
    lemma_series_plan(s, plan);
    let (p1, ids1) = seasons_plan(s, key, 0, p0, seq![]);
    lemma_seasons_plan(s, key, 0, p0, seq![]);
    let ek = p1.len() as usize;
    let pe = p1.push(ActionView::Create { parent: key, name: "extras"@ });
    let pf = extras_plan(s, Target::Created(ek), None, Slot::LooseExtra, 0, pe);
    lemma_extras_plan_places(s, Target::Created(ek), None, Slot::LooseExtra, 0, pe);
    lemma_extras_plan(s, Target::Created(ek), None, Slot::LooseExtra, 0, pe);
    let (p2, ids2) = if crate::anime::action::rebuild::tree::has_root(s, None)
        || crate::anime::action::rebuild::tree::has_slot(s, Slot::LooseExtra) {
        (
            pf,
            ids1 + crate::anime::action::rebuild::tree::tagged(
                crate::anime::action::rebuild::tree::root_ids(s, None, 0),
                Target::Created(ek),
            ),
        )
    } else {
        (p1, ids1)
    };
    let uk = p2.len() as usize;
    let pu = p2.push(ActionView::Create { parent: key, name: "unknown"@ });
    let pm = move_main_files(s, Slot::SeriesUnknown, Target::Created(uk), None, 0, pu);
    lemma_push_create(p2, key, "unknown"@);
    lemma_move_main_files(s, Slot::SeriesUnknown, Target::Created(uk), None, 0, pu);
    lemma_grows_trans(p2, pu, pm);
    let p3 = if crate::anime::action::rebuild::tree::has_slot(s, Slot::SeriesUnknown) {
        pm
    } else {
        p2
    };
    assert(grows(p2, p2));
    let p4 = deletes_rev(ids2, p3);
    lemma_deletes_rev(ids2, p3);
    let raw = crate::anime::action::rebuild::tree::tagged(s.dirs_to_delete, key);
    lemma_deletes_rev(raw, p4);
    assert(fin == deletes_rev(raw, p4));
    lemma_grows_trans(p3, p4, fin);
    lemma_grows_trans(p2, p3, fin);
    assert forall|i: int| 0 <= i < s.files.len() implies loose_extra_placed(fin, key, #[trigger] s.files[i]) by {
        let x = s.files[i];
        if slot_season(x.slot) is Some {
            lemma_loose_extra_placed_grows(p1, fin, key, x);
        } else if x.slot == Slot::LooseExtra && placed_kind(x) is Some {
            let kk = placed_kind(x)->0;
            assert(crate::anime::action::rebuild::tree::has_slot(s, Slot::LooseExtra));
            lemma_kind_rank(kk);
            assert(placed_under(pf, x.file.id, Target::Created(ek), spec_extra_bucket_name(kk)));
            let ke = p1.len() as int;
            assert(pf[ke] == pe[ke]);
            assert(placed_in_extras(pf, x.file.id, key, kk));
            lemma_placed_in_extras_grows(pf, fin, x.file.id, key, kk);
        }
    }
}

/// Node `id` is moved somewhere by `q`.
pub open spec fn moved_any(q: Seq<ActionView>, id: u64) -> bool {
    exists|j: int| 0 <= j < q.len() && (#[trigger] q[j]) is Move && q[j]->Move_id == id
}

proof fn lemma_moved_any_grows(p: Seq<ActionView>, q: Seq<ActionView>, id: u64)
    ensures
        grows(p, q) && moved_any(p, id) ==> moved_any(q, id),
{
    if grows(p, q) && moved_any(p, id) {
        let j = choose|j: int| 0 <= j < p.len() && (#[trigger] p[j]) is Move && p[j]->Move_id == id;
        assert(q[j] == p[j]);
    }
}

/// The extra directory a place belongs to, if any.
pub open spec fn dir_of(slot: Slot) -> Option<usize> {
    match slot {
        Slot::ExtraDirFile(d) => Some(d),
        _ => None,
    }
}

/// Extra directory `d` is `e` or one of its ancestors.
pub open spec fn dir_ancestor(s: SeriesView, d: int, e: int) -> bool
    decreases e,
{
    if e == d {
        true
    } else if 0 <= e < s.extra_dirs.len() {
        match s.extra_dirs[e].parent {
            Some(p) => if (p as int) < e {
                dir_ancestor(s, d, p as int)
            } else {
                false
            },
            None => false,
        }
    } else {
        false
    }
}

/// The top of the chain of parents of extra directory `e`.
pub open spec fn dir_root(s: SeriesView, e: int) -> int
    decreases e,
{
    if 0 <= e < s.extra_dirs.len() {
        match s.extra_dirs[e].parent {
            Some(p) => if (p as int) < e {
                dir_root(s, p as int)
            } else {
                e
            },
            None => e,
        }
    } else {
        e
    }
}

proof fn lemma_dir_root(s: SeriesView, e: int)
    requires
        series_wf(s),
        0 <= e < s.extra_dirs.len(),
    ensures
        0 <= dir_root(s, e) <= e,
        s.extra_dirs[dir_root(s, e)].parent is None,
        dir_ancestor(s, dir_root(s, e), e),
    decreases e,
{
    if let Some(p) = s.extra_dirs[e].parent {
        lemma_dir_root(s, p as int);
    }
}

/// Below an ancestor `d` of `e` other than `e`, the chain passes through a
/// child `c` of `d` that is itself an ancestor of `e`.
proof fn lemma_dir_ancestor_child(s: SeriesView, d: int, e: int)
    requires
        0 <= d,
        dir_ancestor(s, d, e),
        e != d,
    ensures
        exists|c: int|
            d < c <= e && c < s.extra_dirs.len() && s.extra_dirs[c].parent == Some(d as usize) && #[trigger] dir_ancestor(
                s,
                c,
                e,
            ),
    decreases e,
{
    let p = s.extra_dirs[e].parent->0 as int;
    if p == d {
        assert(dir_ancestor(s, e, e));
    } else {
        lemma_dir_ancestor_child(s, d, p);
        let c = choose|c: int|
            d < c <= p && c < s.extra_dirs.len() && s.extra_dirs[c].parent == Some(d as usize) && #[trigger] dir_ancestor(
                s,
                c,
                p,
            );
        assert(dir_ancestor(s, c, e));
    }
}

/// The files of extra directory `d` whose kind is not the directory's,
/// from kind rank `r` on, are moved by the buckets of `d`.
proof fn lemma_dir_buckets_moves(s: SeriesView, d: int, key: Target, r: int, plan: Seq<ActionView>)
    requires
        0 <= d < s.extra_dirs.len(),
        0 <= r,
    ensures
        forall|i: int|
            0 <= i < s.files.len() && (#[trigger] s.files[i]).slot == Slot::ExtraDirFile(d as usize)
                && placed_kind(s.files[i]) is Some && placed_kind(s.files[i])->0 != s.extra_dirs[d].kind
                && kind_rank(placed_kind(s.files[i])->0) >= r ==> moved_any(
                dir_buckets(s, d, key, r, plan),
                s.files[i].file.id,
            ),
    decreases KIND_COUNT - r,
{
    if r < KIND_COUNT {
        let fin = dir_buckets(s, d, key, r, plan);
        let k = kind_of_rank(r);
        let slot = Slot::ExtraDirFile(d as usize);
        let b = plan.len();
        let p = plan.push(ActionView::Create { parent: key, name: spec_extra_bucket_name(k) }).push(
            ActionView::AnnotateNode { node: b as usize, note: crate::anime::action::rebuild::plan::kind_note(k) },
        );
        let pm = move_kind_files(s, slot, k, Target::Created(b as usize), 0, p);
        let plan1 = if k != s.extra_dirs[d].kind && has_kind_file(s, slot, k) {
            pm
        } else {
            plan
        };
        assert(fin == dir_buckets(s, d, key, r + 1, plan1));
        lemma_dir_buckets_moves(s, d, key, r + 1, plan1);
        lemma_dir_buckets(s, d, key, r + 1, plan1);
        lemma_move_kind_files_moves(s, slot, k, Target::Created(b as usize), 0, p);
        assert forall|i: int|
            0 <= i < s.files.len() && (#[trigger] s.files[i]).slot == slot && placed_kind(s.files[i]) is Some
                && placed_kind(s.files[i])->0 != s.extra_dirs[d].kind && kind_rank(placed_kind(s.files[i])->0)
                >= r implies moved_any(fin, s.files[i].file.id) by {
            let kk = placed_kind(s.files[i])->0;
            lemma_kind_rank(kk);
            if kind_rank(kk) == r {
                assert(kk == k);
                assert(has_kind_file(s, slot, k));
                let id = s.files[i].file.id;
                assert(moved_from(pm, p.len() as int, id, Target::Created(b as usize)));
                let j = choose|j: int|
                    p.len() <= j < pm.len() && #[trigger] pm[j] == (ActionView::Move {
                        id,
                        to: Target::Created(b as usize),
                    });
                assert(moved_any(pm, id));
                lemma_moved_any_grows(pm, fin, id);
            }
        }
    }
}

/// Every extra file of extra directory `d` and of the directories below
/// it is moved by the plan of `d`.
proof fn lemma_extra_dir_plan_moves(s: SeriesView, key: Target, d: int, plan: Seq<ActionView>)
    requires
        series_wf(s),
        0 <= d < s.extra_dirs.len(),
    ensures
        forall|i: int|
            0 <= i < s.files.len() && dir_of((#[trigger] s.files[i]).slot) is Some && placed_kind(s.files[i]) is Some
                && dir_ancestor(s, d, dir_of(s.files[i].slot)->0 as int) ==> moved_any(
                extra_dir_plan(s, key, d, plan),
                s.files[i].file.id,
            ),
    decreases s.extra_dirs.len() - d, s.extra_dirs.len() - d + 1,
{
    let fin = extra_dir_plan(s, key, d, plan);
    let dir = s.extra_dirs[d];
    let slot = Slot::ExtraDirFile(d as usize);
    let p1 = move_kind_files(s, slot, dir.kind, key, 0, plan);
    let p2 = dir_buckets(s, d, key, 0, p1);
    assert(fin == dir_children(s, d, key, d + 1, p2));
    lemma_move_kind_files(s, slot, dir.kind, key, 0, plan);
    lemma_move_kind_files_moves(s, slot, dir.kind, key, 0, plan);
    lemma_dir_buckets(s, d, key, 0, p1);
    lemma_dir_buckets_moves(s, d, key, 0, p1);
    lemma_dir_children(s, d, key, d + 1, p2);
    lemma_dir_children_moves(s, d, key, d + 1, p2);
    lemma_grows_trans(p1, p2, fin);
    assert forall|i: int|
        0 <= i < s.files.len() && dir_of((#[trigger] s.files[i]).slot) is Some && placed_kind(s.files[i]) is Some
            && dir_ancestor(s, d, dir_of(s.files[i].slot)->0 as int) implies moved_any(fin, s.files[i].file.id) by {
        let e = dir_of(s.files[i].slot)->0 as int;
        let id = s.files[i].file.id;
        let kk = placed_kind(s.files[i])->0;
        lemma_kind_rank(kk);
        if e == d {
            if kk == dir.kind {
                assert(moved_from(p1, plan.len() as int, id, key));
                let j = choose|j: int| plan.len() <= j < p1.len() && #[trigger] p1[j] == (ActionView::Move { id, to: key });
                assert(moved_any(p1, id));
                lemma_moved_any_grows(p1, fin, id);
            } else {
                assert(moved_any(p2, id));
                lemma_moved_any_grows(p2, fin, id);
            }
        } else {
            lemma_dir_ancestor_child(s, d, e);
            let c = choose|c: int|
                d < c <= e && c < s.extra_dirs.len() && s.extra_dirs[c].parent == Some(d as usize)
                    && #[trigger] dir_ancestor(s, c, e);
            assert(dir_ancestor(s, c, e));
        }
    }
}

/// Every extra file below a child of `d` from index `j` on is moved by the
/// plans of those children.
proof fn lemma_dir_children_moves(s: SeriesView, d: int, key: Target, j: int, plan: Seq<ActionView>)
    requires
        series_wf(s),
        0 <= d < j,
    ensures
        forall|i: int|
            0 <= i < s.files.len() && dir_of((#[trigger] s.files[i]).slot) is Some && placed_kind(s.files[i]) is Some
                && (exists|c: int|
                j <= c < s.extra_dirs.len() && s.extra_dirs[c].parent == Some(d as usize) && #[trigger] dir_ancestor(
                    s,
                    c,
                    dir_of(s.files[i].slot)->0 as int,
                )) ==> moved_any(dir_children(s, d, key, j, plan), s.files[i].file.id),
    decreases s.extra_dirs.len() - d, s.extra_dirs.len() - j,
{
    if j < s.extra_dirs.len() {
        let fin = dir_children(s, d, key, j, plan);
        let child = s.extra_dirs[j];
        let c0 = plan.len();
        let p = plan.push(ActionView::Create { parent: key, name: child.name }).push(
            ActionView::AnnotateNode { node: c0 as usize, note: crate::anime::action::rebuild::plan::kind_note(child.kind) },
        );
        let pc = extra_dir_plan(s, Target::Created(c0 as usize), j, p);
        let plan1 = if child.parent == Some(d as usize) {
            pc
        } else {
            plan
        };
        assert(fin == dir_children(s, d, key, j + 1, plan1));
        lemma_dir_children(s, d, key, j + 1, plan1);
        lemma_dir_children_moves(s, d, key, j + 1, plan1);
        lemma_extra_dir_plan_moves(s, Target::Created(c0 as usize), j, p);
        assert forall|i: int|
            0 <= i < s.files.len() && dir_of((#[trigger] s.files[i]).slot) is Some && placed_kind(s.files[i]) is Some
                && (exists|c: int|
                j <= c < s.extra_dirs.len() && s.extra_dirs[c].parent == Some(d as usize) && #[trigger] dir_ancestor(
                    s,
                    c,
                    dir_of(s.files[i].slot)->0 as int,
                )) implies moved_any(fin, s.files[i].file.id) by {
            let e = dir_of(s.files[i].slot)->0 as int;
            let c = choose|c: int|
                j <= c < s.extra_dirs.len() && s.extra_dirs[c].parent == Some(d as usize) && #[trigger] dir_ancestor(
                    s,
                    c,
                    e,
                );
            if c == j {
                lemma_moved_any_grows(pc, fin, s.files[i].file.id);
            } else {
                assert(dir_ancestor(s, c, e));
            }
        }
    }
}

/// Every extra file below a root directory of `root_season` and kind
/// `kind`, from index `i` on, is moved by the bucket's directories.
proof fn lemma_bucket_dirs_moves(
    s: SeriesView,
    root_season: Option<u32>,
    kind: ExtraKind,
    b: usize,
    i: int,
    plan: Seq<ActionView>,
)
    requires
        series_wf(s),
        0 <= i,
    ensures
        forall|x: int|
            0 <= x < s.files.len() && dir_of((#[trigger] s.files[x]).slot) is Some && placed_kind(s.files[x]) is Some
                && (exists|r0: int|
                i <= r0 < s.extra_dirs.len() && is_root_dir(s, r0, root_season) && s.extra_dirs[r0].kind == kind
                    && #[trigger] dir_ancestor(s, r0, dir_of(s.files[x].slot)->0 as int)) ==> moved_any(
                bucket_dirs(s, root_season, kind, b, i, plan),
                s.files[x].file.id,
            ),
    decreases s.extra_dirs.len() - i,
{
    if i < s.extra_dirs.len() {
        let fin = bucket_dirs(s, root_season, kind, b, i, plan);
        let d = s.extra_dirs[i];
        let c0 = plan.len();
        let pn = plan.push(ActionView::Create { parent: Target::Created(b), name: d.name }).push(
            ActionView::AnnotateNode { node: c0 as usize, note: crate::anime::action::rebuild::plan::kind_note(d.kind) },
        );
        let pflat = extra_dir_plan(s, Target::Created(b), i, plan);
        let pnest = extra_dir_plan(s, Target::Created(c0 as usize), i, pn);
        let plan1 = if is_root_dir(s, i, root_season) && d.kind == kind {
            if crate::anime::action::rebuild::tree::spec_same_bucket_name(d.name, spec_extra_bucket_name(kind)) {
                pflat
            } else {
                pnest
            }
        } else {
            plan
        };
        assert(fin == bucket_dirs(s, root_season, kind, b, i + 1, plan1));
        lemma_bucket_dirs(s, root_season, kind, b, i + 1, plan1);
        lemma_bucket_dirs_moves(s, root_season, kind, b, i + 1, plan1);
        lemma_extra_dir_plan_moves(s, Target::Created(b), i, plan);
        lemma_extra_dir_plan_moves(s, Target::Created(c0 as usize), i, pn);
        assert forall|x: int|
            0 <= x < s.files.len() && dir_of((#[trigger] s.files[x]).slot) is Some && placed_kind(s.files[x]) is Some
                && (exists|r0: int|
                i <= r0 < s.extra_dirs.len() && is_root_dir(s, r0, root_season) && s.extra_dirs[r0].kind == kind
                    && #[trigger] dir_ancestor(s, r0, dir_of(s.files[x].slot)->0 as int)) implies moved_any(
            fin,
            s.files[x].file.id,
        ) by {
            let e = dir_of(s.files[x].slot)->0 as int;
            let r0 = choose|r0: int|
                i <= r0 < s.extra_dirs.len() && is_root_dir(s, r0, root_season) && s.extra_dirs[r0].kind == kind
                    && #[trigger] dir_ancestor(s, r0, e);
            if r0 == i {
                lemma_moved_any_grows(plan1, fin, s.files[x].file.id);
            } else {
                assert(dir_ancestor(s, r0, e));
            }
        }
    }
}

/// Every extra file below a root directory of `root_season` whose kind has
/// rank `r` or more is moved by the extras tree.
proof fn lemma_extras_plan_moves_dirs(
    s: SeriesView,
    parent: Target,
    root_season: Option<u32>,
    loose_slot: Slot,
    r: int,
    plan: Seq<ActionView>,
)
    requires
        series_wf(s),
        0 <= r,
    ensures
        forall|x: int|
            0 <= x < s.files.len() && dir_of((#[trigger] s.files[x]).slot) is Some && placed_kind(s.files[x]) is Some
                && (exists|r0: int|
                0 <= r0 < s.extra_dirs.len() && is_root_dir(s, r0, root_season) && kind_rank(s.extra_dirs[r0].kind) >= r
                    && #[trigger] dir_ancestor(s, r0, dir_of(s.files[x].slot)->0 as int)) ==> moved_any(
                extras_plan(s, parent, root_season, loose_slot, r, plan),
                s.files[x].file.id,
            ),
    decreases KIND_COUNT - r,
{
    if r < KIND_COUNT {
        let fin = extras_plan(s, parent, root_season, loose_slot, r, plan);
        let k = kind_of_rank(r);
        let b = plan.len();
        let p = plan.push(ActionView::Create { parent, name: spec_extra_bucket_name(k) }).push(
            ActionView::AnnotateNode { node: b as usize, note: crate::anime::action::rebuild::plan::kind_note(k) },
        );
        let p2 = move_kind_files(s, loose_slot, k, Target::Created(b as usize), 0, p);
        let pb = bucket_dirs(s, root_season, k, b as usize, 0, p2);
        let plan1 = if has_root_of_kind(s, root_season, k) || has_kind_file(s, loose_slot, k) {
            pb
        } else {
            plan
        };
        assert(fin == extras_plan(s, parent, root_season, loose_slot, r + 1, plan1));
        lemma_extras_plan(s, parent, root_season, loose_slot, r + 1, plan1);
        lemma_extras_plan_moves_dirs(s, parent, root_season, loose_slot, r + 1, plan1);
        lemma_bucket_dirs_moves(s, root_season, k, b as usize, 0, p2);
        assert forall|x: int|
            0 <= x < s.files.len() && dir_of((#[trigger] s.files[x]).slot) is Some && placed_kind(s.files[x]) is Some
                && (exists|r0: int|
                0 <= r0 < s.extra_dirs.len() && is_root_dir(s, r0, root_season) && kind_rank(s.extra_dirs[r0].kind)
                    >= r && #[trigger] dir_ancestor(s, r0, dir_of(s.files[x].slot)->0 as int)) implies moved_any(
            fin,
            s.files[x].file.id,
        ) by {
            let e = dir_of(s.files[x].slot)->0 as int;
            let r0 = choose|r0: int|
                0 <= r0 < s.extra_dirs.len() && is_root_dir(s, r0, root_season) && kind_rank(s.extra_dirs[r0].kind)
                    >= r && #[trigger] dir_ancestor(s, r0, e);
            let k0 = s.extra_dirs[r0].kind;
            lemma_kind_rank(k0);
            if kind_rank(k0) == r {
                assert(k0 == k);
                assert(has_root_of_kind(s, root_season, k));
                assert(dir_ancestor(s, r0, e));
                lemma_moved_any_grows(pb, fin, s.files[x].file.id);
            } else {
                assert(dir_ancestor(s, r0, e));
            }
        }
    }
}

/// The files below the root directories of season `n` are moved by its
/// plan.
proof fn lemma_season_plan_moves_dirs(
    s: SeriesView,
    series_key: Target,
    n: u32,
    plan: Seq<ActionView>,
    ids: Seq<(u64, Target)>,
)
    requires
        series_wf(s),
    ensures
        forall|x: int|
            0 <= x < s.files.len() && dir_of((#[trigger] s.files[x]).slot) is Some && placed_kind(s.files[x]) is Some
                && s.extra_dirs[dir_root(s, dir_of(s.files[x].slot)->0 as int)].season == Some(n) ==> moved_any(
                season_plan(s, series_key, n, plan, ids).0,
                s.files[x].file.id,
            ),
{
    reveal(season_plan);
    let fin = season_plan(s, series_key, n, plan, ids).0;
    let sk = plan.len() as usize;
    let p0 = plan.push(ActionView::Create { parent: series_key, name: season_dir_name(n) });
    let pe = move_main_files(s, Slot::SeasonEpisode(n), Target::Created(sk), Some(n), 0, p0);
    let uk = pe.len() as usize;
    let pu = pe.push(ActionView::Create { parent: Target::Created(sk), name: "unknown"@ });
    let pm = move_main_files(s, Slot::SeasonUnknown(n), Target::Created(uk), Some(n), 0, pu);
    let p1 = if crate::anime::action::rebuild::tree::has_season_bucket(s, n) {
        if crate::anime::action::rebuild::tree::has_slot(s, Slot::SeasonUnknown(n)) {
            pm
        } else {
            pe
        }
    } else {
        p0
    };
    let ek = p1.len() as usize;
    let px = p1.push(ActionView::Create { parent: Target::Created(sk), name: "extras"@ });
    lemma_extras_plan_moves_dirs(s, Target::Created(ek), Some(n), Slot::SeasonLoose(n), 0, px);
    assert forall|x: int|
        0 <= x < s.files.len() && dir_of((#[trigger] s.files[x]).slot) is Some && placed_kind(s.files[x]) is Some
            && s.extra_dirs[dir_root(s, dir_of(s.files[x].slot)->0 as int)].season == Some(n) implies moved_any(
        fin,
        s.files[x].file.id,
    ) by {
        let e = dir_of(s.files[x].slot)->0 as int;
        lemma_dir_root(s, e);
        let r0 = dir_root(s, e);
        assert(is_root_dir(s, r0, Some(n)));
        assert(crate::anime::action::rebuild::tree::has_root(s, Some(n)));
        lemma_kind_rank(s.extra_dirs[r0].kind);
        assert(dir_ancestor(s, r0, e));
        assert(fin == extras_plan(s, Target::Created(ek), Some(n), Slot::SeasonLoose(n), 0, px));
    }
}

/// The files below the root directories of every season from `lo` on are
/// moved.
proof fn lemma_seasons_plan_moves_dirs(
    s: SeriesView,
    series_key: Target,
    lo: int,
    plan: Seq<ActionView>,
    ids: Seq<(u64, Target)>,
)
    requires
        series_wf(s),
        0 <= lo,
    ensures
        forall|x: int|
            0 <= x < s.files.len() && dir_of((#[trigger] s.files[x]).slot) is Some && placed_kind(s.files[x]) is Some
                && s.extra_dirs[dir_root(s, dir_of(s.files[x].slot)->0 as int)].season is Some
                && s.extra_dirs[dir_root(s, dir_of(s.files[x].slot)->0 as int)].season->0 >= lo ==> moved_any(
                seasons_plan(s, series_key, lo, plan, ids).0,
                s.files[x].file.id,
            ),
    decreases u32::MAX + 1 - lo,
{
    let fin = seasons_plan(s, series_key, lo, plan, ids).0;
    lemma_least_season_facts(s, lo);
    assert forall|x: int|
        0 <= x < s.files.len() && dir_of((#[trigger] s.files[x]).slot) is Some && placed_kind(s.files[x]) is Some
            && s.extra_dirs[dir_root(s, dir_of(s.files[x].slot)->0 as int)].season is Some
            && s.extra_dirs[dir_root(s, dir_of(s.files[x].slot)->0 as int)].season->0 >= lo implies moved_any(
        fin,
        s.files[x].file.id,
    ) by {
        let e = dir_of(s.files[x].slot)->0 as int;
        lemma_dir_root(s, e);
        let r0 = dir_root(s, e);
        let n = s.extra_dirs[r0].season->0;
        assert(is_root_dir(s, r0, Some(n)));
        assert(crate::anime::action::rebuild::tree::has_root(s, Some(n)));
        assert(is_season(s, n));
        let m = least_season_from(s, lo)->0;
        assert(m <= n);
        let (p, i2) = season_plan(s, series_key, m, plan, ids);
        assert(fin == seasons_plan(s, series_key, m + 1, p, i2).0);
        if n == m {
            lemma_season_plan_moves_dirs(s, series_key, m, plan, ids);
            lemma_seasons_plan(s, series_key, m + 1, p, i2);
            lemma_moved_any_grows(p, fin, s.files[x].file.id);
        } else {
            lemma_seasons_plan_moves_dirs(s, series_key, m + 1, p, i2);
        }
    }
}

/// Law: in a well-formed parse, the plan of a series moves every extra
/// file kept inside an extra directory: the extras trees of the seasons
/// and of the series leave none of them behind.
pub proof fn lemma_series_plan_moves_dir_extras(s: SeriesView, plan: Seq<ActionView>)
    requires
        series_wf(s),
    ensures
        forall|i: int|
            0 <= i < s.files.len() && dir_of((#[trigger] s.files[i]).slot) is Some && placed_kind(s.files[i]) is Some
                ==> moved_any(series_plan(s, plan), s.files[i].file.id),
{
    let key = Target::Created(plan.len() as usize);
    let fin = series_plan(s, plan);
    let p0 = plan.push(ActionView::Create { parent: Target::Root, name: s.name });
    lemma_seasons_plan_moves_dirs(s, key, 0, p0, seq![]);
    lemma_series_plan(s, plan);
    let (p1, ids1) = seasons_plan(s, key, 0, p0, seq![]);
    let ek = p1.len() as usize;
    let pe = p1.push(ActionView::Create { parent: key, name: "extras"@ });
    let pf = extras_plan(s, Target::Created(ek), None, Slot::LooseExtra, 0, pe);
    lemma_extras_plan_moves_dirs(s, Target::Created(ek), None, Slot::LooseExtra, 0, pe);
    lemma_extras_plan(s, Target::Created(ek), None, Slot::LooseExtra, 0, pe);
    let (p2, ids2) = if crate::anime::action::rebuild::tree::has_root(s, None)
        || crate::anime::action::rebuild::tree::has_slot(s, Slot::LooseExtra) {
        (
            pf,
            ids1 + crate::anime::action::rebuild::tree::tagged(
                crate::anime::action::rebuild::tree::root_ids(s, None, 0),
                Target::Created(ek),
            ),
        )
    } else {
        (p1, ids1)
    };
    let uk = p2.len() as usize;
    let pu = p2.push(ActionView::Create { parent: key, name: "unknown"@ });
    let pm = move_main_files(s, Slot::SeriesUnknown, Target::Created(uk), None, 0, pu);
    lemma_push_create(p2, key, "unknown"@);
    lemma_move_main_files(s, Slot::SeriesUnknown, Target::Created(uk), None, 0, pu);
    lemma_grows_trans(p2, pu, pm);
    let p3 = if crate::anime::action::rebuild::tree::has_slot(s, Slot::SeriesUnknown) {
        pm
    } else {
        p2
    };
    assert(grows(p2, p2));
    let p4 = deletes_rev(ids2, p3);
    lemma_deletes_rev(ids2, p3);
    let raw = crate::anime::action::rebuild::tree::tagged(s.dirs_to_delete, key);
    lemma_deletes_rev(raw, p4);
    assert(fin == deletes_rev(raw, p4));
    lemma_grows_trans(p3, p4, fin);
    lemma_grows_trans(p2, p3, fin);
    assert forall|i: int|
        0 <= i < s.files.len() && dir_of((#[trigger] s.files[i]).slot) is Some && placed_kind(s.files[i]) is Some
            implies moved_any(fin, s.files[i].file.id) by {
        let e = dir_of(s.files[i].slot)->0 as int;
        assert(s.files[i].slot == Slot::ExtraDirFile(e as usize));
        lemma_dir_root(s, e);
        let r0 = dir_root(s, e);
        match s.extra_dirs[r0].season {
            Some(n) => {
                lemma_moved_any_grows(p1, fin, s.files[i].file.id);
            },
            None => {
                assert(is_root_dir(s, r0, None));
                assert(crate::anime::action::rebuild::tree::has_root(s, None));
                lemma_kind_rank(s.extra_dirs[r0].kind);
                assert(dir_ancestor(s, r0, e));
                lemma_moved_any_grows(pf, fin, s.files[i].file.id);
            },
        }
    }
}

proof fn lemma_placed_moved(q: Seq<ActionView>, id: u64, parent: Target, name: Seq<char>)
    ensures
        placed_under(q, id, parent, name) ==> moved_any(q, id),
{
    if placed_under(q, id, parent, name) {
        let (k, j) = choose|k: int, j: int|
            0 <= k < j < q.len() && #[trigger] q[k] == ActionView::Create { parent, name } && #[trigger] q[j]
                == ActionView::Move { id, to: Target::Created(k as usize) };
        assert(q[j] is Move);
    }
}

/// Law: the plan of a well-formed series whose extras carry their kind
/// (as every parse does) moves every one of its nodes: main episodes,
/// season and series `unknown` members, loose extras, and the files of
/// its extra directories.
pub proof fn lemma_series_plan_moves_every_file(s: SeriesView, plan: Seq<ActionView>)
    requires
        series_wf(s),
        extras_tagged(s),
    ensures
        forall|i: int| 0 <= i < s.files.len() ==> moved_any(series_plan(s, plan), (#[trigger] s.files[i]).file.id),
{
    let q = series_plan(s, plan);
    let key = Target::Created(plan.len() as usize);
    lemma_series_plan_places_files(s, plan);
    lemma_series_plan_places_loose_extras(s, plan);
    lemma_series_plan_moves_dir_extras(s, plan);
    assert forall|i: int| 0 <= i < s.files.len() implies moved_any(q, (#[trigger] s.files[i]).file.id) by {
        let x = s.files[i];
        let id = x.file.id;
        assert(placed_in_series(q, id, key, x.slot));
        assert(loose_extra_placed(q, key, x));
        match x.slot {
            Slot::SeasonEpisode(n) => {
                lemma_placed_moved(q, id, key, season_dir_name(n));
            },
            Slot::SeasonUnknown(n) => {
                let k = choose|k: int|
                    0 <= k < q.len() && #[trigger] q[k] == (ActionView::Create {
                        parent: key,
                        name: season_dir_name(n),
                    }) && placed_under(q, id, Target::Created(k as usize), "unknown"@);
                lemma_placed_moved(q, id, Target::Created(k as usize), "unknown"@);
            },
            Slot::SeriesUnknown => {
                lemma_placed_moved(q, id, key, "unknown"@);
            },
            Slot::SeasonLoose(n) => {
                assert(is_extra_slot(x.slot));
                let kk = placed_kind(x)->0;
                let ks = choose|ks: int|
                    0 <= ks < q.len() && #[trigger] q[ks] == (ActionView::Create {
                        parent: key,
                        name: season_dir_name(n),
                    }) && placed_in_extras(q, id, Target::Created(ks as usize), kk);
                let ke = choose|ke: int|
                    0 <= ke < q.len() && #[trigger] q[ke] == (ActionView::Create {
                        parent: Target::Created(ks as usize),
                        name: "extras"@,
                    }) && placed_under(q, id, Target::Created(ke as usize), spec_extra_bucket_name(kk));
                lemma_placed_moved(q, id, Target::Created(ke as usize), spec_extra_bucket_name(kk));
            },
            Slot::LooseExtra => {
                assert(is_extra_slot(x.slot));
                let kk = placed_kind(x)->0;
                let ke = choose|ke: int|
                    0 <= ke < q.len() && #[trigger] q[ke] == (ActionView::Create { parent: key, name: "extras"@ })
                        && placed_under(q, id, Target::Created(ke as usize), spec_extra_bucket_name(kk));
                lemma_placed_moved(q, id, Target::Created(ke as usize), spec_extra_bucket_name(kk));
            },
            Slot::ExtraDirFile(d) => {
                assert(is_extra_slot(x.slot));
                assert(dir_of(x.slot) is Some);
            },
        }
    }
}

proof fn lemma_series_list_plan_moves(list: Seq<SeriesView>, plan: Seq<ActionView>)
    requires
        forall|k: int| 0 <= k < list.len() ==> series_wf(#[trigger] list[k]) && extras_tagged(list[k]),
    ensures
        forall|m: int, j: int|
            0 <= m < list.len() && 0 <= j < list[m].files.len() ==> moved_any(
                series_list_plan(list, plan),
                (#[trigger] list[m].files[j]).file.id,
            ),
    decreases list.len(),
{
    if list.len() > 0 {
        let pre = list.drop_last();
        let last = list.last();
        assert forall|k: int| 0 <= k < pre.len() implies series_wf(#[trigger] pre[k]) && extras_tagged(pre[k]) by {
            assert(pre[k] == list[k]);
        }
        lemma_series_list_plan_moves(pre, plan);
        let prev = series_list_plan(pre, plan);
        let res = series_list_plan(list, plan);
        assert(res == series_plan(last, prev));
        assert(series_wf(list[list.len() - 1]) && extras_tagged(list[list.len() - 1]));
        lemma_series_plan_moves_every_file(last, prev);
        lemma_series_plan(last, prev);
        assert forall|m: int, j: int| 0 <= m < list.len() && 0 <= j < list[m].files.len() implies moved_any(
            res,
            (#[trigger] list[m].files[j]).file.id,
        ) by {
            if m < pre.len() {
                assert(pre[m] == list[m]);
                assert(moved_any(prev, pre[m].files[j].file.id));
                lemma_moved_any_grows(prev, res, list[m].files[j].file.id);
            } else {
                assert(list[m] == last);
            }
        }
    }
}

proof fn lemma_series_roots_tagged(roots: Seq<RawNode>)
    ensures
        forall|i: int| 0 <= i < series_roots(roots).len() ==> extras_tagged(#[trigger] series_roots(roots)[i]),
    decreases roots.len(),
{
    if roots.len() > 0 {
        lemma_series_roots_tagged(roots.drop_last());
        let pre = series_roots(roots.drop_last());
        if roots.last().kind == Some(crate::anime::action::rebuild::model::NodeKind::Directory) {
            crate::anime::action::rebuild::walk::lemma_parse_series_extras_tagged(roots.last());
            let all = series_roots(roots);
            assert forall|i: int| 0 <= i < all.len() implies extras_tagged(#[trigger] all[i]) by {
                if i < pre.len() {
                    assert(all[i] == pre[i]);
                }
            }
        }
    }
}

/// Law: the rebuild plan moves every node that it collects: each
/// top-level file, and each node of every directory root's parse, once the
/// series that share a title are merged. Stated of trees whose node count
/// fits a `usize`, as `rebuild_plan` requires.
pub proof fn lemma_rebuild_plan_moves_every_node(roots: Seq<RawNode>)
    requires
        crate::anime::action::rebuild::total_nodes(roots) <= usize::MAX,
    ensures
        forall|t: int|
            0 <= t < crate::anime::action::rebuild::top_file_ids(roots).len() ==> moved_any(
                spec_rebuild_plan(roots),
                #[trigger] crate::anime::action::rebuild::top_file_ids(roots)[t],
            ),
        forall|k: int, i: int|
            0 <= k < series_roots(roots).len() && 0 <= i < series_roots(roots)[k].files.len() ==> moved_any(
                spec_rebuild_plan(roots),
                (#[trigger] series_roots(roots)[k].files[i]).file.id,
            ),
{
    let tops = crate::anime::action::rebuild::top_file_ids(roots);
    let p0 = top_plan(tops);
    lemma_top_moves(tops);
    let list = series_roots(roots);
    crate::anime::action::rebuild::lemma_series_roots(roots);
    lemma_series_roots_tagged(roots);
    crate::anime::action::rebuild::walk::lemma_merge_series_keeps_nodes(list);
    let merged = spec_merge_series(list);
    lemma_series_list_plan_moves(merged, p0);
    lemma_series_list_plan(merged, p0);
    let p1 = series_list_plan(merged, p0);
    let orphans = crate::anime::action::rebuild::orphan_ids(roots);
    let all = spec_rebuild_plan(roots);
    let tail = orphans.map_values(|id: u64| ActionView::Delete { id, under: Target::Root });
    assert(all == p1 + tail);
    assert(grows(p1, all));
    assert forall|t: int| 0 <= t < tops.len() implies moved_any(all, #[trigger] tops[t]) by {
        assert(tops.len() > 0);
        assert(p0 == seq![ActionView::Create { parent: Target::Root, name: "unknown"@ }] + top_moves(tops));
        assert(top_moves(tops)[2 * t] == ActionView::Move { id: tops[t], to: Target::Created(0) });
        assert(p0[2 * t + 1] == top_moves(tops)[2 * t]);
        assert(p0[2 * t + 1] is Move);
        assert(moved_any(p0, tops[t]));
        lemma_moved_any_grows(p0, p1, tops[t]);
        lemma_moved_any_grows(p1, all, tops[t]);
    }
    assert forall|k: int, i: int| 0 <= k < list.len() && 0 <= i < list[k].files.len() implies moved_any(
        all,
        (#[trigger] list[k].files[i]).file.id,
    ) by {
        let id = list[k].files[i].file.id;
        assert(crate::anime::action::rebuild::walk::has_file_id(merged, id));
        let (mm, jj) = choose|mm: int, jj: int|
            0 <= mm < merged.len() && 0 <= jj < merged[mm].files.len() && (#[trigger] merged[mm].files[jj]).file.id
                == id;
        assert(moved_any(p1, merged[mm].files[jj].file.id));
        lemma_moved_any_grows(p1, all, id);
    }
}

} // verus!
