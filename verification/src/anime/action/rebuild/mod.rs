//! Rebuild of the raw metadata tree into the canonical anime structure.
//!
//! The raw tree is read by the host side into [`model::RawNode`] values;
//! [`rebuild_plan`] decides everything and returns the host operations
//! ([`plan::Action`]) that rewrite the tree.
pub mod laws;
pub mod model;
pub mod plan;
pub mod rules;
pub mod tree;
pub mod walk;

use vstd::prelude::*;

use crate::anime::action::rebuild::model::{NodeKind, ParsedSeries, RawNode, SeriesView};
use crate::anime::action::rebuild::plan::{emit, plan_view, Action, ActionView, Target};
use crate::anime::action::rebuild::tree::{rebuild_series, series_plan};
use crate::anime::action::rebuild::walk::{
    indices_fit, lemma_parse_series_wf, lemma_wf_indices_fit, merge_series, node_count, parse_series, series_views, series_wf,
    spec_merge_series, spec_parse_series, total_extra_dirs,
};

verus! {

/// Parses of the directory roots, in order.
pub open spec fn series_roots(roots: Seq<RawNode>) -> Seq<SeriesView>
    decreases roots.len(),
{
    if roots.len() == 0 {
        seq![]
    } else if roots.last().kind == Some(NodeKind::Directory) {
        series_roots(roots.drop_last()).push(spec_parse_series(roots.last()))
    } else {
        series_roots(roots.drop_last())
    }
}

/// Ids of the top-level nodes that are neither directories nor virtual
/// (plain files, and nodes without a type).
pub open spec fn top_file_ids(roots: Seq<RawNode>) -> Seq<u64>
    decreases roots.len(),
{
    if roots.len() == 0 {
        seq![]
    } else if roots.last().kind != Some(NodeKind::Directory) && roots.last().kind != Some(NodeKind::Virtual) {
        top_file_ids(roots.drop_last()).push(roots.last().id)
    } else {
        top_file_ids(roots.drop_last())
    }
}

/// Ids of the top-level virtual nodes: shells left by a previous run.
pub open spec fn orphan_ids(roots: Seq<RawNode>) -> Seq<u64>
    decreases roots.len(),
{
    if roots.len() == 0 {
        seq![]
    } else if roots.last().kind == Some(NodeKind::Virtual) {
        orphan_ids(roots.drop_last()).push(roots.last().id)
    } else {
        orphan_ids(roots.drop_last())
    }
}

/// Number of nodes in all the root subtrees.
pub open spec fn total_nodes(roots: Seq<RawNode>) -> nat
    decreases roots.len(),
{
    if roots.len() == 0 {
        0
    } else {
        total_nodes(roots.drop_last()) + node_count(roots.last())
    }
}

/// The series plans one after the other.
pub open spec fn series_list_plan(list: Seq<SeriesView>, plan: Seq<ActionView>) -> Seq<ActionView>
    decreases list.len(),
{
    if list.len() == 0 {
        plan
    } else {
        series_plan(list.last(), series_list_plan(list.drop_last(), plan))
    }
}

/// Each top-level file moved under the top-level `unknown` (the plan's
/// first node) and registered there.
pub open spec fn top_moves(tops: Seq<u64>) -> Seq<ActionView>
    decreases tops.len(),
{
    if tops.len() == 0 {
        seq![]
    } else {
        top_moves(tops.drop_last()) + seq![
            ActionView::Move { id: tops.last(), to: Target::Created(0) },
            ActionView::PushDataFile { id: tops.last(), under: Target::Created(0) },
        ]
    }
}

/// The start of the plan: the top-level `unknown` and its files, when
/// there are top-level files.
pub open spec fn top_plan(tops: Seq<u64>) -> Seq<ActionView> {
    if tops.len() > 0 {
        seq![ActionView::Create { parent: Target::Root, name: "unknown"@ }] + top_moves(tops)
    } else {
        seq![]
    }
}

/// The whole rebuild: top-level files moved under a virtual `unknown`,
/// the merged series rebuilt one after the other, then the leftover
/// virtual shells deleted.
pub open spec fn spec_rebuild_plan(roots: Seq<RawNode>) -> Seq<ActionView> {
    let p0 = top_plan(top_file_ids(roots));
    let p1 = series_list_plan(spec_merge_series(series_roots(roots)), p0);
    p1 + orphan_ids(roots).map_values(|id: u64| ActionView::Delete { id, under: Target::Root })
}

pub(crate) proof fn lemma_series_roots(roots: Seq<RawNode>)
    ensures
        forall|i: int| 0 <= i < series_roots(roots).len() ==> series_wf(#[trigger] series_roots(roots)[i]),
        total_extra_dirs(series_roots(roots)) <= total_nodes(roots),
    decreases roots.len(),
{
    if roots.len() > 0 {
        lemma_series_roots(roots.drop_last());
        if roots.last().kind == Some(NodeKind::Directory) {
            lemma_parse_series_wf(roots.last());
            let pre = series_roots(roots.drop_last());
            let all = pre.push(spec_parse_series(roots.last()));
            assert(all.drop_last() =~= pre);
            assert forall|i: int| 0 <= i < all.len() implies series_wf(#[trigger] all[i]) by {
                if i < pre.len() {
                    assert(all[i] == pre[i]);
                }
            }
        }
    }
}

/// Rebuild every top-level node into the canonical tree structure.
///
/// Phase 1 parses all top-level nodes. Phase 2 merges same-title series,
/// moves unplaceable top-level files under `unknown`, rebuilds each
/// series, and deletes orphaned virtual shells from previous runs. Every
/// file node placed by a series rebuild is registered in the path
/// mapping.
pub fn rebuild_plan(roots: &Vec<RawNode>) -> (r: Vec<Action>)
    requires
        total_nodes(roots@) <= usize::MAX,
    ensures
        plan_view(r@) == spec_rebuild_plan(roots@),
{
    let mut list: Vec<ParsedSeries> = Vec::new();
    let mut tops: Vec<u64> = Vec::new();
    let mut orphans: Vec<u64> = Vec::new();
    let mut i: usize = 0;
    while i < roots.len()
        invariant
            i <= roots@.len(),
            series_views(list@) == series_roots(roots@.take(i as int)),
            tops@ == top_file_ids(roots@.take(i as int)),
            orphans@ == orphan_ids(roots@.take(i as int)),
        decreases roots.len() - i,
    {
        let node = &roots[i];
        proof {
            let t = roots@.take(i + 1);
            assert(t.drop_last() =~= roots@.take(i as int));
            assert(t.last() == *node);
        }
        match node.kind {
            Some(NodeKind::Directory) => {
                let s = parse_series(node);
                let ghost before = list@;
                list.push(s);
                proof {
                    assert(series_views(list@) =~= series_views(before).push(s@));
                }
            },
            Some(NodeKind::Virtual) => {
                orphans.push(node.id);
            },
            _ => {
                tops.push(node.id);
            },
        }
        i = i + 1;
    }
    proof {
        assert(roots@.take(roots@.len() as int) =~= roots@);
        lemma_series_roots(roots@);
        assert forall|k: int| 0 <= k < list@.len() implies indices_fit(
            #[trigger] list@[k]@,
            total_extra_dirs(series_views(list@).take(k)) as int,
        ) by {
            assert(series_views(list@)[k] == list@[k]@);
            lemma_wf_indices_fit(series_views(list@), k);
        }
    }
    let merged = merge_series(list);
    let mut plan: Vec<Action> = Vec::new();
    proof {
        assert(plan_view(plan@) =~= Seq::<ActionView>::empty());
    }
    if tops.len() > 0 {
        emit(&mut plan, Action::Create { parent: Target::Root, name: "unknown".to_string() });
        let mut j: usize = 0;
        while j < tops.len()
            invariant
                j <= tops@.len(),
                plan_view(plan@) == seq![ActionView::Create { parent: Target::Root, name: "unknown"@ }]
                    + top_moves(tops@.take(j as int)),
            decreases tops.len() - j,
        {
            let ghost before = plan_view(plan@);
            emit(&mut plan, Action::Move { id: tops[j], to: Target::Created(0) });
            emit(&mut plan, Action::PushDataFile { id: tops[j], under: Target::Created(0) });
            proof {
                let t = tops@.take(j + 1);
                assert(t.drop_last() =~= tops@.take(j as int));
                assert(t.last() == tops@[j as int]);
                assert(plan_view(plan@) =~= seq![ActionView::Create { parent: Target::Root, name: "unknown"@ }]
                    + top_moves(t));
            }
            j = j + 1;
        }
        proof {
            assert(tops@.take(tops@.len() as int) =~= tops@);
        }
    }
    let ghost p0 = plan_view(plan@);
    let ghost ms = series_views(merged@);
    let mut k: usize = 0;
    while k < merged.len()
        invariant
            k <= merged@.len(),
            ms == series_views(merged@),
            plan_view(plan@) == series_list_plan(ms.take(k as int), p0),
        decreases merged.len() - k,
    {
        rebuild_series(&merged[k], &mut plan);
        proof {
            let t = ms.take(k + 1);
            assert(t.drop_last() =~= ms.take(k as int));
            assert(t.last() == merged@[k as int]@);
        }
        k = k + 1;
    }
    proof {
        assert(ms.take(ms.len() as int) =~= ms);
    }
    let ghost p1 = plan_view(plan@);
    let mut j: usize = 0;
    while j < orphans.len()
        invariant
            j <= orphans@.len(),
            plan_view(plan@) == p1 + orphans@.take(j as int).map_values(
                |id: u64| ActionView::Delete { id, under: Target::Root },
            ),
        decreases orphans.len() - j,
    {
        emit(&mut plan, Action::Delete { id: orphans[j], under: Target::Root });
        j = j + 1;
        proof {
            assert(plan_view(plan@) =~= p1 + orphans@.take(j as int).map_values(
                |id: u64| ActionView::Delete { id, under: Target::Root },
            ));
        }
    }
    proof {
        assert(orphans@.take(orphans@.len() as int) =~= orphans@);
        reveal_strlit("unknown");
    }
    plan
}

} // verus!
