//! The rebuild plan: the host operations that rewrite the raw tree, in
//! order. Nodes made by the plan are named by the index of the action
//! that creates them; an action whose node could not be created is
//! skipped together with everything placed under it.
use vstd::prelude::*;

use crate::anime::action::matcher::extra::spec_extra_kind_str;
use crate::anime::action::matcher::info::ExtraKind;
use crate::text::opt_view;

verus! {

/// A node an action works under: the tree root, or the node made by the
/// plan's action with this index.
#[derive(Debug, Clone, Copy, PartialEq, Eq, Structural)]
pub enum Target {
    Root,
    Created(usize),
}

/// The episode annotation written into a node's `extend` map.
#[derive(Debug, Clone, PartialEq)]
pub struct EpisodeNote {
    pub season_number: Option<u32>,
    pub episode_number: Option<u32>,
    pub extra_kind: Option<String>,
    pub extra_title: Option<String>,
    pub extra_tag: Option<String>,
}

pub struct NoteView {
    pub season_number: Option<u32>,
    pub episode_number: Option<u32>,
    pub extra_kind: Option<Seq<char>>,
    pub extra_title: Option<Seq<char>>,
    pub extra_tag: Option<Seq<char>>,
}

impl View for EpisodeNote {
    type V = NoteView;

    open spec fn view(&self) -> NoteView {
        NoteView {
            season_number: self.season_number,
            episode_number: self.episode_number,
            extra_kind: opt_view(self.extra_kind),
            extra_title: opt_view(self.extra_title),
            extra_tag: opt_view(self.extra_tag),
        }
    }
}

/// One host operation.
#[derive(Debug, Clone, PartialEq)]
pub enum Action {
    /// Create a virtual node called `name` under `parent`.
    Create { parent: Target, name: String },
    /// Move node `id` (with its subtree) under `to`.
    Move { id: u64, to: Target },
    /// Write `note` into node `id`, which sits under `under`.
    AnnotateFile { id: u64, under: Target, note: EpisodeNote },
    /// Write `note` into the node created by action `node`.
    AnnotateNode { node: usize, note: EpisodeNote },
    /// Register file node `id`, which sits under `under`, in the path mapping.
    PushDataFile { id: u64, under: Target },
    /// Delete node `id`; done only when `under` exists.
    Delete { id: u64, under: Target },
}

pub enum ActionView {
    Create { parent: Target, name: Seq<char> },
    Move { id: u64, to: Target },
    AnnotateFile { id: u64, under: Target, note: NoteView },
    AnnotateNode { node: usize, note: NoteView },
    PushDataFile { id: u64, under: Target },
    Delete { id: u64, under: Target },
}

impl View for Action {
    type V = ActionView;

    open spec fn view(&self) -> ActionView {
        match self {
            Action::Create { parent, name } => ActionView::Create { parent: *parent, name: name@ },
            Action::Move { id, to } => ActionView::Move { id: *id, to: *to },
            Action::AnnotateFile { id, under, note } => ActionView::AnnotateFile {
                id: *id,
                under: *under,
                note: note@,
            },
            Action::AnnotateNode { node, note } => ActionView::AnnotateNode {
                node: *node,
                note: note@,
            },
            Action::PushDataFile { id, under } => ActionView::PushDataFile { id: *id, under: *under },
            Action::Delete { id, under } => ActionView::Delete { id: *id, under: *under },
        }
    }
}

/// The view of a plan.
pub open spec fn plan_view(plan: Seq<Action>) -> Seq<ActionView> {
    plan.map_values(|a: Action| a@)
}

/// Append an action to the plan.
pub fn emit(plan: &mut Vec<Action>, a: Action)
    ensures
        plan_view(final(plan)@) == plan_view(old(plan)@).push(a@),
{
    let ghost a_view = a@;
    plan.push(a);
    proof {
        assert(plan_view(plan@) =~= plan_view(old(plan)@).push(a_view));
    }
}

/// Note of an extra directory or bucket: its kind only.
pub open spec fn kind_note(kind: ExtraKind) -> NoteView {
    NoteView {
        season_number: None,
        episode_number: None,
        extra_kind: Some(spec_extra_kind_str(kind)),
        extra_title: None,
        extra_tag: None,
    }
}

/// Note of a main file: its season and episode numbers.
pub open spec fn file_note(season: Option<u32>, episode: Option<u32>) -> NoteView {
    NoteView {
        season_number: season,
        episode_number: episode,
        extra_kind: None,
        extra_title: None,
        extra_tag: None,
    }
}

/// Every reference to a created node points to an earlier `Create`.
pub open spec fn target_ok(plan: Seq<ActionView>, at: int, t: Target) -> bool {
    match t {
        Target::Root => true,
        Target::Created(k) => (k as int) < at && plan[k as int] is Create,
    }
}

/// An action at position `at` refers only to nodes created before it.
pub open spec fn action_ok(plan: Seq<ActionView>, at: int, a: ActionView) -> bool {
    match a {
        ActionView::Create { parent, .. } => target_ok(plan, at, parent),
        ActionView::Move { to, .. } => target_ok(plan, at, to),
        ActionView::AnnotateFile { under, .. } => target_ok(plan, at, under),
        ActionView::AnnotateNode { node, .. } => target_ok(plan, at, Target::Created(node)),
        ActionView::PushDataFile { under, .. } => target_ok(plan, at, under),
        ActionView::Delete { under, .. } => target_ok(plan, at, under),
    }
}

/// The plan only refers to nodes it created before.
pub open spec fn plan_wf(plan: Seq<ActionView>) -> bool {
    forall|j: int| 0 <= j < plan.len() ==> action_ok(plan, j, #[trigger] plan[j])
}

/// A host node an action is performed at: the tree root, or a node that
/// an earlier `Create` of the plan made, by its host id.
#[derive(Debug, Clone, Copy, PartialEq, Eq, Structural)]
pub enum NodeRef {
    Root,
    Node(u64),
}

/// The node an action works under: its parent, destination or guard.
pub open spec fn guard_of(a: ActionView) -> Target {
    match a {
        ActionView::Create { parent, .. } => parent,
        ActionView::Move { to, .. } => to,
        ActionView::AnnotateFile { under, .. } => under,
        ActionView::AnnotateNode { node, .. } => Target::Created(node),
        ActionView::PushDataFile { under, .. } => under,
        ActionView::Delete { under, .. } => under,
    }
}

/// `t` as a host node, given the outcome of each earlier action of the
/// plan (`Some(id)` for a `Create` that made node `id`, `None` for one that
/// failed and for any other action): `None` when `t` was not made.
pub open spec fn spec_resolve(created: Seq<Option<u64>>, t: Target) -> Option<NodeRef> {
    match t {
        Target::Root => Some(NodeRef::Root),
        Target::Created(k) => if (k as int) < created.len() {
            match created[k as int] {
                Some(id) => Some(NodeRef::Node(id)),
                None => None,
            }
        } else {
            None
        },
    }
}

/// Where to perform `a`, given the outcomes of the actions before it:
/// the node it works under, or `None` when that node was never made, in
/// which case `a` is skipped. So a failed `Create` skips everything the
/// plan puts under that node.
pub fn perform_at(a: &Action, created: &Vec<Option<u64>>) -> (r: Option<NodeRef>)
    ensures
        r == spec_resolve(created@, guard_of(a@)),
{
    let t = match a {
        Action::Create { parent, .. } => *parent,
        Action::Move { to, .. } => *to,
        Action::AnnotateFile { under, .. } => *under,
        Action::AnnotateNode { node, .. } => Target::Created(*node),
        Action::PushDataFile { under, .. } => *under,
        Action::Delete { under, .. } => *under,
    };
    match t {
        Target::Root => Some(NodeRef::Root),
        Target::Created(k) => if k < created.len() {
            match created[k] {
                Some(id) => Some(NodeRef::Node(id)),
                None => None,
            }
        } else {
            None
        },
    }
}

} // verus!
