use cosmox_plugin_anime::anime::action::rebuild::model::{NodeKind, RawNode, Slot};
use cosmox_plugin_anime::anime::action::rebuild::plan::{perform_at, Action, EpisodeNote, NodeRef, Target};
use cosmox_plugin_anime::anime::action::rebuild::rebuild_plan;
use cosmox_plugin_anime::anime::action::rebuild::walk::{merge_series, parse_series};

fn node(id: u64, kind: NodeKind, name: &str, children: Vec<RawNode>) -> RawNode {
    RawNode { id, kind: Some(kind), name: Some(name.to_string()), children }
}

fn file(id: u64, name: &str) -> RawNode {
    node(id, NodeKind::File, name, vec![])
}

fn dir(id: u64, name: &str, children: Vec<RawNode>) -> RawNode {
    node(id, NodeKind::Directory, name, children)
}

fn create(parent: Target, name: &str) -> Action {
    Action::Create { parent, name: name.to_string() }
}

fn c(k: usize) -> Target {
    Target::Created(k)
}

fn file_note(season: Option<u32>, episode: Option<u32>) -> EpisodeNote {
    EpisodeNote { season_number: season, episode_number: episode, extra_kind: None, extra_title: None, extra_tag: None }
}

fn kind_note(kind: &str) -> EpisodeNote {
    EpisodeNote {
        season_number: None,
        episode_number: None,
        extra_kind: Some(kind.to_string()),
        extra_title: None,
        extra_tag: None,
    }
}

fn main_file(plan: &mut Vec<Action>, id: u64, under: Target, season: u32, episode: u32) {
    plan.push(Action::Move { id, to: under });
    plan.push(Action::AnnotateFile { id, under, note: file_note(Some(season), Some(episode)) });
    plan.push(Action::PushDataFile { id, under });
}

#[test]
fn rebuild_plan_of_a_series_with_an_extra_directory() {
    let roots = vec![dir(
        1,
        "Frieren",
        vec![
            file(2, "Frieren - 01 [1080p].mkv"),
            file(3, "Frieren - 02 [1080p].mkv"),
            dir(4, "SPs", vec![file(5, "NCOP1.mkv")]),
        ],
    )];
    let mut expected = vec![create(Target::Root, "Frieren"), create(c(0), "Season 1")];
    main_file(&mut expected, 2, c(1), 1, 1);
    main_file(&mut expected, 3, c(1), 1, 2);
    expected.push(create(c(0), "extras"));
    expected.push(create(c(8), "Extras"));
    expected.push(Action::AnnotateNode { node: 9, note: kind_note("generic") });
    expected.push(create(c(9), "SPs"));
    expected.push(Action::AnnotateNode { node: 11, note: kind_note("generic") });
    expected.push(create(c(11), "Opening"));
    expected.push(Action::AnnotateNode { node: 13, note: kind_note("opening") });
    expected.push(Action::Move { id: 5, to: c(13) });
    expected.push(Action::AnnotateFile {
        id: 5,
        under: c(13),
        note: EpisodeNote {
            season_number: None,
            episode_number: None,
            extra_kind: Some("opening".to_string()),
            extra_title: Some("NCOP1".to_string()),
            extra_tag: None,
        },
    });
    expected.push(Action::PushDataFile { id: 5, under: c(13) });
    expected.push(Action::Delete { id: 4, under: c(8) });
    expected.push(Action::Delete { id: 1, under: c(0) });
    assert_eq!(rebuild_plan(&roots), expected);
}

#[test]
fn rebuild_plan_moves_top_files_and_drops_old_shells() {
    let roots = vec![
        file(10, "readme.txt"),
        node(11, NodeKind::Virtual, "old", vec![]),
        dir(12, "Show", vec![file(13, "Show - 01 [x].mkv")]),
    ];
    let mut expected = vec![
        create(Target::Root, "unknown"),
        Action::Move { id: 10, to: c(0) },
        Action::PushDataFile { id: 10, under: c(0) },
        create(Target::Root, "Show"),
        create(c(3), "Season 1"),
    ];
    main_file(&mut expected, 13, c(4), 1, 1);
    expected.push(Action::Delete { id: 12, under: c(3) });
    expected.push(Action::Delete { id: 11, under: Target::Root });
    assert_eq!(rebuild_plan(&roots), expected);
}

#[test]
fn rebuild_plan_merges_seasons_of_one_title() {
    let roots = vec![
        dir(1, "Frieren", vec![file(2, "Frieren - 01 [a].mkv")]),
        dir(3, "Frieren S2", vec![file(4, "Frieren S2 - 01 [a].mkv")]),
    ];
    let mut expected = vec![create(Target::Root, "Frieren"), create(c(0), "Season 1")];
    main_file(&mut expected, 2, c(1), 1, 1);
    expected.push(create(c(0), "Season 2"));
    main_file(&mut expected, 4, c(5), 2, 1);
    expected.push(Action::Delete { id: 3, under: c(0) });
    expected.push(Action::Delete { id: 1, under: c(0) });
    assert_eq!(rebuild_plan(&roots), expected);
}

#[test]
fn rebuild_plan_of_nothing_is_empty() {
    assert_eq!(rebuild_plan(&vec![]), vec![]);
}

#[test]
fn parse_series_sends_unknown_files_to_the_first_season() {
    let root = dir(
        1,
        "Show",
        vec![file(2, "Show - 03 [x].mkv"), file(3, "notes.txt"), node(4, NodeKind::Other, "link", vec![])],
    );
    let s = parse_series(&root);
    assert_eq!(s.name, "Show");
    let slots: Vec<(u64, Slot)> = s.files.iter().map(|p| (p.file.id, p.slot)).collect();
    assert_eq!(slots, vec![(2, Slot::SeasonEpisode(1)), (3, Slot::SeasonUnknown(1)), (4, Slot::SeriesUnknown)]);
    assert_eq!(s.dirs_to_delete, vec![1]);
}

#[test]
fn merge_series_keeps_one_series_per_name() {
    let a = parse_series(&dir(1, "Frieren", vec![file(2, "Frieren - 01 [a].mkv")]));
    let b = parse_series(&dir(3, "Bocchi", vec![file(4, "Bocchi - 01 [a].mkv")]));
    let c2 = parse_series(&dir(5, "Frieren S2", vec![file(6, "Frieren S2 - 01 [a].mkv")]));
    let merged = merge_series(vec![a, b, c2]);
    let names: Vec<&str> = merged.iter().map(|s| s.name.as_str()).collect();
    assert_eq!(names, vec!["Frieren", "Bocchi"]);
    assert_eq!(merged[0].files.len(), 2);
    assert_eq!(merged[0].dirs_to_delete, vec![1, 5]);
}

fn frieren_tree() -> Vec<RawNode> {
    vec![
        file(20, "readme.txt"),
        dir(
            1,
            "[Group] Frieren [1080p]",
            vec![
                file(2, "Frieren - 01 [1080p].mkv"),
                dir(6, "Season 2", vec![file(7, "Frieren - 01 [1080p].mkv"), file(8, "Frieren - NCED [1080p].mkv")]),
                dir(4, "SPs", vec![file(5, "NCOP1.mkv"), file(9, "Menu01.png")]),
                file(10, "notes.txt"),
            ],
        ),
    ]
}

#[test]
fn rebuild_plan_refers_only_to_earlier_creates() {
    let plan = rebuild_plan(&frieren_tree());
    let ok = |at: usize, t: Target| match t {
        Target::Root => true,
        Target::Created(k) => k < at && matches!(plan[k], Action::Create { .. }),
    };
    for (j, a) in plan.iter().enumerate() {
        let good = match a {
            Action::Create { parent, .. } => ok(j, *parent),
            Action::Move { to, .. } => ok(j, *to),
            Action::AnnotateFile { under, .. } => ok(j, *under),
            Action::AnnotateNode { node, .. } => ok(j, Target::Created(*node)),
            Action::PushDataFile { under, .. } => ok(j, *under),
            Action::Delete { under, .. } => ok(j, *under),
        };
        assert!(good, "action {j}: {a:?}");
    }
}

#[test]
fn rebuild_plan_registers_every_move() {
    let plan = rebuild_plan(&frieren_tree());
    let mut moves = 0;
    for (j, a) in plan.iter().enumerate() {
        if let Action::Move { id, to } = a {
            moves += 1;
            let push = Action::PushDataFile { id: *id, under: *to };
            assert!(plan.get(j + 1) == Some(&push) || plan.get(j + 2) == Some(&push), "move {j}: {a:?}");
        }
    }
    assert_eq!(moves, 7);
}

#[test]
fn parse_series_tags_every_extra() {
    let root = dir(
        1,
        "Show",
        vec![
            file(2, "Show - 01 [x].mkv"),
            file(3, "NCOP.mkv"),
            dir(4, "Scans", vec![file(5, "Booklet 01.jpg"), dir(6, "Menus", vec![file(7, "Menu01.mkv")])]),
        ],
    );
    let s = parse_series(&root);
    let mut extras = 0;
    for p in &s.files {
        match p.slot {
            Slot::ExtraDirFile(_) | Slot::SeasonLoose(_) | Slot::LooseExtra => {
                assert!(p.file.extra.is_some(), "{:?}", p);
                extras += 1;
            }
            _ => assert!(p.file.extra.is_none(), "{:?}", p),
        }
    }
    assert_eq!(extras, 3);
    let plan = rebuild_plan(&vec![root]);
    for id in [2u64, 3, 5, 7] {
        assert!(plan.iter().any(|a| matches!(a, Action::Move { id: m, .. } if *m == id)), "node {id}");
    }
}

#[test]
fn perform_at_skips_actions_under_failed_creates() {
    let created = vec![Some(70), None];
    let mv = |to| Action::Move { id: 5, to };
    assert_eq!(perform_at(&mv(Target::Root), &created), Some(NodeRef::Root));
    assert_eq!(perform_at(&mv(c(0)), &created), Some(NodeRef::Node(70)));
    assert_eq!(perform_at(&mv(c(1)), &created), None);
    assert_eq!(perform_at(&mv(c(2)), &created), None);
    let note = kind_note("scan");
    assert_eq!(perform_at(&Action::AnnotateNode { node: 0, note }, &created), Some(NodeRef::Node(70)));
    assert_eq!(perform_at(&create(c(1), "x"), &created), None);
}

#[test]
fn merging_merged_series_changes_nothing() {
    let a = parse_series(&dir(1, "Frieren", vec![file(2, "Frieren - 01 [a].mkv")]));
    let b = parse_series(&dir(3, "Bocchi", vec![dir(4, "Scans", vec![file(5, "cover.jpg")])]));
    let c2 = parse_series(&dir(6, "Frieren S2", vec![dir(7, "SPs", vec![dir(8, "Menus", vec![file(9, "Menu01.mkv")])])]));
    let once = merge_series(vec![a, b, c2]);
    let names: Vec<String> = once.iter().map(|s| s.name.clone()).collect();
    let dirs: Vec<(u64, Option<usize>)> = once[0].extra_dirs.iter().map(|d| (d.id, d.parent)).collect();
    assert_eq!(dirs, vec![(7, None), (8, Some(0))]);
    let twice = merge_series(once);
    let names2: Vec<String> = twice.iter().map(|s| s.name.clone()).collect();
    assert_eq!(names, names2);
    assert_eq!(twice[0].extra_dirs.len(), 2);
}

#[test]
fn directories_to_delete_come_in_pre_order() {
    let root = dir(1, "Show", vec![dir(2, "Disc 1", vec![dir(3, "Video", vec![file(4, "Show - 01 [x].mkv")])]), dir(5, "Disc 2", vec![])]);
    assert_eq!(parse_series(&root).dirs_to_delete, vec![1, 2, 3, 5]);
}
