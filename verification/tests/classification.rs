use cargo_vanish::pattern::{matches_any, Pattern};
use cargo_vanish::project::Project;
use cargo_vanish::projects::Projects;
use cargo_vanish::scan::Scan;
use cargo_vanish::project_set::ProjectSet;

fn project(path: &str, size: Option<u64>) -> Project {
    Project::new(path, Some("[package]\nname = \"demo\"\n"), Ok(size)).unwrap()
}

fn scan() -> Scan {
    Scan::new("/w", false)
}

fn paths(set: &ProjectSet) -> Vec<String> {
    set.paths()
}

fn discovered() -> Vec<Project> {
    vec![
        project("/w/zeta/Cargo.toml", Some(30)),
        project("/w/old/alpha/Cargo.toml", Some(10)),
        project("/w/beta/Cargo.toml", None),
        project("/w/old/gamma/Cargo.toml", Some(20)),
        project("/w/delta/Cargo.toml", Some(10)),
    ]
}

#[test]
fn pattern_is_compiled_or_refused() {
    assert!(Pattern::new("old").is_some());
    assert!(Pattern::new(r"^/w/[a-z]+/Cargo\.toml$").is_some());
    assert!(Pattern::new("").is_some());
    assert!(Pattern::new("(").is_none());
    assert!(Pattern::new("[a-").is_none());
    assert_eq!(Pattern::new("a+b").unwrap().source(), "a+b");
}

#[test]
fn pattern_matches_anywhere_in_the_text() {
    let p = Pattern::new("old").unwrap();
    assert!(p.matches("/w/old/alpha/Cargo.toml"));
    assert!(p.matches("old"));
    assert!(p.matches("/w/bold/Cargo.toml"));
    assert!(!p.matches("/w/new/Cargo.toml"));
    assert!(!p.matches(""));
    let anchored = Pattern::new(r"^/w/[a-z]+/Cargo\.toml$").unwrap();
    assert!(anchored.matches("/w/beta/Cargo.toml"));
    assert!(!anchored.matches("/w/old/alpha/Cargo.toml"));
    let empty = Pattern::new("").unwrap();
    assert!(empty.matches("anything"));
}

#[test]
fn no_pattern_matches_nothing() {
    assert!(!matches_any(None, "/w/old/alpha/Cargo.toml"));
    assert!(!matches_any(None, ""));
    let p = Pattern::new("old").unwrap();
    assert!(matches_any(Some(&p), "/w/old/alpha/Cargo.toml"));
    assert!(!matches_any(Some(&p), "/w/new/Cargo.toml"));
}

#[test]
fn without_a_pattern_everything_is_included() {
    let parts = Projects::new(&scan(), discovered(), None, false);
    assert_eq!(
        paths(parts.included()),
        vec![
            "/w/beta/Cargo.toml",
            "/w/delta/Cargo.toml",
            "/w/old/alpha/Cargo.toml",
            "/w/old/gamma/Cargo.toml",
            "/w/zeta/Cargo.toml",
        ]
    );
    assert!(parts.ignored().is_empty());
    assert_eq!(parts.ignored().len(), 0);
}

#[test]
fn without_a_pattern_inverting_ignores_everything() {
    let parts = Projects::new(&scan(), discovered(), None, true);
    assert!(parts.included().is_empty());
    assert_eq!(parts.ignored().len(), 5);
}

#[test]
fn matching_projects_are_ignored() {
    let pattern = Pattern::new("/old/").unwrap();
    let parts = Projects::new(&scan(), discovered(), Some(&pattern), false);
    assert_eq!(
        paths(parts.included()),
        vec!["/w/beta/Cargo.toml", "/w/delta/Cargo.toml", "/w/zeta/Cargo.toml"]
    );
    assert_eq!(
        paths(parts.ignored()),
        vec!["/w/old/alpha/Cargo.toml", "/w/old/gamma/Cargo.toml"]
    );
}

#[test]
fn inverting_swaps_the_two_sides() {
    let pattern = Pattern::new("/old/").unwrap();
    let plain = Projects::new(&scan(), discovered(), Some(&pattern), false);
    let inverted = Projects::new(&scan(), discovered(), Some(&pattern), true);
    assert_eq!(paths(plain.included()), paths(inverted.ignored()));
    assert_eq!(paths(plain.ignored()), paths(inverted.included()));
    assert_eq!(
        paths(inverted.included()),
        vec!["/w/old/alpha/Cargo.toml", "/w/old/gamma/Cargo.toml"]
    );
}

#[test]
fn the_two_sides_are_a_partition() {
    let pattern = Pattern::new("a/Cargo").unwrap();
    let parts = Projects::new(&scan(), discovered(), Some(&pattern), false);
    let included = paths(parts.included());
    let ignored = paths(parts.ignored());
    assert_eq!(included.len() + ignored.len(), 5);
    for p in discovered() {
        let path = p.path().to_string();
        assert_ne!(included.contains(&path), ignored.contains(&path));
        assert_eq!(parts.included().contains_path(&path), included.contains(&path));
        assert_eq!(parts.ignored().contains_path(&path), ignored.contains(&path));
    }
}

#[test]
fn discovery_order_does_not_matter() {
    let pattern = Pattern::new("old").unwrap();
    let forward = Projects::new(&scan(), discovered(), Some(&pattern), false);
    let mut reversed = discovered();
    reversed.reverse();
    let backward = Projects::new(&scan(), reversed, Some(&pattern), false);
    assert_eq!(paths(forward.included()), paths(backward.included()));
    assert_eq!(paths(forward.ignored()), paths(backward.ignored()));
}

#[test]
fn a_path_discovered_twice_is_held_once() {
    let mut records = discovered();
    records.push(project("/w/beta/Cargo.toml", None));
    records.push(project("/w/zeta/Cargo.toml", Some(1)));
    let parts = Projects::new(&scan(), records, None, false);
    assert_eq!(parts.included().len(), 5);
    assert_eq!(
        paths(parts.included()),
        vec![
            "/w/beta/Cargo.toml",
            "/w/delta/Cargo.toml",
            "/w/old/alpha/Cargo.toml",
            "/w/old/gamma/Cargo.toml",
            "/w/zeta/Cargo.toml",
        ]
    );
    assert_eq!(parts.included().get(4).unwrap().size(), &Some(30));
}

#[test]
fn set_keeps_the_first_record_of_a_path() {
    let mut set = ProjectSet::new();
    assert!(set.is_empty());
    assert!(set.insert(project("b/Cargo.toml", Some(5))));
    assert!(set.insert(project("a/Cargo.toml", Some(5))));
    assert!(set.insert(project("c/Cargo.toml", None)));
    assert!(!set.insert(project("a/Cargo.toml", Some(5))));
    assert!(!set.insert(project("b/Cargo.toml", Some(99))));
    assert_eq!(set.len(), 3);
    assert_eq!(paths(&set), vec!["c/Cargo.toml", "a/Cargo.toml", "b/Cargo.toml"]);
    assert_eq!(set.get(2).unwrap().size(), &Some(5));
    assert!(set.get(3).is_none());
    assert!(set.contains_path("a/Cargo.toml"));
    assert!(!set.contains_path("d/Cargo.toml"));
}

#[test]
fn total_counts_known_sizes_only() {
    let mut set = ProjectSet::new();
    assert_eq!(set.total(), 0);
    set.insert(project("a/Cargo.toml", Some(u64::MAX)));
    set.insert(project("b/Cargo.toml", None));
    set.insert(project("c/Cargo.toml", Some(u64::MAX)));
    assert_eq!(set.total(), 2 * (u64::MAX as u128));
}

#[test]
fn listing_ends_with_the_summary() {
    let parts = Projects::new(&scan(), discovered(), None, false);
    assert_eq!(
        parts.included().list(false),
        vec![
            "N/A -- <- /w/beta",
            " 10  B <- /w/delta",
            " 10  B <- /w/old/alpha",
            " 20  B <- /w/old/gamma",
            " 30  B <- /w/zeta",
            "Summary: 5 projects, 70  B",
        ]
    );
    assert_eq!(ProjectSet::new().list(false), vec!["Summary: 0 projects, 0  B"]);
}

#[test]
fn summary_of_two_projects_with_one_unknown_size() {
    let with_artifacts = Project::new(
        "/root/big/Cargo.toml",
        Some("[package]\nname = \"big\"\n"),
        Project::dirsize(
            Some(true),
            &vec![
                cargo_vanish::project::ArtifactEntry::File(1_000_000_000),
                cargo_vanish::project::ArtifactEntry::File(500_000_000),
            ],
        ),
    )
    .unwrap();
    let without = Project::new(
        "/root/bare/Cargo.toml",
        Some("[package]\nname = \"bare\"\n"),
        Project::dirsize(Some(false), &vec![]),
    )
    .unwrap();
    let parts = Projects::new(&scan(), vec![with_artifacts, without], None, false);
    assert_eq!(
        paths(parts.included()),
        vec!["/root/bare/Cargo.toml", "/root/big/Cargo.toml"]
    );
    assert_eq!(parts.ignored().len(), 0);
    assert_eq!(parts.included().total(), 1_500_000_000);
    let lines = parts.list(false, false);
    assert_eq!(
        lines,
        vec!["N/A -- <- /root/bare", "  1 GB <- /root/big", "Summary: 2 projects, 1 GB"]
    );
    let coloured = parts.list(true, true);
    assert_eq!(coloured[2], "Summary: 2 projects, \x1B[0;31m  1 GB\x1B[0m");
    assert_eq!(
        coloured[2],
        format!("Summary: 2 projects, {}", cargo_vanish::to_memory_string(Some(1_500_000_000)))
    );
    assert_eq!(coloured.len(), 3);
}

#[test]
fn report_shows_the_ignored_projects_on_request() {
    let pattern = Pattern::new("/old/").unwrap();
    let parts = Projects::new(&scan(), discovered(), Some(&pattern), false);
    assert_eq!(
        parts.list(false, false),
        vec![
            "N/A -- <- /w/beta",
            " 10  B <- /w/delta",
            " 30  B <- /w/zeta",
            "Summary: 3 projects, 40  B",
        ]
    );
    assert_eq!(
        parts.list(true, false),
        vec![
            "N/A -- <- /w/beta",
            " 10  B <- /w/delta",
            " 30  B <- /w/zeta",
            "Summary: 3 projects, 40  B",
            "Ignored:",
            " 10  B <- /w/old/alpha",
            " 20  B <- /w/old/gamma",
            "Summary: 2 projects, 30  B",
        ]
    );
    assert_eq!(
        parts.list_ignored(false),
        vec![
            "Ignored:",
            " 10  B <- /w/old/alpha",
            " 20  B <- /w/old/gamma",
            "Summary: 2 projects, 30  B",
        ]
    );
}

#[test]
fn report_leaves_out_an_empty_side() {
    let nothing = Projects::new(&scan(), vec![], None, false);
    assert!(nothing.list(true, false).is_empty());
    let all_ignored = Projects::new(&scan(), discovered(), None, true);
    assert!(all_ignored.list(false, false).is_empty());
    assert_eq!(all_ignored.list(true, false).len(), 7);
    assert_eq!(all_ignored.list(true, false)[0], "Ignored:");
}

#[test]
fn matched_projects_are_sorted_to_the_ignored_side() {
    let found = vec![
        (project("/w/c/Cargo.toml", Some(3)), false),
        (project("/w/a/Cargo.toml", Some(1)), true),
        (project("/w/b/Cargo.toml", Some(2)), false),
        (project("/w/d/Cargo.toml", None), true),
    ];
    let parts = Projects::from_matches(found, false);
    assert_eq!(paths(parts.included()), vec!["/w/b/Cargo.toml", "/w/c/Cargo.toml"]);
    assert_eq!(paths(parts.ignored()), vec!["/w/d/Cargo.toml", "/w/a/Cargo.toml"]);
}

#[test]
fn matched_projects_are_included_when_inverted() {
    let found = vec![
        (project("/w/c/Cargo.toml", Some(3)), false),
        (project("/w/a/Cargo.toml", Some(1)), true),
        (project("/w/b/Cargo.toml", Some(2)), false),
        (project("/w/d/Cargo.toml", None), true),
    ];
    let parts = Projects::from_matches(found, true);
    assert_eq!(paths(parts.included()), vec!["/w/d/Cargo.toml", "/w/a/Cargo.toml"]);
    assert_eq!(paths(parts.ignored()), vec!["/w/b/Cargo.toml", "/w/c/Cargo.toml"]);
}

#[test]
fn a_path_is_never_on_both_sides() {
    let found = vec![
        (project("/w/a/Cargo.toml", Some(1)), true),
        (project("/w/a/Cargo.toml", Some(1)), false),
        (project("/w/b/Cargo.toml", Some(2)), false),
        (project("/w/b/Cargo.toml", Some(7)), true),
    ];
    let parts = Projects::from_matches(found, false);
    assert_eq!(paths(parts.included()), vec!["/w/b/Cargo.toml"]);
    assert_eq!(paths(parts.ignored()), vec!["/w/a/Cargo.toml"]);
    assert_eq!(parts.included().get(0).unwrap().size(), &Some(2));
}

#[test]
fn nothing_found_gives_two_empty_sides() {
    let parts = Projects::from_matches(vec![], true);
    assert!(parts.included().is_empty());
    assert!(parts.ignored().is_empty());
}

#[test]
fn pattern_answers_as_the_regex_crate_does() {
    let sources = ["old", "^/w/", r"Cargo\.toml$", "a|b", "[0-9]+", r"\b\B", "", "(?i)OLD", "é+"];
    let texts = ["", "/w/old/Cargo.toml", "/w/new/Cargo.toml", "x7", "OLD", "ééé", "b"];
    for source in sources {
        let direct = regex::Regex::new(source).unwrap();
        let pattern = Pattern::new(source).unwrap();
        for text in texts {
            assert_eq!(pattern.matches(text), direct.find(text).is_some(), "{source:?} {text:?}");
        }
    }
    for source in ["(", ")", "[", "a{2,1}", r"\", "(?P<n>a)(?P<n>b)"] {
        assert!(regex::Regex::new(source).is_err());
        assert!(Pattern::new(source).is_none(), "{source:?}");
    }
}

#[test]
fn summary_labels_the_total_as_a_size_is_labelled() {
    let mut set = ProjectSet::new();
    set.insert(project("/w/a/Cargo.toml", None));
    set.insert(project("/w/b/Cargo.toml", Some(400)));
    set.insert(project("/w/c/Cargo.toml", Some(700)));
    let coloured = set.list(true);
    assert_eq!(coloured.len(), 4);
    assert_eq!(coloured[3], "Summary: 3 projects, \x1B[0;32m  1 KB\x1B[0m");
    assert_eq!(
        coloured[3],
        format!("Summary: 3 projects, {}", cargo_vanish::to_memory_string(Some(1_100)).trim())
    );
    let bare = set.list(false);
    assert_eq!(bare[3], "Summary: 3 projects, 1 KB");
}

#[test]
fn summary_of_a_total_in_bytes_loses_its_padding() {
    let mut set = ProjectSet::new();
    set.insert(project("/w/a/Cargo.toml", Some(4)));
    set.insert(project("/w/b/Cargo.toml", Some(3)));
    assert_eq!(set.list(true)[2], "Summary: 2 projects, 7  B");
    assert_eq!(
        set.list(true)[2],
        format!("Summary: 2 projects, {}", cargo_vanish::to_memory_string(Some(7)).trim())
    );
    assert_eq!(set.list(false)[2], "Summary: 2 projects, 7  B");
}

#[test]
fn records_behind_hidden_entries_are_on_neither_side() {
    let records = vec![
        project("/w/a/Cargo.toml", Some(1)),
        project("/w/.cache/b/Cargo.toml", Some(2)),
        project("/w/c/.git/d/Cargo.toml", Some(3)),
        project("/w/e.f/Cargo.toml", Some(4)),
    ];
    let parts = Projects::new(&Scan::new("/w", false), records, None, false);
    assert_eq!(paths(parts.included()), vec!["/w/a/Cargo.toml", "/w/e.f/Cargo.toml"]);
    assert!(parts.ignored().is_empty());
}

#[test]
fn hidden_components_of_the_root_exclude_nothing() {
    let records = vec![
        project("/home/.config/a/Cargo.toml", Some(1)),
        project("/home/.config/.b/Cargo.toml", Some(2)),
    ];
    let parts = Projects::new(&Scan::new("/home/.config", false), records, None, false);
    assert_eq!(paths(parts.included()), vec!["/home/.config/a/Cargo.toml"]);
    let records = vec![project("./a/Cargo.toml", Some(1)), project("./.b/Cargo.toml", Some(2))];
    let parts = Projects::new(&Scan::new(".", false), records, None, true);
    assert_eq!(paths(parts.ignored()), vec!["./a/Cargo.toml"]);
    assert!(parts.included().is_empty());
}

#[test]
fn a_scan_with_hidden_entries_keeps_every_record() {
    let records = vec![
        project("/w/a/Cargo.toml", Some(1)),
        project("/w/.cache/b/Cargo.toml", Some(2)),
    ];
    let parts = Projects::new(&Scan::new("/w", true), records, None, false);
    assert_eq!(paths(parts.included()), vec!["/w/a/Cargo.toml", "/w/.cache/b/Cargo.toml"]);
}

#[test]
fn scan_admits_what_its_walk_can_reach() {
    let plain = Scan::new("/w", false);
    assert_eq!(plain.root(), "/w");
    assert!(!plain.includes_hidden());
    assert!(plain.admits("/w/a/b/Cargo.toml"));
    assert!(plain.admits("/w/Cargo.toml"));
    assert!(plain.admits("/w"));
    assert!(!plain.admits("/w/.a/Cargo.toml"));
    assert!(!plain.admits("/w/a/.b/c/Cargo.toml"));
    assert!(!plain.admits("/w/a/.Cargo.toml"));
    assert!(plain.admits("/w/a.b/Cargo.toml"));
    let slash = Scan::new("/w/", false);
    assert!(slash.admits("/w/a/Cargo.toml"));
    assert!(!slash.admits("/w/.a/Cargo.toml"));
    let dotted = Scan::new("/.w", false);
    assert!(dotted.admits("/.w/a/Cargo.toml"));
    assert!(!dotted.admits("/.w/.a/Cargo.toml"));
    let here = Scan::new(".", false);
    assert!(here.admits("./a/Cargo.toml"));
    assert!(!here.admits("./.a/Cargo.toml"));
    let all = Scan::new("/w", true);
    assert!(all.includes_hidden());
    assert!(all.admits("/w/.a/Cargo.toml"));
}

#[test]
fn scan_looks_at_what_the_rule_for_entries_says() {
    let plain = Scan::new("/w", false);
    assert!(plain.visits(0, Some(".w")));
    assert!(plain.visits(1, Some("a")));
    assert!(!plain.visits(1, Some(".a")));
    assert!(plain.visits(2, None));
    assert!(Scan::new("/w", true).visits(3, Some(".a")));
}
