use cargo_vanish::clean::{parse_reply, CleanRun, Cleaning, Confirmation, Notice, Reply};
use cargo_vanish::pattern::Pattern;
use cargo_vanish::project::Project;
use cargo_vanish::projects::Projects;
use cargo_vanish::scan::Scan;

fn project(path: &str, size: Option<u64>) -> Project {
    Project::new(path, Some("[package]\nname = \"demo\"\n"), Ok(size)).unwrap()
}

#[test]
fn yes_in_any_case_consents() {
    for line in ["y", "Y", "yes", "YES", "Yes", "yEs", " y\n", "\tyes \r\n", "\u{3000}y\u{2003}"] {
        assert_eq!(parse_reply(line), Reply::Yes, "{line:?}");
    }
}

#[test]
fn no_in_any_case_declines() {
    for line in ["n", "N", "no", "NO", "No", "nO", " n\n", "\tno \r\n"] {
        assert_eq!(parse_reply(line), Reply::No, "{line:?}");
    }
}

#[test]
fn anything_else_is_not_understood() {
    for line in ["", "\n", "   ", "ye", "yess", "y es", "nope", "on", "yn", "ja", "1", "yeſ", "y\u{200B}"] {
        assert_eq!(parse_reply(line), Reply::Unknown, "{line:?}");
    }
}

#[test]
fn question_is_put_only_when_needed() {
    assert_eq!(Confirmation::begin(false, 3), Confirmation::AwaitingInput);
    assert_eq!(Confirmation::begin(true, 3), Confirmation::Confirmed);
    assert_eq!(Confirmation::begin(false, 0), Confirmation::Confirmed);
    assert_eq!(Confirmation::begin(true, 0), Confirmation::Confirmed);
}

#[test]
fn consent_confirms() {
    let (state, notice) = Confirmation::AwaitingInput.step(Some("yes\n"));
    assert_eq!(state, Confirmation::Confirmed);
    assert_eq!(notice, Notice::Nothing);
    assert!(!state.is_open());
}

#[test]
fn refusal_aborts() {
    let (state, notice) = Confirmation::AwaitingInput.step(Some("N\n"));
    assert_eq!(state, Confirmation::Aborted);
    assert_eq!(notice, Notice::Aborting);
    assert_eq!(notice.message(), Some("Aborting."));
    assert!(!state.is_open());
}

#[test]
fn unknown_reply_asks_again() {
    let (state, notice) = Confirmation::AwaitingInput.step(Some("maybe\n"));
    assert_eq!(state, Confirmation::AwaitingInput);
    assert_eq!(notice, Notice::UnknownResponse);
    assert_eq!(notice.message(), Some("Unknown response. Please try again."));
    assert!(state.is_open());
}

#[test]
fn failed_read_asks_again() {
    let (state, notice) = Confirmation::AwaitingInput.step(None);
    assert_eq!(state, Confirmation::AwaitingInput);
    assert_eq!(notice, Notice::ReadFailed);
    assert_eq!(notice.message(), None);
}

#[test]
fn settled_question_stays_settled() {
    assert_eq!(
        Confirmation::Confirmed.step(Some("no")),
        (Confirmation::Confirmed, Notice::Nothing)
    );
    assert_eq!(
        Confirmation::Aborted.step(Some("yes")),
        (Confirmation::Aborted, Notice::Nothing)
    );
    assert_eq!(Confirmation::Aborted.step(None), (Confirmation::Aborted, Notice::Nothing));
}

#[test]
fn dialogue_runs_until_a_clear_reply() {
    let mut state = Confirmation::begin(false, 2);
    let mut notices = Vec::new();
    for input in [None, Some("what?\n"), Some(""), Some(" Y \n"), Some("no\n")] {
        let (next, notice) = state.step(input);
        state = next;
        notices.push(notice);
    }
    assert_eq!(state, Confirmation::Confirmed);
    assert_eq!(
        notices,
        vec![
            Notice::ReadFailed,
            Notice::UnknownResponse,
            Notice::UnknownResponse,
            Notice::Nothing,
            Notice::Nothing,
        ]
    );
}

#[test]
fn failed_launch_does_not_end_the_batch() {
    let parts = Projects::new(&Scan::new("/w", false), 
        vec![
            project("/w/c/Cargo.toml", Some(3)),
            project("/w/a/Cargo.toml", Some(1)),
            project("/w/b/Cargo.toml", Some(2)),
        ],
        None,
        false,
    );
    let mut run = parts.clean(true);
    assert_eq!(run.state(), Confirmation::Confirmed);
    let mut attempted = Vec::new();
    let mut warnings = Vec::new();
    let launches = [true, false, true];
    while let Some(path) = run.next().map(str::to_string) {
        let launched = launches[attempted.len()];
        if run.record(launched) {
            warnings.push(path.clone());
        }
        attempted.push(path);
    }
    assert_eq!(attempted, vec!["/w/a/Cargo.toml", "/w/b/Cargo.toml", "/w/c/Cargo.toml"]);
    assert_eq!(warnings, vec!["/w/b/Cargo.toml"]);
    assert!(run.is_finished());
    assert_eq!(
        run.outcomes(),
        vec![
            ("/w/a/Cargo.toml".to_string(), true),
            ("/w/b/Cargo.toml".to_string(), false),
            ("/w/c/Cargo.toml".to_string(), true),
        ]
    );
}

#[test]
fn finished_run_takes_no_more_outcomes() {
    let mut run = CleanRun::new(vec!["a/Cargo.toml".to_string()]);
    assert!(!run.is_finished());
    assert_eq!(run.next(), Some("a/Cargo.toml"));
    assert!(!run.record(true));
    assert!(run.is_finished());
    assert_eq!(run.next(), None);
    assert!(!run.record(false));
    assert_eq!(run.outcomes(), vec![("a/Cargo.toml".to_string(), true)]);
}

#[test]
fn empty_run_is_finished_at_once() {
    let mut run = CleanRun::new(vec![]);
    assert!(run.is_finished());
    assert_eq!(run.next(), None);
    assert!(!run.record(false));
    assert!(run.outcomes().is_empty());
}

#[test]
fn only_included_projects_are_cleaned() {
    let pattern = Pattern::new("keep").unwrap();
    let parts = Projects::new(&Scan::new("/w", false), 
        vec![
            project("/w/keep/Cargo.toml", Some(3)),
            project("/w/drop/Cargo.toml", Some(1)),
        ],
        Some(&pattern),
        false,
    );
    let mut cleaning = parts.clean(false);
    assert_eq!(cleaning.state(), Confirmation::AwaitingInput);
    assert_eq!(cleaning.next(), None);
    assert_eq!(cleaning.answer(Some("y")), Notice::Nothing);
    assert_eq!(cleaning.next(), Some("/w/drop/Cargo.toml"));
    let run = parts.ignored().clean();
    assert_eq!(run.next(), Some("/w/keep/Cargo.toml"));
}

#[test]
fn nothing_to_clean_needs_no_consent() {
    let parts = Projects::new(&Scan::new("/w", false), vec![], None, false);
    let cleaning = parts.clean(false);
    assert_eq!(cleaning.state(), Confirmation::Confirmed);
    assert!(cleaning.is_finished());
}

#[test]
fn clean_command_names_the_manifest() {
    assert_eq!(
        cargo_vanish::clean::command_for("/w/a/Cargo.toml"),
        vec!["cargo", "clean", "--manifest-path", "/w/a/Cargo.toml"]
    );
}

#[test]
fn replies_are_read_as_trimming_and_lowercasing_would() {
    let lines = [
        "y", "Y", "yes", "YES", "yEs", "n", "N", "no", "NO", "nO", "", " ", "\n", "y\n", " yes ",
        "\tNo\r\n", "yes!", "ye s", "ny", "yn", "noo", "K", "\u{212A}", "yeſ", "\u{00A0}y\u{00A0}",
        "\u{2028}no\u{2029}", "\u{200B}y", "y\u{0085}", "ÿ", "YES\u{3000}", "Ｙ",
    ];
    for line in lines {
        let word = line.trim().to_lowercase();
        let expected = if word == "y" || word == "yes" {
            Reply::Yes
        } else if word == "n" || word == "no" {
            Reply::No
        } else {
            Reply::Unknown
        };
        assert_eq!(parse_reply(line), expected, "{line:?}");
    }
}

#[test]
fn nothing_is_cleaned_before_consent() {
    let mut cleaning = Cleaning::new(false, vec!["a/Cargo.toml".to_string()]);
    assert!(cleaning.is_open());
    assert!(!cleaning.is_finished());
    assert_eq!(cleaning.next(), None);
    assert!(!cleaning.record(false));
    assert!(cleaning.outcomes().is_empty());
    assert_eq!(cleaning.answer(None), Notice::ReadFailed);
    assert_eq!(cleaning.answer(Some("perhaps")), Notice::UnknownResponse);
    assert_eq!(cleaning.next(), None);
    assert_eq!(cleaning.answer(Some("YES\n")), Notice::Nothing);
    assert!(!cleaning.is_open());
    assert_eq!(cleaning.next(), Some("a/Cargo.toml"));
    assert!(cleaning.record(false));
    assert!(cleaning.is_finished());
    assert_eq!(cleaning.outcomes(), vec![("a/Cargo.toml".to_string(), false)]);
}

#[test]
fn nothing_is_cleaned_after_a_refusal() {
    let mut cleaning = Cleaning::new(false, vec!["a/Cargo.toml".to_string()]);
    assert_eq!(cleaning.answer(Some("n")), Notice::Aborting);
    assert_eq!(cleaning.state(), Confirmation::Aborted);
    assert_eq!(cleaning.next(), None);
    assert!(!cleaning.record(true));
    assert!(cleaning.outcomes().is_empty());
    assert!(cleaning.is_finished());
    assert_eq!(cleaning.answer(Some("y")), Notice::Nothing);
    assert_eq!(cleaning.next(), None);
}

#[test]
fn consent_given_beforehand_starts_the_run() {
    let cleaning = Cleaning::new(true, vec!["a/Cargo.toml".to_string()]);
    assert_eq!(cleaning.state(), Confirmation::Confirmed);
    assert_eq!(cleaning.next(), Some("a/Cargo.toml"));
}

#[test]
fn ignored_projects_are_shown_only_after_a_confirmed_cleaning() {
    let pattern = Pattern::new("keep").unwrap();
    let parts = Projects::new(
        &Scan::new("/w", false),
        vec![project("/w/keep/Cargo.toml", Some(3)), project("/w/drop/Cargo.toml", Some(1))],
        Some(&pattern),
        false,
    );
    let mut cleaning = parts.clean(false);
    assert!(parts.list_after(&cleaning, true, false).is_empty());
    cleaning.answer(Some("no"));
    assert!(parts.list_after(&cleaning, true, false).is_empty());
    let confirmed = parts.clean(true);
    assert!(parts.list_after(&confirmed, false, false).is_empty());
    assert_eq!(
        parts.list_after(&confirmed, true, false),
        vec!["Ignored:", "  3  B <- /w/keep", "Summary: 1 projects, 3  B"]
    );
}
