use nix_snow::error::Failure;
use nix_snow::identifier::ResolvedIdentifier;
use nix_snow::lookup::{
    after_pick, after_reply, after_search, get_name, installed, read_reply, start_lookup,
    LookupAction, LookupEvent, LookupState, LookupStep, Reply, Settings,
};
use nix_snow::region::Markers;
use nix_snow::resolver::Resolution;
use nix_snow::{get_pkg, Action, Args};

fn doc(lines: &[&str]) -> Vec<String> {
    lines.iter().map(|line| line.to_string()).collect()
}

fn settings() -> Settings {
    Settings::default()
}

#[test]
fn default_settings_are_the_snow_markers_and_the_linux_prefix() {
    let settings = Settings::default();
    assert_eq!(settings.markers.begin, "# SNOW BEGIN");
    assert_eq!(settings.markers.end, "# SNOW END");
    assert_eq!(settings.key_prefix, "legacyPackages.x86_64-linux.");
    let markers = Markers::default();
    assert_eq!(markers.begin, "# SNOW BEGIN");
    assert_eq!(markers.end, "# SNOW END");
    let copy = settings.clone();
    assert_eq!(copy.markers.end, "# SNOW END");
    assert_eq!(copy.key_prefix, settings.key_prefix);
}

fn add(pkg: &str) -> Action {
    Action::Add { pkg: pkg.to_string() }
}

fn remove(pkg: &str) -> Action {
    Action::Remove { pkg: pkg.to_string() }
}

fn finish(name: &str) -> LookupStep {
    LookupStep {
        state: LookupState::Done,
        action: LookupAction::Finish { name: ResolvedIdentifier::new(name).unwrap() },
    }
}

fn fail(failure: Failure) -> LookupStep {
    LookupStep { state: LookupState::Done, action: LookupAction::Fail { failure } }
}

fn file() -> Vec<String> {
    doc(&["# SNOW BEGIN", "  bat", "  fd", "# SNOW END", "  zsh"])
}

#[test]
fn get_pkg_gives_the_name_of_either_action() {
    assert_eq!(get_pkg(&add("fd")), "fd");
    assert_eq!(get_pkg(&remove(" bat ")), " bat ");
    assert_eq!(add("fd").pkg(), "fd");
    assert!(add("fd").is_add());
    assert!(!remove("fd").is_add());
    let args = Args { config: None, dry_run: true, action: add("fd"), no_rebuild: false };
    assert_eq!(get_pkg(&args.action), "fd");
}

#[test]
fn unknown_package_on_an_add_may_be_added_under_its_own_name() {
    let action = add("fzzy-not-real");
    let first = get_name(&action, &file(), &settings(), LookupState::Start, &LookupEvent::Begin);
    assert_eq!(
        first,
        Some(LookupStep {
            state: LookupState::Searching,
            action: LookupAction::Search { query: "fzzy-not-real".to_string() },
        })
    );
    let second = get_name(
        &action,
        &file(),
        &settings(),
        LookupState::Searching,
        &LookupEvent::SearchOutput("{}".to_string()),
    );
    assert_eq!(
        second,
        Some(LookupStep {
            state: LookupState::Confirming,
            action: LookupAction::Confirm { query: "fzzy-not-real".to_string() },
        })
    );
    let third = get_name(
        &action,
        &file(),
        &settings(),
        LookupState::Confirming,
        &LookupEvent::Answer("y\n".to_string()),
    );
    assert_eq!(third, Some(finish("fzzy-not-real")));
}

#[test]
fn unknown_package_on_a_remove_is_not_found() {
    let step = get_name(
        &remove("fzzy-not-real"),
        &file(),
        &settings(),
        LookupState::Searching,
        &LookupEvent::SearchOutput("{}".to_string()),
    );
    assert_eq!(step, Some(fail(Failure::NotFound)));
}

#[test]
fn replies_to_the_question() {
    assert_eq!(read_reply("y"), Reply::Yes);
    assert_eq!(read_reply(" Y \n"), Reply::Yes);
    assert_eq!(read_reply(""), Reply::Yes);
    assert_eq!(read_reply("\n"), Reply::Yes);
    assert_eq!(read_reply("n\n"), Reply::No);
    assert_eq!(read_reply("N"), Reply::No);
    assert_eq!(read_reply("yes"), Reply::Unknown);
    assert_eq!(read_reply("x"), Reply::Unknown);
    assert_eq!(read_reply("y y"), Reply::Unknown);
    let action = add("fd");
    assert_eq!(after_reply(&action, "n"), LookupStep {
        state: LookupState::Done,
        action: LookupAction::Abandon,
    });
    assert_eq!(after_reply(&action, "what"), fail(Failure::NotFound));
    assert_eq!(after_reply(&action, ""), finish("fd"));
    assert_eq!(after_reply(&add("  "), "y"), fail(Failure::NotFound));
}

#[test]
fn package_to_remove_that_stands_in_the_document_needs_no_search() {
    let step = start_lookup(&remove(" fd\n"), &file(), &settings().markers);
    assert_eq!(step, finish("fd"));
    assert_eq!(installed(&file(), &settings().markers, "bat").unwrap().as_str(), "bat");
    assert_eq!(installed(&file(), &settings().markers, "# SNOW BEGIN").unwrap().as_str(), "# SNOW BEGIN");
    assert_eq!(installed(&file(), &settings().markers, "# SNOW END"), None);
    assert_eq!(installed(&file(), &settings().markers, "zsh"), None);
    assert_eq!(installed(&file(), &settings().markers, " "), None);
    assert_eq!(installed(&doc(&["fd"]), &settings().markers, "fd"), None);
}

#[test]
fn package_to_add_is_searched_though_it_stands_in_the_document() {
    let step = start_lookup(&add("fd"), &file(), &settings().markers);
    assert_eq!(step, LookupStep {
        state: LookupState::Searching,
        action: LookupAction::Search { query: "fd".to_string() },
    });
    let other = start_lookup(&remove("zsh"), &file(), &settings().markers);
    assert_eq!(other, LookupStep {
        state: LookupState::Searching,
        action: LookupAction::Search { query: "zsh".to_string() },
    });
}

#[test]
fn one_candidate_ends_the_lookup() {
    let output = r#"{"legacyPackages.x86_64-linux.fd":{}}"#;
    let step = get_name(
        &add("fd"),
        &file(),
        &settings(),
        LookupState::Searching,
        &LookupEvent::SearchOutput(output.to_string()),
    );
    assert_eq!(step, Some(finish("fd")));
}

#[test]
fn candidate_with_nothing_left_of_it_is_not_found() {
    let output = r#"{"legacyPackages.x86_64-linux.":{}}"#;
    let step = get_name(
        &add("fd"),
        &file(),
        &settings(),
        LookupState::Searching,
        &LookupEvent::SearchOutput(output.to_string()),
    );
    assert_eq!(step, Some(fail(Failure::NotFound)));
}

#[test]
fn several_candidates_go_to_the_picker_all_of_them() {
    let output = r#"{"legacyPackages.x86_64-linux.fd":{},"legacyPackages.x86_64-linux.fdupes":{},"legacyPackages.x86_64-linux.fdm":{}}"#;
    let step = get_name(
        &remove("fd-not-installed"),
        &file(),
        &settings(),
        LookupState::Searching,
        &LookupEvent::SearchOutput(output.to_string()),
    );
    assert_eq!(
        step,
        Some(LookupStep {
            state: LookupState::Picking,
            action: LookupAction::Pick { candidates: doc(&["fd", "fdupes", "fdm"]) },
        })
    );
}

#[test]
fn picker_output_is_the_name_without_trailing_whitespace() {
    assert_eq!(after_pick("fdupes\n"), finish("fdupes"));
    assert_eq!(after_pick("  fd \t\n"), finish("  fd"));
    assert_eq!(after_pick(""), fail(Failure::SelectionCancelled));
    assert_eq!(after_pick("\n"), fail(Failure::SelectionCancelled));
    let step = get_name(
        &add("fd"),
        &file(),
        &settings(),
        LookupState::Picking,
        &LookupEvent::PickerOutput("fdm\n".to_string()),
    );
    assert_eq!(step, Some(finish("fdm")));
}

#[test]
fn failures_of_the_tools_end_the_lookup() {
    let action = add("fd");
    assert_eq!(
        get_name(&action, &file(), &settings(), LookupState::Searching, &LookupEvent::SearchFailed),
        Some(fail(Failure::BackendUnavailable))
    );
    assert_eq!(
        get_name(
            &action,
            &file(),
            &settings(),
            LookupState::Searching,
            &LookupEvent::SearchOutput("no json".to_string())
        ),
        Some(fail(Failure::BackendUnavailable))
    );
    assert_eq!(
        get_name(&action, &file(), &settings(), LookupState::Picking, &LookupEvent::PickerFailed),
        Some(fail(Failure::PickerUnavailable))
    );
    assert_eq!(
        after_search(&action, Err(Failure::BackendUnavailable)),
        fail(Failure::BackendUnavailable)
    );
    assert_eq!(after_search(&add(" "), Err(Failure::NotFound)), fail(Failure::NotFound));
    assert_eq!(after_search(&action, Ok(Resolution::Single("bat".to_string()))), finish("bat"));
}

#[test]
fn events_out_of_turn_give_no_step() {
    let action = add("fd");
    let states = [
        LookupState::Start,
        LookupState::Searching,
        LookupState::Confirming,
        LookupState::Picking,
        LookupState::Done,
    ];
    let events = [
        LookupEvent::Begin,
        LookupEvent::SearchOutput("{}".to_string()),
        LookupEvent::SearchFailed,
        LookupEvent::Answer("y".to_string()),
        LookupEvent::PickerOutput("fd".to_string()),
        LookupEvent::PickerFailed,
    ];
    let expected = [
        [true, false, false, false, false, false],
        [false, true, true, false, false, false],
        [false, false, false, true, false, false],
        [false, false, false, false, true, true],
        [false, false, false, false, false, false],
    ];
    for (i, state) in states.iter().enumerate() {
        for (j, event) in events.iter().enumerate() {
            let step = get_name(&action, &file(), &settings(), *state, event);
            assert_eq!(step.is_some(), expected[i][j], "{:?} {:?}", state, event);
        }
    }
}
