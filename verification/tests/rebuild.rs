use nix_snow::error::Failure;
use nix_snow::rebuild::{
    after_exit, choose_policy, parse_policy, reply_agrees, run_rebuild, same_text, RebuildAction,
    RebuildEvent, RebuildPolicy, RebuildState, RebuildStep,
};

fn step(state: RebuildState, action: RebuildAction) -> Option<RebuildStep> {
    Some(RebuildStep { state, action })
}

fn failed(status: i32) -> Option<RebuildStep> {
    step(RebuildState::Failed, RebuildAction::Fail { failure: Failure::RebuildFailed, status })
}

fn events() -> Vec<RebuildEvent> {
    vec![
        RebuildEvent::Begin,
        RebuildEvent::Answer("y".to_string()),
        RebuildEvent::Answer(String::new()),
        RebuildEvent::Answer("n".to_string()),
        RebuildEvent::Exited { code: Some(0) },
        RebuildEvent::Exited { code: Some(3) },
        RebuildEvent::Exited { code: None },
        RebuildEvent::NotStarted,
    ]
}

const STATES: [RebuildState; 5] = [
    RebuildState::Idle,
    RebuildState::Deciding,
    RebuildState::Running,
    RebuildState::Succeeded,
    RebuildState::Failed,
];

#[test]
fn never_ends_at_once_without_the_command() {
    assert_eq!(
        run_rebuild(RebuildPolicy::Never, RebuildState::Idle, &RebuildEvent::Begin),
        step(RebuildState::Succeeded, RebuildAction::Finish)
    );
    for state in STATES {
        for event in events() {
            let next = run_rebuild(RebuildPolicy::Never, state, &event);
            assert!(!matches!(next, Some(RebuildStep { action: RebuildAction::Spawn, .. })));
        }
    }
}

#[test]
fn always_runs_the_command_without_asking() {
    assert_eq!(
        run_rebuild(RebuildPolicy::Always, RebuildState::Idle, &RebuildEvent::Begin),
        step(RebuildState::Running, RebuildAction::Spawn)
    );
    assert_eq!(
        run_rebuild(RebuildPolicy::Always, RebuildState::Running, &RebuildEvent::Exited { code: Some(0) }),
        step(RebuildState::Succeeded, RebuildAction::Finish)
    );
    assert_eq!(
        run_rebuild(RebuildPolicy::Always, RebuildState::Deciding, &RebuildEvent::Answer("y".to_string())),
        None
    );
}

#[test]
fn ask_runs_the_command_on_y_and_on_an_empty_reply() {
    assert_eq!(
        run_rebuild(RebuildPolicy::Ask, RebuildState::Idle, &RebuildEvent::Begin),
        step(RebuildState::Deciding, RebuildAction::Prompt)
    );
    for reply in ["y", "y\n", "  y  ", "", "\n", "  "] {
        assert_eq!(
            run_rebuild(RebuildPolicy::Ask, RebuildState::Deciding, &RebuildEvent::Answer(reply.to_string())),
            step(RebuildState::Running, RebuildAction::Spawn),
            "{:?}",
            reply
        );
    }
}

#[test]
fn ask_does_not_rebuild_on_any_other_reply() {
    for reply in ["n", "Y", "yes", "no", "y y", "x\n"] {
        assert_eq!(
            run_rebuild(RebuildPolicy::Ask, RebuildState::Deciding, &RebuildEvent::Answer(reply.to_string())),
            step(RebuildState::Idle, RebuildAction::Finish),
            "{:?}",
            reply
        );
        assert!(!reply_agrees(reply));
    }
    assert!(reply_agrees("y"));
    assert!(reply_agrees(""));
}

#[test]
fn failure_of_the_command_fails_the_run_with_its_exit_code() {
    for policy in [RebuildPolicy::Always, RebuildPolicy::Ask] {
        assert_eq!(
            run_rebuild(policy, RebuildState::Running, &RebuildEvent::Exited { code: Some(3) }),
            failed(3)
        );
        assert_eq!(
            run_rebuild(policy, RebuildState::Running, &RebuildEvent::Exited { code: Some(-1) }),
            failed(-1)
        );
        assert_eq!(
            run_rebuild(policy, RebuildState::Running, &RebuildEvent::Exited { code: None }),
            failed(1)
        );
        assert_eq!(run_rebuild(policy, RebuildState::Running, &RebuildEvent::NotStarted), failed(1));
    }
    assert_eq!(
        after_exit(Some(0)),
        RebuildStep { state: RebuildState::Succeeded, action: RebuildAction::Finish }
    );
    assert_eq!(Some(after_exit(Some(2))), failed(2));
    assert_eq!(Some(after_exit(None)), failed(1));
}

#[test]
fn a_trigger_that_is_over_takes_no_step() {
    for policy in [RebuildPolicy::Always, RebuildPolicy::Ask, RebuildPolicy::Never] {
        for state in [RebuildState::Succeeded, RebuildState::Failed] {
            for event in events() {
                assert_eq!(run_rebuild(policy, state, &event), None);
            }
        }
    }
}

#[test]
fn rebuild_events_out_of_turn_give_no_step() {
    assert_eq!(run_rebuild(RebuildPolicy::Ask, RebuildState::Idle, &RebuildEvent::NotStarted), None);
    assert_eq!(run_rebuild(RebuildPolicy::Ask, RebuildState::Running, &RebuildEvent::Begin), None);
    assert_eq!(
        run_rebuild(RebuildPolicy::Never, RebuildState::Running, &RebuildEvent::Exited { code: Some(0) }),
        None
    );
    assert_eq!(run_rebuild(RebuildPolicy::Never, RebuildState::Running, &RebuildEvent::NotStarted), None);
}

#[test]
fn settings_name_the_three_policies_and_nothing_else() {
    assert_eq!(parse_policy("always"), Ok(RebuildPolicy::Always));
    assert_eq!(parse_policy("ask"), Ok(RebuildPolicy::Ask));
    assert_eq!(parse_policy("never"), Ok(RebuildPolicy::Never));
    for setting in ["", "Always", "always ", "sometimes", "neve", "askk"] {
        assert_eq!(parse_policy(setting), Err(Failure::InvalidConfig), "{:?}", setting);
    }
    assert!(same_text("ask", "ask"));
    assert!(!same_text("ask", "as"));
    assert!(same_text("", ""));
}

#[test]
fn command_line_and_setting_settle_the_policy() {
    assert_eq!(choose_policy(false, Some("always")), Ok(RebuildPolicy::Always));
    assert_eq!(choose_policy(false, Some("ask")), Ok(RebuildPolicy::Ask));
    assert_eq!(choose_policy(false, Some("bogus")), Err(Failure::InvalidConfig));
    assert_eq!(choose_policy(false, None), Ok(RebuildPolicy::Never));
    assert_eq!(choose_policy(true, Some("always")), Ok(RebuildPolicy::Never));
    assert_eq!(choose_policy(true, Some("bogus")), Ok(RebuildPolicy::Never));
    assert_eq!(choose_policy(true, None), Ok(RebuildPolicy::Never));
}
