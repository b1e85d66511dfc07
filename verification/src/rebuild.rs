//! Whether and when the rebuild command runs after an edit. The caller
//! prompts and runs the command; what is to be done next is decided here.

use crate::error::Failure;
use crate::text::{chars_of, same_range, trim, trim_bounds};
use vstd::prelude::*;

verus! {

/// When to rebuild after the document was changed.
#[derive(Clone, Copy, Debug, PartialEq, Eq, Structural)]
pub enum RebuildPolicy {
    /// Rebuild without asking.
    Always,
    /// Ask first.
    Ask,
    /// Do not rebuild.
    Never,
}

/// How far the rebuild has come.
#[derive(Clone, Copy, Debug, PartialEq, Eq, Structural)]
pub enum RebuildState {
    /// Nothing was done yet, or the user declined.
    Idle,
    /// The user is asked whether to rebuild.
    Deciding,
    /// The rebuild command is running.
    Running,
    /// Over: rebuilt, or no rebuild was wanted.
    Succeeded,
    /// Over: the rebuild command did not start or reported failure.
    Failed,
}

/// What the caller reports back.
#[derive(Debug, PartialEq, Eq)]
pub enum RebuildEvent {
    /// The document is written; the trigger is to start.
    Begin,
    /// The user's reply to the question.
    Answer(String),
    /// The rebuild command ended, with this exit code if it has one.
    Exited { code: Option<i32> },
    /// The rebuild command did not start.
    NotStarted,
}

/// What the caller is to do next.
#[derive(Clone, Copy, Debug, PartialEq, Eq, Structural)]
pub enum RebuildAction {
    /// Ask whether to rebuild now, then report the reply.
    Prompt,
    /// Run the rebuild command in the project root, then report how it ended.
    Spawn,
    /// Nothing is left to do. The run ends with success.
    Finish,
    /// The rebuild failed. The run ends with this exit status.
    Fail { failure: Failure, status: i32 },
}

/// One step of the trigger: the state it leads to and what is to be done.
#[derive(Clone, Copy, Debug, PartialEq, Eq, Structural)]
pub struct RebuildStep {
    pub state: RebuildState,
    pub action: RebuildAction,
}

/// The policy that a setting names.
pub open spec fn policy_of(setting: Seq<char>) -> Option<RebuildPolicy> {
    if setting == "always"@ {
        Some(RebuildPolicy::Always)
    } else if setting == "ask"@ {
        Some(RebuildPolicy::Ask)
    } else if setting == "never"@ {
        Some(RebuildPolicy::Never)
    } else {
        None
    }
}

/// The policy of a run. Nothing is rebuilt where the user said so on the
/// command line, whatever the setting holds, nor where there is no setting.
pub open spec fn chosen_policy(no_rebuild: bool, setting: Option<Seq<char>>) -> Result<
    RebuildPolicy,
    Failure,
> {
    match setting {
        Some(text) if !no_rebuild => match policy_of(text) {
            Some(policy) => Ok(policy),
            None => Err(Failure::InvalidConfig),
        },
        _ => Ok(RebuildPolicy::Never),
    }
}

/// Whether a reply agrees to the rebuild: the letter `y`, or nothing at all.
pub open spec fn agrees(reply: Seq<char>) -> bool {
    trim(reply) == seq!['y'] || trim(reply).len() == 0
}

/// The exit status after the rebuild command ended or did not start: its
/// own exit code where it has one that is not zero, else 1.
pub open spec fn failure_status(code: Option<i32>) -> i32 {
    match code {
        Some(code) if code != 0 => code,
        _ => 1,
    }
}

/// The step that ends the trigger in failure.
pub open spec fn rebuild_failed(code: Option<i32>) -> RebuildStep {
    RebuildStep {
        state: RebuildState::Failed,
        action: RebuildAction::Fail {
            failure: Failure::RebuildFailed,
            status: failure_status(code),
        },
    }
}

/// The step that follows an event in a state under a policy; `None` where
/// the state does not expect the event.
pub open spec fn next_rebuild(
    policy: RebuildPolicy,
    state: RebuildState,
    event: RebuildEvent,
) -> Option<RebuildStep> {
    match (state, event) {
        (RebuildState::Idle, RebuildEvent::Begin) => Some(
            match policy {
                RebuildPolicy::Always => RebuildStep {
                    state: RebuildState::Running,
                    action: RebuildAction::Spawn,
                },
                RebuildPolicy::Ask => RebuildStep {
                    state: RebuildState::Deciding,
                    action: RebuildAction::Prompt,
                },
                RebuildPolicy::Never => RebuildStep {
                    state: RebuildState::Succeeded,
                    action: RebuildAction::Finish,
                },
            },
        ),
        (RebuildState::Deciding, RebuildEvent::Answer(reply)) if policy == RebuildPolicy::Ask => Some(
            if agrees(reply@) {
                RebuildStep { state: RebuildState::Running, action: RebuildAction::Spawn }
            } else {
                RebuildStep { state: RebuildState::Idle, action: RebuildAction::Finish }
            },
        ),
        (RebuildState::Running, RebuildEvent::Exited { code }) if policy != RebuildPolicy::Never => Some(
            if code == Some(0i32) {
                RebuildStep { state: RebuildState::Succeeded, action: RebuildAction::Finish }
            } else {
                rebuild_failed(code)
            },
        ),
        (RebuildState::Running, RebuildEvent::NotStarted) if policy != RebuildPolicy::Never => Some(
            rebuild_failed(None),
        ),
        _ => None,
    }
}

/// Tells whether two texts are the same.
pub fn same_text(a: &str, b: &str) -> (same: bool)
    ensures
        same == (a@ == b@),
{
    let x = chars_of(a);
    let y = chars_of(b);
    proof {
        assert(x@.subrange(0, x.len() as int) =~= x@);
        assert(y@.subrange(0, y.len() as int) =~= y@);
    }
    same_range(&x, 0, x.len(), &y, 0, y.len())
}

/// Reads the rebuild setting.
pub fn parse_policy(setting: &str) -> (policy: Result<RebuildPolicy, Failure>)
    ensures
        match policy_of(setting@) {
            Some(named) => policy == Ok::<RebuildPolicy, Failure>(named),
            None => policy == Err::<RebuildPolicy, Failure>(Failure::InvalidConfig),
        },
{
    if same_text(setting, "always") {
        Ok(RebuildPolicy::Always)
    } else if same_text(setting, "ask") {
        Ok(RebuildPolicy::Ask)
    } else if same_text(setting, "never") {
        Ok(RebuildPolicy::Never)
    } else {
        Err(Failure::InvalidConfig)
    }
}

/// Settles the policy of a run from the command line and the setting.
pub fn choose_policy(no_rebuild: bool, setting: Option<&str>) -> (policy: Result<
    RebuildPolicy,
    Failure,
>)
    ensures
        policy == chosen_policy(
            no_rebuild,
            match setting {
                Some(text) => Some(text@),
                None => None,
            },
        ),
{
    match setting {
        Some(text) => if no_rebuild {
            Ok(RebuildPolicy::Never)
        } else {
            parse_policy(text)
        },
        None => Ok(RebuildPolicy::Never),
    }
}

/// Tells whether a reply agrees to the rebuild.
pub fn reply_agrees(reply: &str) -> (yes: bool)
    ensures
        yes == agrees(reply@),
{
    let chars = chars_of(reply);
    let (lo, hi) = trim_bounds(&chars);
    if lo == hi {
        true
    } else if hi - lo == 1 {
        let c = chars[lo];
        assert(trim(reply@)[0] == c);
        if c == 'y' {
            assert(trim(reply@) =~= seq!['y']);
        }
        c == 'y'
    } else {
        false
    }
}

/// Decides what comes next in the rebuild after an edit. The trigger starts
/// in `Idle` with `Begin`, once the document is written; after each step the
/// caller does what the action says and reports back with the matching
/// event, until the action is `Finish` or `Fail`. An event that the state
/// does not expect gives `None`.
pub fn run_rebuild(policy: RebuildPolicy, state: RebuildState, event: &RebuildEvent) -> (step:
    Option<RebuildStep>)
    ensures
        step == next_rebuild(policy, state, *event),
{
    match (state, event) {
        (RebuildState::Idle, RebuildEvent::Begin) => Some(
            match policy {
                RebuildPolicy::Always => RebuildStep {
                    state: RebuildState::Running,
                    action: RebuildAction::Spawn,
                },
                RebuildPolicy::Ask => RebuildStep {
                    state: RebuildState::Deciding,
                    action: RebuildAction::Prompt,
                },
                RebuildPolicy::Never => RebuildStep {
                    state: RebuildState::Succeeded,
                    action: RebuildAction::Finish,
                },
            },
        ),
        (RebuildState::Deciding, RebuildEvent::Answer(reply)) => match policy {
            RebuildPolicy::Ask => Some(
                if reply_agrees(reply.as_str()) {
                    RebuildStep { state: RebuildState::Running, action: RebuildAction::Spawn }
                } else {
                    RebuildStep { state: RebuildState::Idle, action: RebuildAction::Finish }
                },
            ),
            _ => None,
        },
        (RebuildState::Running, RebuildEvent::Exited { code }) => match policy {
            RebuildPolicy::Never => None,
            _ => Some(after_exit(*code)),
        },
        (RebuildState::Running, RebuildEvent::NotStarted) => match policy {
            RebuildPolicy::Never => None,
            _ => Some(after_exit(None)),
        },
        _ => None,
    }
}

/// The step after the rebuild command ended with `code`, or without one.
pub fn after_exit(code: Option<i32>) -> (step: RebuildStep)
    ensures
        step == (if code == Some(0i32) {
            RebuildStep { state: RebuildState::Succeeded, action: RebuildAction::Finish }
        } else {
            rebuild_failed(code)
        }),
{
    match code {
        Some(0) => RebuildStep { state: RebuildState::Succeeded, action: RebuildAction::Finish },
        Some(code) => RebuildStep {
            state: RebuildState::Failed,
            action: RebuildAction::Fail { failure: Failure::RebuildFailed, status: code },
        },
        None => RebuildStep {
            state: RebuildState::Failed,
            action: RebuildAction::Fail { failure: Failure::RebuildFailed, status: 1 },
        },
    }
}

/// Under the policy `Never` no step asks for the rebuild command, and the
/// first step ends the trigger with success.
pub proof fn lemma_never_spawns(state: RebuildState, event: RebuildEvent)
    ensures
        next_rebuild(RebuildPolicy::Never, state, event) matches Some(step) ==> step.action
            != RebuildAction::Spawn,
        next_rebuild(RebuildPolicy::Never, RebuildState::Idle, RebuildEvent::Begin) == Some(
            RebuildStep { state: RebuildState::Succeeded, action: RebuildAction::Finish },
        ),
{
}

/// The rebuild command is asked for in two cases only: at the start under
/// `Always`, and under `Ask` after the user agreed.
pub proof fn lemma_spawn_cases(policy: RebuildPolicy, state: RebuildState, event: RebuildEvent)
    requires
        next_rebuild(policy, state, event) matches Some(step) && step.action
            == RebuildAction::Spawn,
    ensures
        match event {
            RebuildEvent::Begin => policy == RebuildPolicy::Always && state == RebuildState::Idle,
            RebuildEvent::Answer(reply) => policy == RebuildPolicy::Ask && state
                == RebuildState::Deciding && agrees(reply@),
            _ => false,
        },
{
}

/// A trigger that has succeeded or failed takes no further step.
pub proof fn lemma_rebuild_ends(policy: RebuildPolicy, state: RebuildState, event: RebuildEvent)
    requires
        state == RebuildState::Succeeded || state == RebuildState::Failed,
    ensures
        next_rebuild(policy, state, event) is None,
{
}

/// The rebuild command runs once at most: the step that asks for it leads
/// to `Running`, no other step does, and from `Running` every step ends the
/// trigger.
pub proof fn lemma_spawns_once(policy: RebuildPolicy, state: RebuildState, event: RebuildEvent)
    ensures
        next_rebuild(policy, state, event) matches Some(step) ==> {
            &&& step.action == RebuildAction::Spawn <==> step.state == RebuildState::Running
            &&& state == RebuildState::Running ==> step.state == RebuildState::Succeeded
                || step.state == RebuildState::Failed
            &&& step.state == RebuildState::Failed <==> step.action is Fail
        },
{
}

} // verus!
