//! The steps from a package name to the identifier that stands for it. The
//! caller runs the search backend, asks the user and runs the picker; what
//! is to be done next is decided here.

use crate::document::lines_of;
use crate::error::Failure;
use crate::identifier::ResolvedIdentifier;
use crate::picker::{selected, selection};
use crate::text::{lemma_trim_idempotent, lemma_trim_of_trim_end};
use crate::region::{find_region, marked_region, Markers};
use crate::resolver::{keys_read, outcome_view, resolve, resolved, Resolution, ResolutionView};
use crate::text::{chars_of, is_blank, names_match, same_name, trim, trim_bounds};
use crate::{action_pkg, get_pkg, Action};
use vstd::prelude::*;
use vstd::string::StringExecFns;

verus! {

/// What stays the same over a lookup.
#[derive(Debug)]
pub struct Settings {
    /// The tokens of the marker lines.
    pub markers: Markers,
    /// What the backend puts before each package identifier.
    pub key_prefix: String,
}

impl Clone for Settings {
    fn clone(&self) -> (copy: Self)
        ensures
            copy == *self,
    {
        Settings { markers: self.markers.clone(), key_prefix: self.key_prefix.clone() }
    }
}

impl Default for Settings {
    /// The default markers, and the prefix of the packages for 64-bit Linux
    /// on x86.
    fn default() -> (settings: Self)
        ensures
            settings.markers.begin@ == "# SNOW BEGIN"@,
            settings.markers.end@ == "# SNOW END"@,
            settings.key_prefix@ == "legacyPackages.x86_64-linux."@,
    {
        Settings {
            markers: Markers::default(),
            key_prefix: String::from_str("legacyPackages.x86_64-linux."),
        }
    }
}

/// How far a lookup has come.
#[derive(Clone, Copy, Debug, PartialEq, Eq, Structural)]
pub enum LookupState {
    /// Nothing was done yet.
    Start,
    /// The search backend is running.
    Searching,
    /// The user is asked whether an unknown name is to be added as it is.
    Confirming,
    /// The picker is running.
    Picking,
    /// The lookup is over.
    Done,
}

/// What the caller reports back.
#[derive(Debug, PartialEq, Eq)]
pub enum LookupEvent {
    /// The lookup is to start.
    Begin,
    /// The search backend ended; this is what it printed.
    SearchOutput(String),
    /// The search backend did not start, or ended abnormally.
    SearchFailed,
    /// The user's reply to the question.
    Answer(String),
    /// The picker ended; this is what it printed.
    PickerOutput(String),
    /// The picker did not start.
    PickerFailed,
}

/// What the caller is to do next.
#[derive(Debug, PartialEq, Eq)]
pub enum LookupAction {
    /// Run the search backend on the query, then report its output.
    Search { query: String },
    /// Ask whether the query is to be added though the backend does not know
    /// it, then report the reply.
    Confirm { query: String },
    /// Run the picker on the candidates, then report its output.
    Pick { candidates: Vec<String> },
    /// The lookup succeeded with this identifier.
    Finish { name: ResolvedIdentifier },
    /// The user chose not to go on. The run ends here, with success.
    Abandon,
    /// The lookup failed.
    Fail { failure: Failure },
}

/// An action as plain sequences.
pub enum LookupActionView {
    Search { query: Seq<char> },
    Confirm { query: Seq<char> },
    Pick { candidates: Seq<Seq<char>> },
    Finish { name: Seq<char> },
    Abandon,
    Fail { failure: Failure },
}

impl View for LookupAction {
    type V = LookupActionView;

    open spec fn view(&self) -> LookupActionView {
        match self {
            LookupAction::Search { query } => LookupActionView::Search { query: query@ },
            LookupAction::Confirm { query } => LookupActionView::Confirm { query: query@ },
            LookupAction::Pick { candidates } => LookupActionView::Pick {
                candidates: lines_of(candidates@),
            },
            LookupAction::Finish { name } => LookupActionView::Finish { name: name@ },
            LookupAction::Abandon => LookupActionView::Abandon,
            LookupAction::Fail { failure } => LookupActionView::Fail { failure: *failure },
        }
    }
}

/// One step of a lookup: the state it leads to and what is to be done.
#[derive(Debug, PartialEq, Eq)]
pub struct LookupStep {
    pub state: LookupState,
    pub action: LookupAction,
}

/// A step as plain values.
pub struct LookupStepView {
    pub state: LookupState,
    pub action: LookupActionView,
}

impl View for LookupStep {
    type V = LookupStepView;

    open spec fn view(&self) -> LookupStepView {
        LookupStepView { state: self.state, action: self.action@ }
    }
}

/// The view of a step that may be missing.
pub open spec fn step_view(step: Option<LookupStep>) -> Option<LookupStepView> {
    match step {
        Some(step) => Some(step@),
        None => None,
    }
}

/// The step that ends a lookup in failure.
pub open spec fn failed(failure: Failure) -> LookupStepView {
    LookupStepView { state: LookupState::Done, action: LookupActionView::Fail { failure } }
}

/// The step that ends a lookup with an identifier.
pub open spec fn finished(name: Seq<char>) -> LookupStepView {
    LookupStepView { state: LookupState::Done, action: LookupActionView::Finish { name } }
}

/// How a reply to a yes-or-no question reads.
#[derive(Clone, Copy, Debug, PartialEq, Eq, Structural)]
pub enum Reply {
    Yes,
    No,
    Unknown,
}

/// Reads a reply to the question whether to add an unknown name: `y` in
/// either case, or nothing at all, says yes; `n` in either case says no.
pub open spec fn reply_of(text: Seq<char>) -> Reply {
    let said = trim(text);
    if said.len() == 0 || said == seq!['y'] || said == seq!['Y'] {
        Reply::Yes
    } else if said == seq!['n'] || said == seq!['N'] {
        Reply::No
    } else {
        Reply::Unknown
    }
}

/// The name under which the package already stands in the document: the
/// trimmed package name, where a line from the begin marker up to, not
/// including, the end marker reads the same once trimmed.
pub open spec fn installed_name(
    lines: Seq<Seq<char>>,
    begin: Seq<char>,
    end: Seq<char>,
    pkg: Seq<char>,
) -> Option<Seq<char>> {
    match marked_region(lines, begin, end) {
        Some((b, e)) => if !is_blank(pkg) && exists|i: int|
            b <= i < e && same_name(#[trigger] lines[i], pkg) {
            Some(trim(pkg))
        } else {
            None
        },
        None => None,
    }
}

/// The first step. A package that is to be removed and stands in the
/// document is known by the name it has there; every other name is searched.
pub open spec fn first_step(
    action: Action,
    lines: Seq<Seq<char>>,
    begin: Seq<char>,
    end: Seq<char>,
) -> LookupStepView {
    let pkg = action_pkg(action);
    match installed_name(lines, begin, end, pkg) {
        Some(name) if action is Remove => finished(name),
        _ => LookupStepView {
            state: LookupState::Searching,
            action: LookupActionView::Search { query: pkg },
        },
    }
}

/// The step after the search. One candidate is the identifier; several go to
/// the picker. Where there is none, an addition may still go on under the
/// name as given, if the user agrees; a removal has nothing to remove.
pub open spec fn step_after_search(
    action: Action,
    outcome: Result<ResolutionView, Failure>,
) -> LookupStepView {
    let pkg = action_pkg(action);
    match outcome {
        Ok(ResolutionView::Single(name)) => if is_blank(name) {
            failed(Failure::NotFound)
        } else {
            finished(name)
        },
        Ok(ResolutionView::Multiple(candidates)) => LookupStepView {
            state: LookupState::Picking,
            action: LookupActionView::Pick { candidates },
        },
        Err(failure) => if failure == Failure::NotFound && action is Add && !is_blank(pkg) {
            LookupStepView {
                state: LookupState::Confirming,
                action: LookupActionView::Confirm { query: pkg },
            }
        } else {
            failed(failure)
        },
    }
}

/// The step after the user's reply.
pub open spec fn step_after_reply(action: Action, reply: Seq<char>) -> LookupStepView {
    let pkg = action_pkg(action);
    match reply_of(reply) {
        Reply::Yes => if is_blank(pkg) {
            failed(Failure::NotFound)
        } else {
            finished(pkg)
        },
        Reply::No => LookupStepView {
            state: LookupState::Done,
            action: LookupActionView::Abandon,
        },
        Reply::Unknown => failed(Failure::NotFound),
    }
}

/// The step after the picker.
pub open spec fn step_after_pick(output: Seq<char>) -> LookupStepView {
    match selected(output) {
        Ok(name) => finished(name),
        Err(failure) => failed(failure),
    }
}

/// The step that follows an event in a state; `None` where the state does
/// not expect the event.
pub open spec fn next_step(
    action: Action,
    lines: Seq<Seq<char>>,
    begin: Seq<char>,
    end: Seq<char>,
    prefix: Seq<char>,
    state: LookupState,
    event: LookupEvent,
) -> Option<LookupStepView> {
    match (state, event) {
        (LookupState::Start, LookupEvent::Begin) => Some(first_step(action, lines, begin, end)),
        (LookupState::Searching, LookupEvent::SearchOutput(output)) => Some(
            step_after_search(action, resolved(keys_read(output@), prefix)),
        ),
        (LookupState::Searching, LookupEvent::SearchFailed) => Some(
            failed(Failure::BackendUnavailable),
        ),
        (LookupState::Confirming, LookupEvent::Answer(reply)) => Some(
            step_after_reply(action, reply@),
        ),
        (LookupState::Picking, LookupEvent::PickerOutput(output)) => Some(
            step_after_pick(output@),
        ),
        (LookupState::Picking, LookupEvent::PickerFailed) => Some(
            failed(Failure::PickerUnavailable),
        ),
        _ => None,
    }
}

/// Reads a reply to the question whether to add an unknown name.
pub fn read_reply(text: &str) -> (reply: Reply)
    ensures
        reply == reply_of(text@),
{
    let chars = chars_of(text);
    let (lo, hi) = trim_bounds(&chars);
    let ghost said = trim(text@);
    if lo == hi {
        Reply::Yes
    } else if hi - lo == 1 {
        let c = chars[lo];
        assert(said[0] == c);
        assert(said =~= seq![c]);
        if c == 'y' || c == 'Y' {
            Reply::Yes
        } else if c == 'n' || c == 'N' {
            Reply::No
        } else {
            Reply::Unknown
        }
    } else {
        Reply::Unknown
    }
}

/// Looks the package up among the lines from the begin marker up to, not
/// including, the end marker.
pub fn installed(doc: &Vec<String>, markers: &Markers, pkg: &str) -> (name: Option<
    ResolvedIdentifier,
>)
    ensures
        match installed_name(lines_of(doc@), markers.begin@, markers.end@, pkg@) {
            Some(text) => name matches Some(id) && id@ == text,
            None => name is None,
        },
{
    let ghost lines = lines_of(doc@);
    match find_region(doc, markers) {
        None => None,
        Some(region) => {
            let chars = chars_of(pkg);
            let (lo, hi) = trim_bounds(&chars);
            if lo == hi {
                return None;
            }
            let mut i: usize = region.begin;
            while i < region.end
                invariant
                    region.begin <= i <= region.end < doc.len(),
                    lines == lines_of(doc@),
                    marked_region(lines, markers.begin@, markers.end@) == Some(
                        (region.begin as int, region.end as int),
                    ),
                    !is_blank(pkg@),
                    lo <= hi <= chars.len(),
                    chars@ == pkg@,
                    chars@.subrange(lo as int, hi as int) == trim(pkg@),
                    forall|j: int| region.begin <= j < i ==> !same_name(#[trigger] lines[j], pkg@),
                decreases region.end - i,
            {
                assert(lines[i as int] == doc@[i as int]@);
                if names_match(doc[i].as_str(), &chars, lo, hi) {
                    return ResolvedIdentifier::trimmed(pkg);
                }
                i += 1;
            }
            None
        },
    }
}

/// Takes the first step of a lookup.
pub fn start_lookup(action: &Action, doc: &Vec<String>, markers: &Markers) -> (step: LookupStep)
    ensures
        step@ == first_step(*action, lines_of(doc@), markers.begin@, markers.end@),
{
    if !action.is_add() {
        if let Some(name) = installed(doc, markers, action.pkg()) {
            return LookupStep { state: LookupState::Done, action: LookupAction::Finish { name } };
        }
    }
    LookupStep {
        state: LookupState::Searching,
        action: LookupAction::Search { query: get_pkg(action) },
    }
}

/// Takes the step after the search, from what the search resolved to.
pub fn after_search(action: &Action, outcome: Result<Resolution, Failure>) -> (step: LookupStep)
    ensures
        step@ == step_after_search(*action, outcome_view(outcome)),
{
    match outcome {
        Ok(Resolution::Single(name)) => match ResolvedIdentifier::new(name.as_str()) {
            Some(name) => LookupStep {
                state: LookupState::Done,
                action: LookupAction::Finish { name },
            },
            None => fail(Failure::NotFound),
        },
        Ok(Resolution::Multiple(candidates)) => LookupStep {
            state: LookupState::Picking,
            action: LookupAction::Pick { candidates },
        },
        Err(failure) => {
            if failure == Failure::NotFound && action.is_add() {
                if let Some(_) = ResolvedIdentifier::new(action.pkg()) {
                    return LookupStep {
                        state: LookupState::Confirming,
                        action: LookupAction::Confirm { query: get_pkg(action) },
                    };
                }
            }
            fail(failure)
        },
    }
}

/// Takes the step after the user's reply.
pub fn after_reply(action: &Action, reply: &str) -> (step: LookupStep)
    ensures
        step@ == step_after_reply(*action, reply@),
{
    match read_reply(reply) {
        Reply::Yes => match ResolvedIdentifier::new(action.pkg()) {
            Some(name) => LookupStep {
                state: LookupState::Done,
                action: LookupAction::Finish { name },
            },
            None => fail(Failure::NotFound),
        },
        Reply::No => LookupStep { state: LookupState::Done, action: LookupAction::Abandon },
        Reply::Unknown => fail(Failure::NotFound),
    }
}

/// Takes the step after the picker.
pub fn after_pick(output: &str) -> (step: LookupStep)
    ensures
        step@ == step_after_pick(output@),
{
    match selection(output) {
        Ok(name) => LookupStep { state: LookupState::Done, action: LookupAction::Finish { name } },
        Err(failure) => fail(failure),
    }
}

/// Ends a lookup in failure.
pub fn fail(failure: Failure) -> (step: LookupStep)
    ensures
        step@ == failed(failure),
{
    LookupStep { state: LookupState::Done, action: LookupAction::Fail { failure } }
}

/// Decides what comes next in finding the name under which a package is
/// added or removed. The lookup starts in `Start` with `Begin`; after each
/// step the caller does what the action says and reports back with the
/// matching event, until the state is `Done`. An event that the state does
/// not expect gives `None`.
pub fn get_name(
    action: &Action,
    doc: &Vec<String>,
    settings: &Settings,
    state: LookupState,
    event: &LookupEvent,
) -> (step: Option<LookupStep>)
    ensures
        step_view(step) == next_step(
            *action,
            lines_of(doc@),
            settings.markers.begin@,
            settings.markers.end@,
            settings.key_prefix@,
            state,
            *event,
        ),
{
    match (state, event) {
        (LookupState::Start, LookupEvent::Begin) => Some(
            start_lookup(action, doc, &settings.markers),
        ),
        (LookupState::Searching, LookupEvent::SearchOutput(output)) => Some(
            after_search(action, resolve(output.as_str(), settings.key_prefix.as_str())),
        ),
        (LookupState::Searching, LookupEvent::SearchFailed) => Some(
            fail(Failure::BackendUnavailable),
        ),
        (LookupState::Confirming, LookupEvent::Answer(reply)) => Some(
            after_reply(action, reply.as_str()),
        ),
        (LookupState::Picking, LookupEvent::PickerOutput(output)) => Some(
            after_pick(output.as_str()),
        ),
        (LookupState::Picking, LookupEvent::PickerFailed) => Some(
            fail(Failure::PickerUnavailable),
        ),
        _ => None,
    }
}

/// Every lookup that succeeds gives a name that is not blank.
pub proof fn lemma_finish_is_named(
    action: Action,
    lines: Seq<Seq<char>>,
    begin: Seq<char>,
    end: Seq<char>,
    prefix: Seq<char>,
    state: LookupState,
    event: LookupEvent,
)
    ensures
        next_step(action, lines, begin, end, prefix, state, event) matches Some(step) ==> (
        step.action matches LookupActionView::Finish { name } ==> !is_blank(name)),
{
    lemma_trim_idempotent(action_pkg(action));
    match event {
        LookupEvent::PickerOutput(output) => {
            lemma_trim_of_trim_end(output@);
        },
        _ => {},
    }
}

/// The search backend is asked for in the first step only, and no step
/// leads back to the start: a lookup searches once at most.
pub proof fn lemma_searches_once(
    action: Action,
    lines: Seq<Seq<char>>,
    begin: Seq<char>,
    end: Seq<char>,
    prefix: Seq<char>,
    state: LookupState,
    event: LookupEvent,
)
    ensures
        next_step(action, lines, begin, end, prefix, state, event) matches Some(step) ==> {
            &&& step.state != LookupState::Start
            &&& step.action is Search ==> state == LookupState::Start
            &&& step.action is Search <==> step.state == LookupState::Searching
        },
        state == LookupState::Done ==> next_step(action, lines, begin, end, prefix, state, event)
            is None,
{
}

/// What the number of keys decides. No key: an addition asks whether to go
/// on under the name as given, a removal fails with `NotFound`. One key:
/// the lookup ends with that key stripped, unless nothing is left of it.
/// Two keys or more: the picker gets as many candidates.
pub proof fn lemma_step_by_cardinality(action: Action, keys: Seq<Seq<char>>, prefix: Seq<char>)
    ensures
        ({
            let step = step_after_search(action, resolved(Some(keys), prefix));
            let pkg = action_pkg(action);
            &&& keys.len() == 0 && action is Add && !is_blank(pkg) ==> step == LookupStepView {
                state: LookupState::Confirming,
                action: LookupActionView::Confirm { query: pkg },
            }
            &&& keys.len() == 0 && !(action is Add && !is_blank(pkg)) ==> step == failed(
                Failure::NotFound,
            )
            &&& keys.len() == 1 && !is_blank(crate::resolver::strip_prefix(keys[0], prefix))
                ==> step == finished(crate::resolver::strip_prefix(keys[0], prefix))
            &&& keys.len() >= 2 ==> step.state == LookupState::Picking && (
            step.action matches LookupActionView::Pick { candidates } && candidates.len()
                == keys.len())
        }),
{
}

/// A package that is known by the name it has in the document can be
/// removed under that name.
pub proof fn lemma_installed_can_be_removed(
    lines: Seq<Seq<char>>,
    begin: Seq<char>,
    end: Seq<char>,
    pkg: Seq<char>,
)
    requires
        installed_name(lines, begin, end, pkg) is Some,
    ensures
        crate::modes::remove::removed(
            lines,
            begin,
            end,
            installed_name(lines, begin, end, pkg)->0,
        ) is Ok,
{
    let (b, e) = marked_region(lines, begin, end)->0;
    lemma_trim_idempotent(pkg);
}

} // verus!
