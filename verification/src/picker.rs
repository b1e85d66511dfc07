//! What goes to the interactive picker, and what is made of its answer.

use crate::document::{join_lines, lines_of, text_of};
use crate::error::Failure;
use crate::identifier::ResolvedIdentifier;
use crate::text::{chars_of, is_blank, lemma_trim_of_trim_end, text_from, trim_bounds, trim_end};
use vstd::prelude::*;
use vstd::string::StringExecFns;

verus! {

/// What the picker's output selects: the output without its trailing
/// whitespace. Output with no name in it, empty or blank, selects nothing.
pub open spec fn selected(output: Seq<char>) -> Result<Seq<char>, Failure> {
    if is_blank(output) {
        Err(Failure::SelectionCancelled)
    } else {
        Ok(trim_end(output))
    }
}

/// The text that the picker reads: the candidates, one on each line.
pub fn picker_input(candidates: &Vec<String>) -> (input: String)
    ensures
        input@ == join_lines(lines_of(candidates@)),
{
    text_of(candidates)
}

/// The shell command that shows the description of the candidate under the
/// cursor. The picker puts the candidate in place of `{}`; the description
/// is read from the backend's output, kept in the file at `path`.
pub open spec fn preview_of(path: Seq<char>, prefix: Seq<char>) -> Seq<char> {
    "cat "@ + path + " | jq -rcs '.[0][\""@ + prefix + "{}\"][\"description\"]'"@
}

/// Builds the picker's preview command.
pub fn preview_command(path: &str, prefix: &str) -> (command: String)
    ensures
        command@ == preview_of(path@, prefix@),
{
    let mut command = String::from_str("cat ");
    command.append(path);
    command.append(" | jq -rcs '.[0][\"");
    command.append(prefix);
    command.append("{}\"][\"description\"]'");
    command
}

/// The arguments with which the picker is run: the preview in a wrapped
/// window, 45 columns wide.
pub fn picker_arguments(preview: &str) -> (arguments: Vec<String>)
    ensures
        lines_of(arguments@) == seq!["--preview-window=wrap:45"@, "--preview"@, preview@],
{
    let mut arguments: Vec<String> = Vec::new();
    arguments.push(String::from_str("--preview-window=wrap:45"));
    arguments.push(String::from_str("--preview"));
    arguments.push(String::from_str(preview));
    assert(lines_of(arguments@) =~= seq!["--preview-window=wrap:45"@, "--preview"@, preview@]);
    arguments
}

/// Reads the picker's output.
pub fn selection(output: &str) -> (choice: Result<ResolvedIdentifier, Failure>)
    ensures
        match selected(output@) {
            Ok(name) => choice matches Ok(id) && id@ == name,
            Err(failure) => choice matches Err(other) && other == failure,
        },
{
    let chars = chars_of(output);
    let (lo, hi) = trim_bounds(&chars);
    if lo == hi {
        return Err(Failure::SelectionCancelled);
    }
    proof {
        lemma_trim_of_trim_end(output@);
    }
    match ResolvedIdentifier::new(text_from(&chars, 0, hi).as_str()) {
        Some(id) => Ok(id),
        None => Err(Failure::SelectionCancelled),
    }
}

} // verus!
