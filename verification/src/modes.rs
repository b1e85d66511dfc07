//! The two edits of the marked region.

use crate::document::lines_of;
use crate::error::Failure;
use crate::identifier::ResolvedIdentifier;
use crate::modes::add::{add_package, added};
use crate::modes::remove::{remove_package, removed};
use crate::region::Markers;
use crate::Action;
use vstd::prelude::*;

pub mod add;
pub mod remove;

verus! {

/// What an action makes of a document, once the package has its identifier.
pub open spec fn edited(
    action: Action,
    lines: Seq<Seq<char>>,
    begin: Seq<char>,
    end: Seq<char>,
    id: Seq<char>,
) -> Result<Seq<Seq<char>>, Failure> {
    match action {
        Action::Add { .. } => added(lines, begin, end, id),
        Action::Remove { .. } => removed(lines, begin, end, id),
    }
}

/// Edits the document as the action says: adds the package or removes it.
pub fn edit(action: &Action, file: &Vec<String>, package: &ResolvedIdentifier, markers: &Markers) -> (done:
    Result<Vec<String>, Failure>)
    ensures
        match edited(*action, lines_of(file@), markers.begin@, markers.end@, package@) {
            Ok(lines) => done matches Ok(doc) && lines_of(doc@) == lines,
            Err(failure) => done matches Err(other) && other == failure,
        },
{
    match action {
        Action::Add { .. } => add_package(file, package, markers),
        Action::Remove { .. } => remove_package(file, package, markers),
    }
}

} // verus!
