//! Adding a package: a new line after the begin marker, then the lines from
//! marker to marker in order.

use crate::document::{copy_lines, lines_of};
use crate::error::Failure;
use crate::identifier::ResolvedIdentifier;
use crate::order::{insert_sorted, lemma_sorted_lines_unique, lines_sorted, sorted_lines};
use crate::region::{find_region, marked_region, MarkedRegion, Markers};
use crate::text::{
    chars_of, count_leading, indent_of, names_match, same_name, text_from, trim, trim_bounds,
};
use vstd::prelude::*;
use vstd::seq_lib::to_multiset_build;
use vstd::string::StringExecFns;

verus! {

/// Whether a line strictly between `b` and `e` names `id`.
pub open spec fn stands_between(lines: Seq<Seq<char>>, b: int, e: int, id: Seq<char>) -> bool {
    exists|i: int| b < i < e && same_name(#[trigger] lines[i], id)
}

/// The line of a new entry: the identifier behind the whitespace that the
/// begin-marker line starts with.
pub open spec fn entry_for(marker_line: Seq<char>, id: Seq<char>) -> Seq<char> {
    indent_of(marker_line) + id
}

/// The document with a new line between the markers: the lines from `b` to
/// `e`, both counted in, and the new line are put in order together; the
/// lines before and behind stay. The marker lines take part in the order as
/// lines like any other: they keep their places only where the begin marker
/// sorts before, and the end marker behind, every line between them. Where
/// among those lines the new line is put before the sort makes no
/// difference: lines in order have one order only.
pub open spec fn with_entry(lines: Seq<Seq<char>>, b: int, e: int, entry: Seq<char>) -> Seq<
    Seq<char>,
> {
    lines.take(b) + sorted_lines(lines.subrange(b, e + 1).push(entry)) + lines.skip(e + 1)
}

/// What adding `id` makes of a document. Without a marked region nothing is
/// edited; with one, the package must not stand between the markers yet.
pub open spec fn added(
    lines: Seq<Seq<char>>,
    begin: Seq<char>,
    end: Seq<char>,
    id: Seq<char>,
) -> Result<Seq<Seq<char>>, Failure> {
    match marked_region(lines, begin, end) {
        None => Err(Failure::MarkersMissing),
        Some((b, e)) => if stands_between(lines, b, e, id) {
            Err(Failure::AlreadyPresent)
        } else {
            Ok(with_entry(lines, b, e, entry_for(lines[b], id)))
        },
    }
}

/// Puts a new line into the document and the lines from `region.begin` to
/// `region.end`, both counted in, in order with it.
pub fn insert_entry(file: &Vec<String>, region: MarkedRegion, entry: String) -> (doc: Vec<String>)
    requires
        region.begin <= region.end < file.len(),
    ensures
        lines_of(doc@) == with_entry(
            lines_of(file@),
            region.begin as int,
            region.end as int,
            entry@,
        ),
{
    let ghost lines = lines_of(file@);
    let ghost range = lines.subrange(region.begin as int, region.end + 1);
    let ghost new_line = entry@;
    let mut sorted: Vec<String> = Vec::new();
    let mut i: usize = region.begin;
    proof {
        assert(lines_of(sorted@) =~= Seq::<Seq<char>>::empty());
        assert(range.take(0) =~= Seq::<Seq<char>>::empty());
    }
    while i <= region.end
        invariant
            region.begin <= i <= region.end + 1,
            region.end < file.len(),
            lines == lines_of(file@),
            range == lines.subrange(region.begin as int, region.end + 1),
            lines_sorted(lines_of(sorted@)),
            lines_of(sorted@).to_multiset() == range.take(i - region.begin).to_multiset(),
        decreases region.end + 1 - i,
    {
        let line = file[i].clone();
        proof {
            let k = i - region.begin;
            assert(range.take(k + 1) =~= range.take(k).push(line@));
            to_multiset_build(range.take(k), line@);
        }
        insert_sorted(&mut sorted, line);
        i += 1;
    }
    proof {
        assert(range.take(range.len() as int) =~= range);
        to_multiset_build(range, new_line);
    }
    insert_sorted(&mut sorted, entry);
    proof {
        lemma_sorted_lines_unique(range.push(new_line), lines_of(sorted@));
    }
    let mut doc: Vec<String> = Vec::new();
    copy_lines(&mut doc, file, 0, region.begin);
    doc.append(&mut sorted);
    copy_lines(&mut doc, file, region.end + 1, file.len());
    doc
}

/// Adds a package to the document: returns the document with one more line,
/// the identifier indented like the begin marker, and with the lines from
/// the begin marker to the end marker in order. The given document is left
/// as it is; the caller stores the new one. `MarkersMissing` says that
/// there is no marked region and nothing to store; `AlreadyPresent` that a
/// line between the markers reads as the identifier once trimmed.
pub fn add_package(file: &Vec<String>, package: &ResolvedIdentifier, markers: &Markers) -> (edited:
    Result<Vec<String>, Failure>)
    ensures
        match added(lines_of(file@), markers.begin@, markers.end@, package@) {
            Ok(lines) => edited matches Ok(doc) && lines_of(doc@) == lines,
            Err(failure) => edited matches Err(other) && other == failure,
        },
{
    let ghost lines = lines_of(file@);
    let region = match find_region(file, markers) {
        Some(region) => region,
        None => {
            return Err(Failure::MarkersMissing);
        },
    };
    let name = chars_of(package.as_str());
    let (lo, hi) = trim_bounds(&name);
    let mut i: usize = region.begin + 1;
    while i < region.end
        invariant
            region.begin < i <= region.end < file.len(),
            lines == lines_of(file@),
            marked_region(lines, markers.begin@, markers.end@) == Some(
                (region.begin as int, region.end as int),
            ),
            lo <= hi <= name.len(),
            name@.subrange(lo as int, hi as int) == trim(package@),
            forall|j: int| region.begin < j < i ==> !same_name(#[trigger] lines[j], package@),
        decreases region.end - i,
    {
        assert(lines[i as int] == file@[i as int]@);
        if names_match(file[i].as_str(), &name, lo, hi) {
            return Err(Failure::AlreadyPresent);
        }
        i += 1;
    }
    let marker_line = file[region.begin].as_str();
    let marker_chars = chars_of(marker_line);
    let indent = count_leading(&marker_chars);
    let mut entry = text_from(&marker_chars, 0, indent);
    entry.append(package.as_str());
    Ok(insert_entry(file, region, entry))
}

} // verus!
