//! Removing a package: every line from marker to marker that names it goes.

use crate::document::{copy_lines, lines_of};
use crate::error::Failure;
use crate::identifier::ResolvedIdentifier;
use crate::region::{find_region, marked_region, Markers};
use crate::text::{chars_of, names_match, same_name, trim, trim_bounds};
use vstd::prelude::*;

verus! {

/// The lines that stay when `id` is removed: those that do not name it.
pub open spec fn stays(id: Seq<char>) -> spec_fn(Seq<char>) -> bool {
    |line: Seq<char>| !same_name(line, id)
}

/// Whether a line with an index from `lo` to `hi`, both counted in, names
/// `id`.
pub open spec fn stands_in(lines: Seq<Seq<char>>, lo: int, hi: int, id: Seq<char>) -> bool {
    exists|i: int| lo <= i <= hi && same_name(#[trigger] lines[i], id)
}

/// The document without the lines from `b` to `e`, both counted in, that
/// name `id`. The marker lines are lines like any other here.
pub open spec fn without(lines: Seq<Seq<char>>, b: int, e: int, id: Seq<char>) -> Seq<Seq<char>> {
    lines.take(b) + lines.subrange(b, e + 1).filter(stays(id)) + lines.skip(e + 1)
}

/// What removing `id` makes of a document. Without a marked region nothing
/// is edited; with one, the package must stand in it.
pub open spec fn removed(
    lines: Seq<Seq<char>>,
    begin: Seq<char>,
    end: Seq<char>,
    id: Seq<char>,
) -> Result<Seq<Seq<char>>, Failure> {
    match marked_region(lines, begin, end) {
        None => Err(Failure::MarkersMissing),
        Some((b, e)) => if stands_in(lines, b, e, id) {
            Ok(without(lines, b, e, id))
        } else {
            Err(Failure::NotPresent)
        },
    }
}

/// Filtering a sequence that grew by one item.
pub proof fn lemma_filter_push<A>(s: Seq<A>, x: A, keep: spec_fn(A) -> bool)
    ensures
        s.push(x).filter(keep) == if keep(x) {
            s.filter(keep).push(x)
        } else {
            s.filter(keep)
        },
{
    reveal(Seq::filter);
    assert(s.push(x).drop_last() =~= s);
}

/// A filter that every item passes changes nothing.
pub proof fn lemma_filter_keeps_all<A>(s: Seq<A>, keep: spec_fn(A) -> bool)
    requires
        forall|i: int| 0 <= i < s.len() ==> keep(#[trigger] s[i]),
    ensures
        s.filter(keep) == s,
    decreases s.len(),
{
    reveal(Seq::filter);
    if s.len() > 0 {
        let init = s.drop_last();
        lemma_filter_keeps_all(init, keep);
    }
}

/// A filter that some item fails makes the sequence shorter.
pub proof fn lemma_filter_drops_some<A>(s: Seq<A>, keep: spec_fn(A) -> bool, k: int)
    requires
        0 <= k < s.len(),
        !keep(s[k]),
    ensures
        s.filter(keep).len() < s.len(),
    decreases s.len(),
{
    reveal(Seq::filter);
    let init = s.drop_last();
    init.lemma_filter_len(keep);
    if k < s.len() - 1 {
        lemma_filter_drops_some(init, keep, k);
    }
}

/// A filter that two items fail makes the sequence shorter by two at least.
pub proof fn lemma_filter_drops_two<A>(s: Seq<A>, keep: spec_fn(A) -> bool, i: int, j: int)
    requires
        0 <= i < j < s.len(),
        !keep(s[i]),
        !keep(s[j]),
    ensures
        s.filter(keep).len() + 2 <= s.len(),
    decreases s.len(),
{
    reveal(Seq::filter);
    let init = s.drop_last();
    if j < s.len() - 1 {
        lemma_filter_drops_two(init, keep, i, j);
    } else {
        lemma_filter_drops_some(init, keep, i);
    }
}

/// A filter that one item alone fails takes that item out.
pub proof fn lemma_filter_drops_one<A>(s: Seq<A>, keep: spec_fn(A) -> bool, k: int)
    requires
        0 <= k < s.len(),
        !keep(s[k]),
        forall|i: int| 0 <= i < s.len() && i != k ==> keep(#[trigger] s[i]),
    ensures
        s.filter(keep) == s.remove(k),
{
    let head = s.take(k);
    let tail = s.skip(k + 1);
    let one = seq![s[k]];
    assert(s =~= head + one + tail);
    lemma_filter_keeps_all(head, keep);
    lemma_filter_keeps_all(tail, keep);
    assert(one.filter(keep) =~= Seq::<A>::empty()) by {
        reveal(Seq::filter);
        assert(one.drop_last().filter(keep) =~= Seq::<A>::empty());
    }
}

/// Removing changes the document exactly when the package stands in the
/// region: where no line from marker to marker names it, the document that
/// a removal would give is the given document, line for line.
pub proof fn lemma_removal_changes(lines: Seq<Seq<char>>, b: int, e: int, id: Seq<char>)
    requires
        0 <= b <= e < lines.len(),
    ensures
        stands_in(lines, b, e, id) <==> without(lines, b, e, id) != lines,
        stands_in(lines, b, e, id) ==> without(lines, b, e, id).len() < lines.len(),
{
    let range = lines.subrange(b, e + 1);
    assert(lines =~= lines.take(b) + range + lines.skip(e + 1));
    if stands_in(lines, b, e, id) {
        let i = choose|i: int| b <= i <= e && same_name(#[trigger] lines[i], id);
        lemma_filter_drops_some(range, stays(id), i - b);
    } else {
        lemma_filter_keeps_all(range, stays(id));
    }
}

/// Removes a package from the document: returns the document without the
/// lines, from the begin marker to the end marker, that read as the
/// identifier once trimmed. The given document is left as it is; the caller
/// stores the new one. `MarkersMissing` says that there is no marked region
/// and nothing to store; `NotPresent` that no line named the package.
pub fn remove_package(file: &Vec<String>, package: &ResolvedIdentifier, markers: &Markers) -> (edited:
    Result<Vec<String>, Failure>)
    ensures
        match removed(lines_of(file@), markers.begin@, markers.end@, package@) {
            Ok(lines) => edited matches Ok(doc) && lines_of(doc@) == lines,
            Err(failure) => edited matches Err(other) && other == failure,
        },
{
    let ghost lines = lines_of(file@);
    let region = match find_region(file, markers) {
        Some(region) => region,
        None => {
            return Err(Failure::MarkersMissing);
        },
    };
    let ghost range = lines.subrange(region.begin as int, region.end + 1);
    let name = chars_of(package.as_str());
    let (lo, hi) = trim_bounds(&name);
    let mut doc: Vec<String> = Vec::new();
    copy_lines(&mut doc, file, 0, region.begin);
    let mut found = false;
    let mut i: usize = region.begin;
    while i <= region.end
        invariant
            region.begin <= i <= region.end + 1,
            region.end < file.len(),
            lines == lines_of(file@),
            range == lines.subrange(region.begin as int, region.end + 1),
            lo <= hi <= name.len(),
            name@.subrange(lo as int, hi as int) == trim(package@),
            lines_of(doc@) == lines.take(region.begin as int) + range.take(
                i - region.begin,
            ).filter(stays(package@)),
            found == stands_in(lines, region.begin as int, i - 1, package@),
        decreases region.end + 1 - i,
    {
        let ghost k = i - region.begin;
        let ghost line = lines[i as int];
        proof {
            assert(range.take(k + 1) =~= range.take(k).push(line));
            lemma_filter_push(range.take(k), line, stays(package@));
        }
        if names_match(file[i].as_str(), &name, lo, hi) {
            found = true;
        } else {
            let copy = file[i].clone();
            proof {
                assert(lines_of(doc@.push(copy)) =~= lines_of(doc@).push(line));
            }
            doc.push(copy);
        }
        i += 1;
    }
    if !found {
        return Err(Failure::NotPresent);
    }
    assert(range.take(range.len() as int) =~= range);
    copy_lines(&mut doc, file, region.end + 1, file.len());
    Ok(doc)
}

} // verus!
