//! What holds of the two edits, whatever the document.

use crate::error::Failure;
use crate::modes::add::{added, entry_for, stands_between, with_entry};
use crate::modes::remove::{
    lemma_filter_drops_one, lemma_filter_drops_two, lemma_removal_changes, removed, stands_in,
    stays, without,
};
use crate::order::{
    lemma_line_order_total, lemma_sorted_lines, lemma_sorted_lines_unique, line_le, line_order,
    lines_sorted, sorted_lines,
};
use crate::region::{
    lemma_first_line_with, lemma_first_line_with_at_most, lemma_first_line_with_found,
    lemma_first_line_with_shared, line_has, marked_region,
};
use vstd::seq_lib::{
    lemma_multiset_commutative, to_multiset_build, to_multiset_contains, to_multiset_insert,
    to_multiset_remove,
};
use crate::text::{lemma_indent_is_space, lemma_trim_indented, same_name};
use vstd::prelude::*;

verus! {

/// A marked region lies within the document, the begin marker before the
/// end marker.
pub proof fn lemma_region_bounds(lines: Seq<Seq<char>>, begin: Seq<char>, end: Seq<char>)
    ensures
        marked_region(lines, begin, end) matches Some((b, e)) ==> 0 <= b < e < lines.len(),
{
    lemma_first_line_with_found(lines, begin);
}

/// Adding a package that stands between the markers already is rejected
/// with `AlreadyPresent`, and adding is rejected so for no other reason.
pub proof fn lemma_add_rejects_present(
    lines: Seq<Seq<char>>,
    begin: Seq<char>,
    end: Seq<char>,
    id: Seq<char>,
)
    ensures
        added(lines, begin, end, id) == Err::<Seq<Seq<char>>, Failure>(Failure::AlreadyPresent)
            <==> (marked_region(lines, begin, end) matches Some((b, e)) && stands_between(
            lines,
            b,
            e,
            id,
        )),
{
}

/// Removing a package that stands nowhere from marker to marker is rejected
/// with `NotPresent`, and the document that the removal would have given is
/// the given document, line for line. Removing is rejected so for no other
/// reason.
pub proof fn lemma_remove_rejects_absent(
    lines: Seq<Seq<char>>,
    begin: Seq<char>,
    end: Seq<char>,
    id: Seq<char>,
)
    ensures
        removed(lines, begin, end, id) == Err::<Seq<Seq<char>>, Failure>(Failure::NotPresent)
            <==> (marked_region(lines, begin, end) matches Some((b, e)) && !stands_in(
            lines,
            b,
            e,
            id,
        )),
        marked_region(lines, begin, end) matches Some((b, e)) ==> (!stands_in(lines, b, e, id)
            <==> without(lines, b, e, id) == lines),
        removed(lines, begin, end, id) matches Ok(fewer) ==> fewer.len() < lines.len(),
{
    lemma_region_bounds(lines, begin, end);
    if let Some((b, e)) = marked_region(lines, begin, end) {
        lemma_removal_changes(lines, b, e, id);
    }
}

/// The new entry names the package that it was made for.
pub proof fn lemma_entry_names_package(marker_line: Seq<char>, id: Seq<char>)
    ensures
        same_name(entry_for(marker_line, id), id),
{
    lemma_indent_is_space(marker_line);
    lemma_trim_indented(crate::text::indent_of(marker_line), id);
}

/// After an addition the document has one line more; the lines from the
/// begin marker's place to the end marker's place, which is one further
/// down than it was, are in non-decreasing order; they are the lines that
/// stood there and the new entry; and the lines before and behind them are
/// as they were.
pub proof fn lemma_add_sorts(lines: Seq<Seq<char>>, begin: Seq<char>, end: Seq<char>, id: Seq<char>)
    requires
        added(lines, begin, end, id) is Ok,
    ensures
        ({
            let grown = added(lines, begin, end, id)->Ok_0;
            let (b, e) = marked_region(lines, begin, end)->0;
            &&& grown.len() == lines.len() + 1
            &&& lines_sorted(grown.subrange(b, e + 2))
            &&& grown.subrange(b, e + 2).to_multiset() == lines.subrange(b, e + 1).to_multiset().insert(
                entry_for(lines[b], id),
            )
            &&& grown.take(b) == lines.take(b)
            &&& grown.skip(e + 2) == lines.skip(e + 1)
        }),
{
    lemma_region_bounds(lines, begin, end);
    let grown = added(lines, begin, end, id)->Ok_0;
    let (b, e) = marked_region(lines, begin, end)->0;
    let entry = entry_for(lines[b], id);
    let range = lines.subrange(b, e + 1);
    lemma_sorted_lines(range.push(entry));
    to_multiset_build(range, entry);
    let middle = sorted_lines(range.push(entry));
    assert(grown.subrange(b, e + 2) =~= middle);
}

/// Adding is the same as putting the new line right behind the begin
/// marker and then sorting from the begin marker to the end marker, which
/// by then stands one line further down.
pub proof fn lemma_insert_then_sort(lines: Seq<Seq<char>>, b: int, e: int, entry: Seq<char>)
    requires
        0 <= b < e < lines.len(),
    ensures
        ({
            let longer = lines.insert(b + 1, entry);
            with_entry(lines, b, e, entry) == longer.take(b) + sorted_lines(
                longer.subrange(b, e + 2),
            ) + longer.skip(e + 2)
        }),
{
    let longer = lines.insert(b + 1, entry);
    let range = lines.subrange(b, e + 1);
    assert(longer.subrange(b, e + 2) =~= range.insert(1, entry));
    to_multiset_insert(range, 1, entry);
    to_multiset_build(range, entry);
    lemma_sorted_lines(range.insert(1, entry));
    lemma_sorted_lines_unique(range.push(entry), sorted_lines(range.insert(1, entry)));
}

/// After an addition the markers of the new document, where it has a
/// marked region, stand within the lines that were put in order. So the
/// lines from its begin marker to its end marker are in non-decreasing
/// order.
pub proof fn lemma_add_sorts_region(
    lines: Seq<Seq<char>>,
    begin: Seq<char>,
    end: Seq<char>,
    id: Seq<char>,
)
    requires
        added(lines, begin, end, id) is Ok,
        marked_region(added(lines, begin, end, id)->Ok_0, begin, end) is Some,
    ensures
        ({
            let grown = added(lines, begin, end, id)->Ok_0;
            let (b, e) = marked_region(lines, begin, end)->0;
            let (b2, e2) = marked_region(grown, begin, end)->0;
            &&& b <= b2 < e2 <= e + 1
            &&& lines_sorted(grown.subrange(b2, e2 + 1))
        }),
{
    lemma_region_bounds(lines, begin, end);
    lemma_add_sorts(lines, begin, end, id);
    let grown = added(lines, begin, end, id)->Ok_0;
    let (b, e) = marked_region(lines, begin, end)->0;
    let (b2, e2) = marked_region(grown, begin, end)->0;
    lemma_first_line_with_shared(lines, grown, begin, b);
    let entry = entry_for(lines[b], id);
    let range = lines.subrange(b, e + 1);
    let middle = grown.subrange(b, e + 2);
    assert(range.push(entry)[e - b] == lines[e]);
    to_multiset_contains(range.push(entry), lines[e]);
    to_multiset_build(range, entry);
    to_multiset_contains(middle, lines[e]);
    let at = choose|i: int| 0 <= i < middle.len() && middle[i] == lines[e];
    lemma_first_line_with_found(lines, end);
    lemma_first_line_with_at_most(grown, end, b + at);
    let le = crate::order::line_order();
    let inner = grown.subrange(b2, e2 + 1);
    assert forall|i: int, j: int| 0 <= i < j < inner.len() implies #[trigger] le(
        inner[i],
        inner[j],
    ) by {
        assert(le(middle[b2 - b + i], middle[b2 - b + j]));
    }
}

/// The document with the lines from `b` to `e`, both counted in, put in
/// order and nothing else changed.
pub open spec fn tidied(lines: Seq<Seq<char>>, b: int, e: int) -> Seq<Seq<char>> {
    lines.take(b) + sorted_lines(lines.subrange(b, e + 1)) + lines.skip(e + 1)
}

/// A document whose lines from `b` to `e` are in order already is as it is
/// when they are put in order.
pub proof fn lemma_tidied_when_sorted(lines: Seq<Seq<char>>, b: int, e: int)
    requires
        0 <= b <= e < lines.len(),
    ensures
        lines_sorted(lines.subrange(b, e + 1)) <==> tidied(lines, b, e) == lines,
{
    let range = lines.subrange(b, e + 1);
    lemma_sorted_lines(range);
    if lines_sorted(range) {
        lemma_sorted_lines_unique(range, range);
        assert(lines.take(b) + range + lines.skip(e + 1) =~= lines);
    }
}

/// Adding a package and then removing it gives the document back with the
/// lines from marker to marker in order, and so the very document where
/// they were in order before. This holds where, in the document after the
/// addition, the new entry at index `at` stands from marker to marker and
/// is the one line there that names the package.
pub proof fn lemma_add_then_remove(
    lines: Seq<Seq<char>>,
    begin: Seq<char>,
    end: Seq<char>,
    id: Seq<char>,
    at: int,
)
    requires
        added(lines, begin, end, id) is Ok,
        marked_region(added(lines, begin, end, id)->Ok_0, begin, end) is Some,
        ({
            let grown = added(lines, begin, end, id)->Ok_0;
            let (b, e) = marked_region(lines, begin, end)->0;
            let (b2, e2) = marked_region(grown, begin, end)->0;
            &&& b2 <= at <= e2
            &&& grown[at] == entry_for(lines[b], id)
            &&& forall|i: int| b2 <= i <= e2 && same_name(#[trigger] grown[i], id) ==> i == at
        }),
    ensures
        ({
            let grown = added(lines, begin, end, id)->Ok_0;
            let (b, e) = marked_region(lines, begin, end)->0;
            &&& removed(grown, begin, end, id) == Ok::<Seq<Seq<char>>, Failure>(tidied(lines, b, e))
            &&& lines_sorted(lines.subrange(b, e + 1)) ==> removed(grown, begin, end, id) == Ok::<
                Seq<Seq<char>>,
                Failure,
            >(lines)
        }),
{
    lemma_region_bounds(lines, begin, end);
    lemma_add_sorts(lines, begin, end, id);
    lemma_add_sorts_region(lines, begin, end, id);
    let grown = added(lines, begin, end, id)->Ok_0;
    let (b, e) = marked_region(lines, begin, end)->0;
    let (b2, e2) = marked_region(grown, begin, end)->0;
    let range = lines.subrange(b, e + 1);
    let middle = grown.subrange(b, e + 2);
    lemma_entry_names_package(lines[b], id);

    let inner = grown.subrange(b2, e2 + 1);
    lemma_filter_drops_one(inner, stays(id), at - b2);
    assert(without(grown, b2, e2, id) =~= grown.remove(at));
    assert(grown.remove(at) =~= lines.take(b) + middle.remove(at - b) + lines.skip(e + 1));

    let rest = middle.remove(at - b);
    to_multiset_remove(middle, at - b);
    assert(rest.to_multiset() =~= range.to_multiset());
    lemma_sorted_lines_unique(range, rest);
    lemma_tidied_when_sorted(lines, b, e);
}

/// In a run in order, a line that sorts no earlier than the first line and
/// no later than the last has a place between two neighbours.
proof fn lemma_slot(range: Seq<Seq<char>>, entry: Seq<char>, from: int) -> (at: int)
    requires
        1 <= from < range.len(),
        line_le(range[from - 1], entry),
        line_le(entry, range.last()),
    ensures
        from <= at < range.len(),
        line_le(range[at - 1], entry),
        line_le(entry, range[at]),
    decreases range.len() - from,
{
    if line_le(entry, range[from]) {
        from
    } else {
        lemma_line_order_total();
        let le = line_order();
        assert(le(entry, range[from]) || le(range[from], entry));
        lemma_slot(range, entry, from + 1)
    }
}

/// Adding a package and then removing it gives the very document back,
/// where the lines from marker to marker were in order, none of them named
/// the package, and the new entry sorts no earlier than the begin-marker
/// line and no later than the end-marker line.
pub proof fn lemma_round_trip(
    lines: Seq<Seq<char>>,
    begin: Seq<char>,
    end: Seq<char>,
    id: Seq<char>,
)
    requires
        marked_region(lines, begin, end) is Some,
        ({
            let (b, e) = marked_region(lines, begin, end)->0;
            &&& lines_sorted(lines.subrange(b, e + 1))
            &&& !stands_in(lines, b, e, id)
            &&& line_le(lines[b], entry_for(lines[b], id))
            &&& line_le(entry_for(lines[b], id), lines[e])
        }),
    ensures
        added(lines, begin, end, id) is Ok,
        removed(added(lines, begin, end, id)->Ok_0, begin, end, id) == Ok::<
            Seq<Seq<char>>,
            Failure,
        >(lines),
{
    lemma_region_bounds(lines, begin, end);
    let (b, e) = marked_region(lines, begin, end)->0;
    let entry = entry_for(lines[b], id);
    let range = lines.subrange(b, e + 1);
    let grown = added(lines, begin, end, id)->Ok_0;

    // Where the entry stands among the sorted lines.
    lemma_line_order_total();
    let le = line_order();
    let slot = lemma_slot(range, entry, 1);
    assert forall|j: int| 0 <= j < slot implies line_le(#[trigger] range[j], entry) by {
        assert(le(range[j], range[slot - 1]) && le(range[slot - 1], entry) ==> le(range[j], entry));
    }
    assert forall|j: int| slot <= j < range.len() implies line_le(entry, #[trigger] range[j]) by {
        assert(le(entry, range[slot]) && le(range[slot], range[j]) ==> le(entry, range[j]));
    }
    let placed = range.insert(slot, entry);
    to_multiset_insert(range, slot, entry);
    to_multiset_build(range, entry);
    lemma_sorted_lines_unique(range.push(entry), placed);
    let at = b + slot;

    // Where the markers stand after the addition.
    lemma_first_line_with_found(lines, begin);
    lemma_first_line_with_found(lines, end);
    lemma_first_line_with(grown, begin, b);
    let e2 = if line_has(entry, end) {
        at
    } else {
        e + 1
    };
    lemma_first_line_with(grown, end, e2);

    lemma_add_then_remove(lines, begin, end, id, at);
}

/// After an addition the document holds the lines that it held and the new
/// entry, each as often as before and the entry once more.
pub proof fn lemma_add_keeps_lines(
    lines: Seq<Seq<char>>,
    begin: Seq<char>,
    end: Seq<char>,
    id: Seq<char>,
)
    requires
        added(lines, begin, end, id) is Ok,
    ensures
        ({
            let grown = added(lines, begin, end, id)->Ok_0;
            let (b, e) = marked_region(lines, begin, end)->0;
            grown.to_multiset() == lines.to_multiset().insert(entry_for(lines[b], id))
        }),
{
    lemma_region_bounds(lines, begin, end);
    lemma_add_sorts(lines, begin, end, id);
    let grown = added(lines, begin, end, id)->Ok_0;
    let (b, e) = marked_region(lines, begin, end)->0;
    let range = lines.subrange(b, e + 1);
    let middle = grown.subrange(b, e + 2);
    let head = lines.take(b);
    let tail = lines.skip(e + 1);
    assert(lines =~= head + range + tail);
    assert(grown =~= head + middle + tail);
    lemma_multiset_commutative(head, range);
    lemma_multiset_commutative(head + range, tail);
    lemma_multiset_commutative(head, middle);
    lemma_multiset_commutative(head + middle, tail);
}

/// Adding a package and then removing it gives the very document back in
/// no other case than the one that `lemma_add_then_remove` states: the
/// lines from marker to marker were in order, and after the addition the
/// new entry stands from marker to marker and is the one line there that
/// names the package.
pub proof fn lemma_round_trip_only(
    lines: Seq<Seq<char>>,
    begin: Seq<char>,
    end: Seq<char>,
    id: Seq<char>,
)
    requires
        added(lines, begin, end, id) is Ok,
        removed(added(lines, begin, end, id)->Ok_0, begin, end, id) == Ok::<
            Seq<Seq<char>>,
            Failure,
        >(lines),
    ensures
        marked_region(added(lines, begin, end, id)->Ok_0, begin, end) is Some,
        ({
            let grown = added(lines, begin, end, id)->Ok_0;
            let (b, e) = marked_region(lines, begin, end)->0;
            let (b2, e2) = marked_region(grown, begin, end)->0;
            &&& lines_sorted(lines.subrange(b, e + 1))
            &&& exists|at: int|
                {
                    &&& b2 <= at <= e2
                    &&& #[trigger] grown[at] == entry_for(lines[b], id)
                    &&& forall|i: int| b2 <= i <= e2 && same_name(#[trigger] grown[i], id) ==> i == at
                }
        }),
{
    lemma_region_bounds(lines, begin, end);
    let grown = added(lines, begin, end, id)->Ok_0;
    let (b, e) = marked_region(lines, begin, end)->0;
    let entry = entry_for(lines[b], id);
    lemma_add_sorts(lines, begin, end, id);
    lemma_add_keeps_lines(lines, begin, end, id);
    lemma_region_bounds(grown, begin, end);
    let (b2, e2) = marked_region(grown, begin, end)->0;
    let at = choose|i: int| b2 <= i <= e2 && same_name(#[trigger] grown[i], id);
    let inner = grown.subrange(b2, e2 + 1);
    assert forall|i: int| b2 <= i <= e2 && same_name(#[trigger] grown[i], id) implies i == at by {
        if i != at {
            if i < at {
                lemma_filter_drops_two(inner, stays(id), i - b2, at - b2);
            } else {
                lemma_filter_drops_two(inner, stays(id), at - b2, i - b2);
            }
        }
    }
    lemma_filter_drops_one(inner, stays(id), at - b2);
    assert(without(grown, b2, e2, id) =~= grown.remove(at));
    to_multiset_remove(grown, at);
    assert(grown[at] == entry) by {
        if grown[at] != entry {
            assert(lines.to_multiset().count(entry) == lines.to_multiset().insert(entry).remove(
                grown[at],
            ).count(entry));
        }
    }
    lemma_add_then_remove(lines, begin, end, id, at);
    lemma_tidied_when_sorted(lines, b, e);
}

} // verus!
