//! The order in which lines are sorted: byte by byte over their UTF-8 form,
//! a shorter line before any longer line that it starts.

use crate::document::lines_of;
use vstd::prelude::*;
use vstd::relations::{sorted_by, total_ordering};
use vstd::seq_lib::{lemma_sorted_unique, to_multiset_insert, to_multiset_len};
use vstd::utf8::{encode_utf8, encode_utf8_decode_utf8};

verus! {

/// Whether `a` comes no later than `b` when byte strings are compared
/// position by position.
pub open spec fn bytes_le(a: Seq<u8>, b: Seq<u8>) -> bool
    decreases a.len(),
{
    if a.len() == 0 {
        true
    } else if b.len() == 0 {
        false
    } else if a[0] != b[0] {
        a[0] < b[0]
    } else {
        bytes_le(a.drop_first(), b.drop_first())
    }
}

/// Whether line `a` sorts no later than line `b`.
pub open spec fn line_le(a: Seq<char>, b: Seq<char>) -> bool {
    bytes_le(encode_utf8(a), encode_utf8(b))
}

/// The line order as a relation.
pub open spec fn line_order() -> spec_fn(Seq<char>, Seq<char>) -> bool {
    |a: Seq<char>, b: Seq<char>| line_le(a, b)
}

/// Whether a run of lines is in non-decreasing order.
pub open spec fn lines_sorted(lines: Seq<Seq<char>>) -> bool {
    sorted_by(lines, line_order())
}

/// The lines of a run put in order.
pub open spec fn sorted_lines(lines: Seq<Seq<char>>) -> Seq<Seq<char>> {
    lines.sort_by(line_order())
}

/// A byte string comes no later than itself.
proof fn lemma_bytes_le_reflexive(a: Seq<u8>)
    ensures
        bytes_le(a, a),
    decreases a.len(),
{
    if a.len() > 0 {
        lemma_bytes_le_reflexive(a.drop_first());
    }
}

/// Two byte strings that each come no later than the other are the same.
proof fn lemma_bytes_le_antisymmetric(a: Seq<u8>, b: Seq<u8>)
    requires
        bytes_le(a, b),
        bytes_le(b, a),
    ensures
        a == b,
    decreases a.len(),
{
    if a.len() > 0 {
        lemma_bytes_le_antisymmetric(a.drop_first(), b.drop_first());
        assert(a =~= seq![a[0]] + a.drop_first());
    }
}

/// What comes no later than a byte string comes no later than any that it
/// precedes.
proof fn lemma_bytes_le_transitive(a: Seq<u8>, b: Seq<u8>, c: Seq<u8>)
    requires
        bytes_le(a, b),
        bytes_le(b, c),
    ensures
        bytes_le(a, c),
    decreases a.len(),
{
    if a.len() > 0 && a[0] == b[0] && b[0] == c[0] {
        lemma_bytes_le_transitive(a.drop_first(), b.drop_first(), c.drop_first());
    }
}

/// Of two byte strings one comes no later than the other.
proof fn lemma_bytes_le_total(a: Seq<u8>, b: Seq<u8>)
    ensures
        bytes_le(a, b) || bytes_le(b, a),
    decreases a.len(),
{
    if a.len() > 0 && b.len() > 0 && a[0] == b[0] {
        lemma_bytes_le_total(a.drop_first(), b.drop_first());
    }
}

/// Lines are totally ordered: any two compare, and two lines that each come
/// no later than the other are the same line.
pub proof fn lemma_line_order_total()
    ensures
        total_ordering(line_order()),
{
    let r = line_order();
    assert forall|x: Seq<char>| #[trigger] r(x, x) by {
        lemma_bytes_le_reflexive(encode_utf8(x));
    }
    assert forall|x: Seq<char>, y: Seq<char>| #[trigger] r(x, y) && #[trigger] r(y, x) implies x
        == y by {
        lemma_bytes_le_antisymmetric(encode_utf8(x), encode_utf8(y));
        encode_utf8_decode_utf8(x);
        encode_utf8_decode_utf8(y);
    }
    assert forall|x: Seq<char>, y: Seq<char>, z: Seq<char>| #[trigger]
        r(x, y) && #[trigger] r(y, z) implies r(x, z) by {
        lemma_bytes_le_transitive(encode_utf8(x), encode_utf8(y), encode_utf8(z));
    }
    assert forall|x: Seq<char>, y: Seq<char>| #[trigger] r(x, y) || #[trigger] r(y, x) by {
        lemma_bytes_le_total(encode_utf8(x), encode_utf8(y));
    }
}

/// Sorting keeps every line, as often as it occurs, and puts the lines in
/// order.
pub proof fn lemma_sorted_lines(lines: Seq<Seq<char>>)
    ensures
        lines_sorted(sorted_lines(lines)),
        sorted_lines(lines).to_multiset() == lines.to_multiset(),
        sorted_lines(lines).len() == lines.len(),
{
    lemma_line_order_total();
    lines.lemma_sort_by_ensures(line_order());
    to_multiset_len(lines);
    to_multiset_len(sorted_lines(lines));
}

/// There is one way only to put lines in order: a run in order that holds
/// the same lines as often is the sorted run.
pub proof fn lemma_sorted_lines_unique(lines: Seq<Seq<char>>, ordered: Seq<Seq<char>>)
    requires
        lines_sorted(ordered),
        ordered.to_multiset() == lines.to_multiset(),
    ensures
        ordered == sorted_lines(lines),
{
    lemma_line_order_total();
    lemma_sorted_lines(lines);
    lemma_sorted_unique(ordered, sorted_lines(lines), line_order());
}

/// Tells whether line `a` sorts no later than line `b`.
pub fn line_before(a: &str, b: &str) -> (le: bool)
    ensures
        le == line_le(a@, b@),
{
    let x = a.as_bytes();
    let y = b.as_bytes();
    let mut i: usize = 0;
    proof {
        assert(x@.skip(0) =~= x@);
        assert(y@.skip(0) =~= y@);
    }
    while i < x.len() && i < y.len()
        invariant
            i <= x@.len(),
            i <= y@.len(),
            x@ == encode_utf8(a@),
            y@ == encode_utf8(b@),
            bytes_le(x@, y@) == bytes_le(x@.skip(i as int), y@.skip(i as int)),
        decreases x@.len() - i,
    {
        if x[i] != y[i] {
            return x[i] < y[i];
        }
        proof {
            assert(x@.skip(i as int).drop_first() =~= x@.skip(i + 1));
            assert(y@.skip(i as int).drop_first() =~= y@.skip(i + 1));
        }
        i += 1;
    }
    i == x.len()
}

/// Where a line goes into a run: behind the lines at the start of the run
/// that sort no later than it.
pub open spec fn slot_of(run: Seq<Seq<char>>, line: Seq<char>) -> int
    decreases run.len(),
{
    if run.len() > 0 && line_le(run[0], line) {
        1 + slot_of(run.drop_first(), line)
    } else {
        0
    }
}

/// The slot is the first place at which a line of the run sorts later.
pub proof fn lemma_slot_of(run: Seq<Seq<char>>, line: Seq<char>, at: int)
    requires
        0 <= at <= run.len(),
        forall|j: int| 0 <= j < at ==> line_le(#[trigger] run[j], line),
        at == run.len() || !line_le(run[at], line),
    ensures
        slot_of(run, line) == at,
    decreases at,
{
    if at > 0 {
        let rest = run.drop_first();
        assert forall|j: int| 0 <= j < at - 1 implies line_le(#[trigger] rest[j], line) by {
            assert(rest[j] == run[j + 1]);
        }
        lemma_slot_of(rest, line, at - 1);
    }
}

/// Puts a line into a run, at its slot. A run that was in order is in order
/// afterwards.
pub fn insert_sorted(sorted: &mut Vec<String>, line: String)
    ensures
        lines_of(final(sorted)@) == lines_of(old(sorted)@).insert(
            slot_of(lines_of(old(sorted)@), line@),
            line@,
        ),
        lines_sorted(lines_of(old(sorted)@)) ==> lines_sorted(lines_of(final(sorted)@)),
        lines_of(final(sorted)@).to_multiset() == lines_of(old(sorted)@).to_multiset().insert(
            line@,
        ),
{
    let ghost before = lines_of(sorted@);
    let mut at: usize = 0;
    while at < sorted.len() && line_before(sorted[at].as_str(), line.as_str())
        invariant
            at <= sorted.len(),
            before == lines_of(sorted@),
            forall|j: int| 0 <= j < at ==> line_le(#[trigger] before[j], line@),
        decreases sorted.len() - at,
    {
        at += 1;
    }
    sorted.insert(at, line);
    proof {
        let after = lines_of(sorted@);
        lemma_slot_of(before, line@, at as int);
        assert(after =~= before.insert(at as int, line@));
        to_multiset_insert(before, at as int, line@);
        if lines_sorted(before) {
            lemma_line_order_total();
            let le = line_order();
            assert forall|j: int| at <= j < before.len() implies line_le(
                line@,
                #[trigger] before[j],
            ) by {
                assert(le(line@, before[at as int]) || le(before[at as int], line@));
                assert(j == at || le(before[at as int], before[j]));
            }
        }
    }
}

} // verus!
