//! The marked region of a document: the lines from the first line that holds
//! the begin token to the first line that holds the end token.

use crate::document::lines_of;
use crate::text::{chars_of, has_substring, range_contains, trim, trim_bounds};
use vstd::prelude::*;
use vstd::string::StringExecFns;

verus! {

/// The two tokens that bound the marked region.
#[derive(Debug)]
pub struct Markers {
    /// Token of the line that opens the region.
    pub begin: String,
    /// Token of the line that closes the region.
    pub end: String,
}

impl Clone for Markers {
    fn clone(&self) -> (copy: Self)
        ensures
            copy == *self,
    {
        Markers { begin: self.begin.clone(), end: self.end.clone() }
    }
}

impl Default for Markers {
    /// The tokens `# SNOW BEGIN` and `# SNOW END`.
    fn default() -> (markers: Self)
        ensures
            markers.begin@ == "# SNOW BEGIN"@,
            markers.end@ == "# SNOW END"@,
    {
        Markers { begin: String::from_str("# SNOW BEGIN"), end: String::from_str("# SNOW END") }
    }
}

/// Where the marker lines stand in a document.
#[derive(Clone, Copy, Debug, PartialEq, Eq, Structural)]
pub struct MarkedRegion {
    /// Index of the begin-marker line.
    pub begin: usize,
    /// Index of the end-marker line.
    pub end: usize,
}

/// A region that may be missing, as a pair of indices.
pub open spec fn region_view(region: Option<MarkedRegion>) -> Option<(int, int)> {
    match region {
        Some(region) => Some((region.begin as int, region.end as int)),
        None => None,
    }
}

/// Whether a line, once trimmed, holds the token.
pub open spec fn line_has(line: Seq<char>, token: Seq<char>) -> bool {
    has_substring(trim(line), token)
}

/// Index of the first line that holds the token; the number of lines where
/// no line holds it.
pub open spec fn first_line_with(lines: Seq<Seq<char>>, token: Seq<char>) -> int
    decreases lines.len(),
{
    if lines.len() == 0 {
        0
    } else if line_has(lines[0], token) {
        0
    } else {
        1 + first_line_with(lines.drop_first(), token)
    }
}

/// The marked region of a document: the indices of the first line with the
/// begin token and of the first line with the end token, wherever in the
/// document that one stands. There is a region only where both lines exist
/// and the begin marker comes first.
pub open spec fn marked_region(lines: Seq<Seq<char>>, begin: Seq<char>, end: Seq<char>) -> Option<
    (int, int),
> {
    let b = first_line_with(lines, begin);
    let e = first_line_with(lines, end);
    if b < e < lines.len() {
        Some((b, e))
    } else {
        None
    }
}

/// The first line with a token is the one before which no line holds it.
pub proof fn lemma_first_line_with(lines: Seq<Seq<char>>, token: Seq<char>, k: int)
    requires
        0 <= k <= lines.len(),
        forall|i: int| 0 <= i < k ==> !line_has(#[trigger] lines[i], token),
        k == lines.len() || line_has(lines[k], token),
    ensures
        first_line_with(lines, token) == k,
    decreases k,
{
    if k > 0 {
        let rest = lines.drop_first();
        lemma_first_line_with(rest, token, k - 1);
    }
}

/// What `first_line_with` finds: an index within bounds, a line with the
/// token there, and none before it.
pub proof fn lemma_first_line_with_found(lines: Seq<Seq<char>>, token: Seq<char>)
    ensures
        0 <= first_line_with(lines, token) <= lines.len(),
        forall|i: int|
            0 <= i < first_line_with(lines, token) ==> !line_has(#[trigger] lines[i], token),
        first_line_with(lines, token) < lines.len() ==> line_has(
            lines[first_line_with(lines, token)],
            token,
        ),
    decreases lines.len(),
{
    if lines.len() > 0 && !line_has(lines[0], token) {
        let rest = lines.drop_first();
        lemma_first_line_with_found(rest, token);
        assert forall|i: int| 0 <= i < first_line_with(lines, token) implies !line_has(
            #[trigger] lines[i],
            token,
        ) by {
            if i > 0 {
                assert(lines[i] == rest[i - 1]);
            }
        }
    }
}

/// The first line with a token comes no later than any line with it.
pub proof fn lemma_first_line_with_at_most(lines: Seq<Seq<char>>, token: Seq<char>, j: int)
    requires
        0 <= j < lines.len(),
        line_has(lines[j], token),
    ensures
        first_line_with(lines, token) <= j,
{
    lemma_first_line_with_found(lines, token);
}

/// Two documents that start with the same `k` lines agree on where the
/// first line with a token stands, as far as it stands among those lines.
pub proof fn lemma_first_line_with_shared(
    lines: Seq<Seq<char>>,
    other: Seq<Seq<char>>,
    token: Seq<char>,
    k: int,
)
    requires
        0 <= k <= lines.len(),
        k <= other.len(),
        lines.take(k) == other.take(k),
    ensures
        first_line_with(lines, token) < k ==> first_line_with(other, token) == first_line_with(
            lines,
            token,
        ),
        first_line_with(lines, token) >= k ==> first_line_with(other, token) >= k,
{
    lemma_first_line_with_found(lines, token);
    lemma_first_line_with_found(other, token);
    assert forall|i: int| 0 <= i < k implies lines[i] == other[i] by {
        assert(lines.take(k)[i] == other.take(k)[i]);
    }
}

/// Tells whether a line, once trimmed, holds the token.
pub fn line_holds(line: &str, token: &Vec<char>) -> (holds: bool)
    ensures
        holds == line_has(line@, token@),
{
    let chars = chars_of(line);
    let (lo, hi) = trim_bounds(&chars);
    range_contains(&chars, lo, hi, token)
}

/// Locates the marked region in one pass over the document.
pub fn find_region(doc: &Vec<String>, markers: &Markers) -> (found: Option<MarkedRegion>)
    ensures
        region_view(found) == marked_region(lines_of(doc@), markers.begin@, markers.end@),
        found matches Some(region) ==> region.begin < region.end < doc.len(),
{
    let begin_token = chars_of(markers.begin.as_str());
    let end_token = chars_of(markers.end.as_str());
    let n = doc.len();
    let ghost lines = lines_of(doc@);
    let mut begin: usize = n;
    let mut end: usize = n;
    let mut i: usize = 0;
    while i < n
        invariant
            i <= n,
            n == doc.len(),
            lines == lines_of(doc@),
            begin_token@ == markers.begin@,
            end_token@ == markers.end@,
            begin == n || begin < i,
            end == n || end < i,
            begin < n ==> line_has(lines[begin as int], begin_token@),
            end < n ==> line_has(lines[end as int], end_token@),
            forall|j: int|
                0 <= j < i && j < begin ==> !line_has(#[trigger] lines[j], begin_token@),
            forall|j: int| 0 <= j < i && j < end ==> !line_has(#[trigger] lines[j], end_token@),
        decreases n - i,
    {
        let line = doc[i].as_str();
        if begin == n && line_holds(line, &begin_token) {
            begin = i;
        }
        if end == n && line_holds(line, &end_token) {
            end = i;
        }
        i += 1;
    }
    proof {
        lemma_first_line_with(lines, markers.begin@, begin as int);
        lemma_first_line_with(lines, markers.end@, end as int);
    }
    if begin < end && end < n {
        Some(MarkedRegion { begin, end })
    } else {
        None
    }
}

} // verus!
