//! Text primitives on character sequences: whitespace, trimming and
//! substring search.

use vstd::prelude::*;

verus! {

/// Whether `c` has the Unicode property White_Space.
pub open spec fn is_space(c: char) -> bool {
    let n = c as u32;
    ||| 0x09 <= n <= 0x0D
    ||| n == 0x20
    ||| n == 0x85
    ||| n == 0xA0
    ||| n == 0x1680
    ||| 0x2000 <= n <= 0x200A
    ||| n == 0x2028
    ||| n == 0x2029
    ||| n == 0x202F
    ||| n == 0x205F
    ||| n == 0x3000
}

/// Tells whether a character is whitespace.
pub fn is_whitespace(c: char) -> (b: bool)
    ensures
        b == is_space(c),
{
    let n: u32 = c as u32;
    (0x09 <= n && n <= 0x0D) || n == 0x20 || n == 0x85 || n == 0xA0 || n == 0x1680 || (0x2000 <= n
        && n <= 0x200A) || n == 0x2028 || n == 0x2029 || n == 0x202F || n == 0x205F || n == 0x3000
}

/// The characters of a string slice, in order.
pub fn chars_of(s: &str) -> (v: Vec<char>)
    ensures
        v@ == s@,
{
    let mut v: Vec<char> = Vec::new();
    for c in it: s.chars()
        invariant
            it.seq() == s@,
            v@ == s@.take(it.index()),
    {
        v.push(c);
    }
    v
}

/// Calls `String::push`, which appends one character to the end of the
/// string.
#[verifier::external_body]
pub(crate) fn push_char(text: &mut String, c: char)
    ensures
        final(text)@ == old(text)@.push(c),
{
    text.push(c)
}

/// The text of the characters of `v` from `lo` up to, not including, `hi`.
pub fn text_from(v: &Vec<char>, lo: usize, hi: usize) -> (text: String)
    requires
        lo <= hi <= v.len(),
    ensures
        text@ == v@.subrange(lo as int, hi as int),
{
    let mut text = String::new();
    let mut i: usize = lo;
    while i < hi
        invariant
            lo <= i <= hi <= v.len(),
            text@ == v@.subrange(lo as int, i as int),
        decreases hi - i,
    {
        push_char(&mut text, v[i]);
        i += 1;
    }
    text
}

/// How many whitespace characters stand at the start of `s`.
pub open spec fn leading_spaces(s: Seq<char>) -> nat
    decreases s.len(),
{
    if s.len() > 0 && is_space(s[0]) {
        1 + leading_spaces(s.drop_first())
    } else {
        0
    }
}

/// How many whitespace characters stand at the end of `s`.
pub open spec fn trailing_spaces(s: Seq<char>) -> nat
    decreases s.len(),
{
    if s.len() > 0 && is_space(s.last()) {
        1 + trailing_spaces(s.drop_last())
    } else {
        0
    }
}

/// The whitespace run that `s` starts with.
pub open spec fn indent_of(s: Seq<char>) -> Seq<char> {
    s.take(leading_spaces(s) as int)
}

/// `s` without its leading whitespace.
pub open spec fn trim_start(s: Seq<char>) -> Seq<char> {
    s.skip(leading_spaces(s) as int)
}

/// `s` without its trailing whitespace.
pub open spec fn trim_end(s: Seq<char>) -> Seq<char> {
    s.take(s.len() - trailing_spaces(s))
}

/// `s` without its leading and trailing whitespace.
pub open spec fn trim(s: Seq<char>) -> Seq<char> {
    trim_end(trim_start(s))
}

/// Whether `s` has nothing but whitespace in it.
pub open spec fn is_blank(s: Seq<char>) -> bool {
    trim(s).len() == 0
}

/// Whether the characters of `hay` from position `k` on begin with `needle`.
pub open spec fn occurs_at(hay: Seq<char>, k: int, needle: Seq<char>) -> bool {
    0 <= k && k + needle.len() <= hay.len() && hay.subrange(k, k + needle.len()) == needle
}

/// Whether `needle` occurs in `hay` as a run of consecutive characters.
pub open spec fn has_substring(hay: Seq<char>, needle: Seq<char>) -> bool {
    exists|k: int| occurs_at(hay, k, needle)
}

/// Whether two texts name the same thing: they are equal once trimmed.
pub open spec fn same_name(a: Seq<char>, b: Seq<char>) -> bool {
    trim(a) == trim(b)
}

/// The leading run is the longest all-whitespace prefix.
pub proof fn lemma_leading_spaces(s: Seq<char>, n: int)
    requires
        0 <= n <= s.len(),
        forall|i: int| 0 <= i < n ==> is_space(s[i]),
        n == s.len() || !is_space(s[n]),
    ensures
        leading_spaces(s) == n,
    decreases n,
{
    if n > 0 {
        lemma_leading_spaces(s.drop_first(), n - 1);
    }
}

/// The trailing run is the longest all-whitespace suffix.
pub proof fn lemma_trailing_spaces(s: Seq<char>, n: int)
    requires
        0 <= n <= s.len(),
        forall|i: int| s.len() - n <= i < s.len() ==> is_space(s[i]),
        n == s.len() || !is_space(s[s.len() - n - 1]),
    ensures
        trailing_spaces(s) == n,
    decreases n,
{
    if n > 0 {
        lemma_trailing_spaces(s.drop_last(), n - 1);
    }
}

/// The runs that trimming removes lie inside the text and hold whitespace only;
/// what is left neither starts nor ends with whitespace.
pub proof fn lemma_trim_shape(s: Seq<char>)
    ensures
        leading_spaces(s) <= s.len(),
        trailing_spaces(s) <= s.len(),
        forall|i: int| 0 <= i < leading_spaces(s) ==> is_space(s[i]),
        forall|i: int| s.len() - trailing_spaces(s) <= i < s.len() ==> is_space(s[i]),
        leading_spaces(s) < s.len() ==> !is_space(s[leading_spaces(s) as int]),
        trailing_spaces(s) < s.len() ==> !is_space(s[s.len() - trailing_spaces(s) - 1]),
    decreases s.len(),
{
    if s.len() > 0 {
        if is_space(s[0]) {
            let t = s.drop_first();
            lemma_trim_shape(t);
            assert forall|i: int| 0 <= i < leading_spaces(s) implies is_space(s[i]) by {
                if i > 0 {
                    assert(s[i] == t[i - 1]);
                }
            }
        }
        if is_space(s.last()) {
            let t = s.drop_last();
            lemma_trim_shape(t);
            assert forall|i: int| s.len() - trailing_spaces(s) <= i < s.len() implies is_space(
                s[i],
            ) by {
                if i < s.len() - 1 {
                    assert(s[i] == t[i]);
                }
            }
        }
    }
}

/// A text is blank exactly when its leading whitespace run is all of it;
/// otherwise trimming keeps what stands between the two runs.
pub proof fn lemma_trim_range(s: Seq<char>)
    ensures
        is_blank(s) <==> leading_spaces(s) == s.len(),
        is_blank(s) <==> trailing_spaces(s) == s.len(),
        !is_blank(s) ==> leading_spaces(s) + trailing_spaces(s) < s.len(),
        !is_blank(s) ==> trim(s) == s.subrange(
            leading_spaces(s) as int,
            s.len() - trailing_spaces(s),
        ),
{
    let l = leading_spaces(s) as int;
    let t = trailing_spaces(s) as int;
    let u = trim_start(s);
    lemma_trim_shape(s);
    if l != s.len() {
        assert(l < s.len() - t);
        lemma_trailing_spaces(u, t);
    }
}

/// The trailing run plays no part in what trimming keeps.
pub proof fn lemma_trim_of_trim_end(s: Seq<char>)
    ensures
        trim(trim_end(s)) == trim(s),
        is_blank(trim_end(s)) == is_blank(s),
{
    let l = leading_spaces(s) as int;
    let e = trim_end(s);
    lemma_trim_shape(s);
    lemma_trim_range(s);
    if !is_blank(s) {
        lemma_leading_spaces(e, l);
    }
}

/// Whitespace put before a text is trimmed away with the rest.
pub proof fn lemma_trim_indented(indent: Seq<char>, s: Seq<char>)
    requires
        forall|i: int| 0 <= i < indent.len() ==> is_space(indent[i]),
    ensures
        trim(indent + s) == trim(s),
        same_name(indent + s, s),
{
    let whole = indent + s;
    let l = leading_spaces(s) as int;
    lemma_trim_shape(s);
    lemma_leading_spaces(whole, indent.len() + l);
    assert(whole.skip(indent.len() + l) =~= s.skip(l));
}

/// The whitespace that a text starts with is whitespace.
pub proof fn lemma_indent_is_space(s: Seq<char>)
    ensures
        forall|i: int| 0 <= i < indent_of(s).len() ==> is_space(indent_of(s)[i]),
{
    lemma_trim_shape(s);
}

/// Trimming what is trimmed already changes nothing.
pub proof fn lemma_trim_idempotent(s: Seq<char>)
    ensures
        trim(trim(s)) == trim(s),
        is_blank(trim(s)) == is_blank(s),
{
    let u = trim_start(s);
    lemma_trim_shape(s);
    lemma_trim_shape(u);
}

/// Counts the whitespace characters at the start of `v`.
pub fn count_leading(v: &Vec<char>) -> (n: usize)
    ensures
        n == leading_spaces(v@),
        n <= v.len(),
{
    let mut n: usize = 0;
    while n < v.len() && is_whitespace(v[n])
        invariant
            n <= v.len(),
            forall|i: int| 0 <= i < n ==> is_space(v@[i]),
        decreases v.len() - n,
    {
        n += 1;
    }
    proof {
        lemma_leading_spaces(v@, n as int);
    }
    n
}

/// Finds the part of `v` that trimming keeps: the characters from `lo` up to,
/// not including, `hi`.
pub fn trim_bounds(v: &Vec<char>) -> (r: (usize, usize))
    ensures
        r.0 <= r.1 <= v.len(),
        r.0 == leading_spaces(v@),
        r.0 < r.1 ==> r.1 == v.len() - trailing_spaces(v@),
        r.0 == r.1 <==> is_blank(v@),
        v@.subrange(r.0 as int, r.1 as int) == trim(v@),
{
    let lo = count_leading(v);
    let mut hi: usize = v.len();
    while hi > lo && is_whitespace(v[hi - 1])
        invariant
            lo <= hi <= v.len(),
            forall|i: int| hi <= i < v.len() ==> is_space(v@[i]),
        decreases hi,
    {
        hi -= 1;
    }
    proof {
        let t = v@.skip(lo as int);
        lemma_trailing_spaces(t, v.len() - hi);
        lemma_trim_range(v@);
    }
    (lo, hi)
}

/// Compares `len` characters of `a` from `i` on with those of `b` from `j` on.
pub fn same_run(a: &Vec<char>, i: usize, b: &Vec<char>, j: usize, len: usize) -> (same: bool)
    requires
        i + len <= a.len(),
        j + len <= b.len(),
    ensures
        same == (a@.subrange(i as int, i + len) == b@.subrange(j as int, j + len)),
{
    let mut k: usize = 0;
    while k < len
        invariant
            k <= len,
            i + len <= a.len(),
            j + len <= b.len(),
            a@.subrange(i as int, i + k) == b@.subrange(j as int, j + k),
        decreases len - k,
    {
        if a[i + k] != b[j + k] {
            proof {
                let x = a@.subrange(i as int, i + len);
                let y = b@.subrange(j as int, j + len);
                assert(x[k as int] != y[k as int]);
            }
            return false;
        }
        k += 1;
    }
    true
}

/// Tells whether the characters of `a` from `alo` to `ahi` are those of `b`
/// from `blo` to `bhi`.
pub fn same_range(a: &Vec<char>, alo: usize, ahi: usize, b: &Vec<char>, blo: usize, bhi: usize) -> (same:
    bool)
    requires
        alo <= ahi <= a.len(),
        blo <= bhi <= b.len(),
    ensures
        same == (a@.subrange(alo as int, ahi as int) == b@.subrange(blo as int, bhi as int)),
{
    if ahi - alo != bhi - blo {
        assert(a@.subrange(alo as int, ahi as int).len() != b@.subrange(
            blo as int,
            bhi as int,
        ).len());
        false
    } else {
        same_run(a, alo, b, blo, ahi - alo)
    }
}

/// Tells whether a line and the trimmed text `name[lo..hi]` name the same
/// thing.
pub fn names_match(line: &str, name: &Vec<char>, lo: usize, hi: usize) -> (same: bool)
    requires
        lo <= hi <= name.len(),
    ensures
        same == (trim(line@) == name@.subrange(lo as int, hi as int)),
{
    let chars = chars_of(line);
    let (from, to) = trim_bounds(&chars);
    same_range(&chars, from, to, name, lo, hi)
}

/// Searches the characters of `hay` from `lo` to `hi` for the whole of `needle`.
pub fn range_contains(hay: &Vec<char>, lo: usize, hi: usize, needle: &Vec<char>) -> (found: bool)
    requires
        lo <= hi <= hay.len(),
    ensures
        found == has_substring(hay@.subrange(lo as int, hi as int), needle@),
{
    let ghost h = hay@.subrange(lo as int, hi as int);
    if needle.len() == 0 {
        assert(h.subrange(0, 0) =~= needle@);
        assert(occurs_at(h, 0, needle@));
        return true;
    }
    if needle.len() > hi - lo {
        return false;
    }
    let last: usize = hi - needle.len();
    let mut k: usize = lo;
    while k <= last
        invariant
            lo <= k <= last + 1,
            last + needle.len() == hi,
            needle.len() > 0,
            hi <= hay.len(),
            h == hay@.subrange(lo as int, hi as int),
            forall|m: int| 0 <= m < k - lo ==> !occurs_at(h, m, needle@),
        decreases last + 1 - k,
    {
        let hit = same_run(hay, k, needle, 0, needle.len());
        proof {
            assert(needle@.subrange(0, needle.len() as int) =~= needle@);
            assert(h.subrange(k - lo, k - lo + needle.len()) =~= hay@.subrange(
                k as int,
                k + needle.len(),
            ));
        }
        if hit {
            assert(occurs_at(h, k - lo, needle@));
            return true;
        }
        k += 1;
    }
    false
}

} // verus!
