//! From the search backend's output to the candidates for a package name.

use crate::error::Failure;
use crate::document::lines_of;
use crate::text::{chars_of, same_run, text_from};
use vstd::prelude::*;
use vstd::string::StringExecFns;

verus! {

/// What `json::parse` makes of `text`, as far as it is read here: the keys
/// that `JsonValue::entries` yields for the parsed value, in its order, or
/// `None` where the parser reports an error. Only an object has entries.
pub uninterp spec fn json_keys(text: Seq<char>) -> Option<Seq<Seq<char>>>;

/// What a parse result holds, as plain sequences.
pub open spec fn keys_view(keys: Option<Vec<String>>) -> Option<Seq<Seq<char>>> {
    match keys {
        Some(list) => Some(lines_of(list@)),
        None => None,
    }
}

/// How many digits in a row the parser is trusted with. It counts the
/// digits of a fraction in a 16-bit integer, and where arithmetic is
/// checked it stops the program on a fraction of more zeros than that
/// integer holds.
pub const DIGIT_LIMIT: usize = 32768;

/// Whether `c` is one of the digits `0` to `9`.
pub open spec fn is_digit(c: char) -> bool {
    '0' <= c <= '9'
}

/// Whether `DIGIT_LIMIT` digits stand in `text` from position `i` on.
pub open spec fn digits_at(text: Seq<char>, i: int) -> bool {
    &&& 0 <= i
    &&& i + DIGIT_LIMIT <= text.len()
    &&& forall|j: int| i <= j < i + DIGIT_LIMIT ==> is_digit(#[trigger] text[j])
}

/// Whether `text` holds `DIGIT_LIMIT` digits in a row somewhere.
pub open spec fn has_long_digit_run(text: Seq<char>) -> bool {
    exists|i: int| digits_at(text, i)
}

/// The keys that are read from the backend's output: those of its JSON
/// object. Output with too long a run of digits is not read at all.
pub open spec fn keys_read(text: Seq<char>) -> Option<Seq<Seq<char>>> {
    if has_long_digit_run(text) {
        None
    } else {
        json_keys(text)
    }
}

/// Parses `text` with `json::parse` and walks the value with
/// `JsonValue::entries`, keeping each key as a `String`. The contract claims
/// only that the keys depend on the text alone: the parser reads nothing else,
/// and an object keeps its keys in a vector, in the order of their first
/// insertion. Text with `DIGIT_LIMIT` digits in a row is kept from the
/// parser.
#[verifier::external_body]
fn parse_keys(text: &str) -> (keys: Option<Vec<String>>)
    requires
        !has_long_digit_run(text@),
    ensures
        keys_view(keys) == json_keys(text@),
{
    match json::parse(text) {
        Ok(value) => {
            let mut keys = Vec::new();
            for (key, _) in value.entries() {
                keys.push(key.to_string());
            }
            Some(keys)
        },
        Err(_) => None,
    }
}

/// A key without the prefix that it starts with; a key that does not start
/// with the prefix, as it is.
pub open spec fn strip_prefix(key: Seq<char>, prefix: Seq<char>) -> Seq<char> {
    if prefix.is_prefix_of(key) {
        key.skip(prefix.len() as int)
    } else {
        key
    }
}

/// The candidate identifiers for a list of keys: each key stripped, in the
/// order of the keys.
pub open spec fn candidates_of(keys: Seq<Seq<char>>, prefix: Seq<char>) -> Seq<Seq<char>> {
    keys.map_values(|key: Seq<char>| strip_prefix(key, prefix))
}

/// What a search came to when it found something.
#[derive(Debug, PartialEq, Eq)]
pub enum Resolution {
    /// The one candidate: it is the identifier.
    Single(String),
    /// Two candidates or more: one has to be picked.
    Multiple(Vec<String>),
}

/// A resolution as plain sequences.
pub enum ResolutionView {
    Single(Seq<char>),
    Multiple(Seq<Seq<char>>),
}

impl View for Resolution {
    type V = ResolutionView;

    open spec fn view(&self) -> ResolutionView {
        match self {
            Resolution::Single(id) => ResolutionView::Single(id@),
            Resolution::Multiple(list) => ResolutionView::Multiple(lines_of(list@)),
        }
    }
}

/// The outcome of a resolution as plain sequences.
pub open spec fn outcome_view(outcome: Result<Resolution, Failure>) -> Result<
    ResolutionView,
    Failure,
> {
    match outcome {
        Ok(resolution) => Ok(resolution@),
        Err(failure) => Err(failure),
    }
}

/// What a candidate set resolves to: nothing, its one member, or a choice
/// among all of them.
pub open spec fn classified(candidates: Seq<Seq<char>>) -> Result<ResolutionView, Failure> {
    if candidates.len() == 0 {
        Err(Failure::NotFound)
    } else if candidates.len() == 1 {
        Ok(ResolutionView::Single(candidates[0]))
    } else {
        Ok(ResolutionView::Multiple(candidates))
    }
}

/// What the backend's keys resolve to. Output that could not be parsed has
/// no keys at all: the backend is taken to be unavailable.
pub open spec fn resolved(keys: Option<Seq<Seq<char>>>, prefix: Seq<char>) -> Result<
    ResolutionView,
    Failure,
> {
    match keys {
        None => Err(Failure::BackendUnavailable),
        Some(list) => classified(candidates_of(list, prefix)),
    }
}

/// No key gives `NotFound`; one key gives that key stripped; two keys or more
/// give as many candidates, each the stripped key at its position.
pub proof fn lemma_resolver_cardinality(keys: Seq<Seq<char>>, prefix: Seq<char>)
    ensures
        keys.len() == 0 ==> resolved(Some(keys), prefix) == Err::<ResolutionView, Failure>(
            Failure::NotFound,
        ),
        keys.len() == 1 ==> resolved(Some(keys), prefix) == Ok::<ResolutionView, Failure>(
            ResolutionView::Single(strip_prefix(keys[0], prefix)),
        ),
        keys.len() >= 2 ==> (resolved(Some(keys), prefix) matches Ok(
            ResolutionView::Multiple(list),
        ) && list.len() == keys.len() && forall|i: int|
            0 <= i < keys.len() ==> #[trigger] list[i] == strip_prefix(keys[i], prefix)),
{
}

/// Strips the prefix from one key.
pub fn strip_key(key: &str, prefix: &Vec<char>) -> (name: String)
    ensures
        name@ == strip_prefix(key@, prefix@),
{
    let chars = chars_of(key);
    if prefix.len() <= chars.len() && same_run(&chars, 0, prefix, 0, prefix.len()) {
        text_from(&chars, prefix.len(), chars.len())
    } else {
        proof {
            if prefix.len() <= chars.len() {
                assert(prefix@.subrange(0, prefix.len() as int) =~= prefix@);
            }
        }
        String::from_str(key)
    }
}

/// Turns the backend's keys into candidate identifiers.
pub fn candidates(keys: &Vec<String>, prefix: &str) -> (list: Vec<String>)
    ensures
        lines_of(list@) == candidates_of(lines_of(keys@), prefix@),
{
    let prefix_chars = chars_of(prefix);
    let mut list: Vec<String> = Vec::new();
    let mut i: usize = 0;
    while i < keys.len()
        invariant
            i <= keys.len(),
            prefix_chars@ == prefix@,
            list.len() == i,
            forall|j: int|
                0 <= j < i ==> (#[trigger] list@[j])@ == strip_prefix(keys@[j]@, prefix@),
        decreases keys.len() - i,
    {
        let name = strip_key(keys[i].as_str(), &prefix_chars);
        list.push(name);
        i += 1;
    }
    list
}

/// Decides what a candidate set comes to.
pub fn classify(candidates: Vec<String>) -> (outcome: Result<Resolution, Failure>)
    ensures
        outcome_view(outcome) == classified(lines_of(candidates@)),
{
    let mut candidates = candidates;
    if candidates.len() == 0 {
        Err(Failure::NotFound)
    } else if candidates.len() == 1 {
        let only = candidates.remove(0);
        Ok(Resolution::Single(only))
    } else {
        Ok(Resolution::Multiple(candidates))
    }
}

/// Resolves from keys that were parsed already.
pub fn resolve_keys(keys: Option<Vec<String>>, prefix: &str) -> (outcome: Result<
    Resolution,
    Failure,
>)
    ensures
        outcome_view(outcome) == resolved(keys_view(keys), prefix@),
{
    match keys {
        None => Err(Failure::BackendUnavailable),
        Some(list) => classify(candidates(&list, prefix)),
    }
}

/// The arguments with which the search backend is run for a query: a
/// search of the package index `nixpkgs`, with the result as JSON.
pub fn search_arguments(query: &str) -> (arguments: Vec<String>)
    ensures
        lines_of(arguments@) == seq!["search"@, "--json"@, "nixpkgs"@, query@],
{
    let mut arguments: Vec<String> = Vec::new();
    arguments.push(String::from_str("search"));
    arguments.push(String::from_str("--json"));
    arguments.push(String::from_str("nixpkgs"));
    arguments.push(String::from_str(query));
    assert(lines_of(arguments@) =~= seq!["search"@, "--json"@, "nixpkgs"@, query@]);
    arguments
}

/// Tells whether a text holds `DIGIT_LIMIT` digits in a row.
pub fn long_digit_run(text: &str) -> (long: bool)
    ensures
        long == has_long_digit_run(text@),
{
    let chars = chars_of(text);
    let mut run: usize = 0;
    let mut i: usize = 0;
    while i < chars.len()
        invariant
            i <= chars.len(),
            chars@ == text@,
            run <= i,
            run < DIGIT_LIMIT,
            forall|j: int| i - run <= j < i ==> is_digit(#[trigger] text@[j]),
            run < i ==> !is_digit(text@[i - run - 1]),
            forall|k: int| k + DIGIT_LIMIT <= i ==> !digits_at(text@, k),
        decreases chars.len() - i,
    {
        let c = chars[i];
        if '0' <= c && c <= '9' {
            run += 1;
            if run == DIGIT_LIMIT {
                assert(digits_at(text@, i + 1 - DIGIT_LIMIT));
                return true;
            }
        } else {
            run = 0;
        }
        i += 1;
    }
    false
}

/// Resolves a query from what the search backend printed for it: the JSON
/// object whose keys are the matching packages.
pub fn resolve(output: &str, prefix: &str) -> (outcome: Result<Resolution, Failure>)
    ensures
        outcome_view(outcome) == resolved(keys_read(output@), prefix@),
{
    if long_digit_run(output) {
        resolve_keys(None, prefix)
    } else {
        resolve_keys(parse_keys(output), prefix)
    }
}

} // verus!
