//! The name under which a package stands in the document.

use crate::text::{chars_of, is_blank, lemma_trim_idempotent, text_from, trim, trim_bounds};
use vstd::prelude::*;
use vstd::string::StringExecFns;

verus! {

/// The one name chosen for a package. It is never empty and never made of
/// whitespace alone, so a document edited with it gains or loses a real entry.
#[derive(Debug, PartialEq, Eq)]
pub struct ResolvedIdentifier {
    name: String,
}

impl View for ResolvedIdentifier {
    type V = Seq<char>;

    closed spec fn view(&self) -> Seq<char> {
        self.name@
    }
}

impl Clone for ResolvedIdentifier {
    fn clone(&self) -> (copy: Self)
        ensures
            copy@ == self@,
    {
        proof {
            use_type_invariant(self);
        }
        ResolvedIdentifier { name: self.name.clone() }
    }
}

impl ResolvedIdentifier {
    #[verifier::type_invariant]
    spec fn well_formed(&self) -> bool {
        !is_blank(self.name@)
    }

    /// Makes an identifier of `name`, unless `name` is blank.
    pub fn new(name: &str) -> (made: Option<ResolvedIdentifier>)
        ensures
            made is Some <==> !is_blank(name@),
            made matches Some(id) ==> id@ == name@,
    {
        let chars = chars_of(name);
        let (lo, hi) = trim_bounds(&chars);
        if lo == hi {
            None
        } else {
            Some(ResolvedIdentifier { name: String::from_str(name) })
        }
    }

    /// Makes an identifier of `name` without the whitespace around it,
    /// unless `name` is blank.
    pub fn trimmed(name: &str) -> (made: Option<ResolvedIdentifier>)
        ensures
            made is Some <==> !is_blank(name@),
            made matches Some(id) ==> id@ == trim(name@),
    {
        let chars = chars_of(name);
        let (lo, hi) = trim_bounds(&chars);
        if lo == hi {
            None
        } else {
            proof {
                lemma_trim_idempotent(name@);
            }
            Some(ResolvedIdentifier { name: text_from(&chars, lo, hi) })
        }
    }

    /// The identifier's text.
    pub fn as_str(&self) -> (text: &str)
        ensures
            text@ == self@,
            !is_blank(text@),
    {
        proof {
            use_type_invariant(self);
        }
        self.name.as_str()
    }
}

} // verus!
