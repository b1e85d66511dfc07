//! Where the files of a run are, from the user's home directory and what
//! the command line and the configuration say.

use crate::text::{chars_of, push_char};
use vstd::prelude::*;
use vstd::string::StringExecFns;

verus! {

/// A path with the home directory in place of every tilde.
pub open spec fn expanded(path: Seq<char>, home: Seq<char>) -> Seq<char>
    decreases path.len(),
{
    if path.len() == 0 {
        Seq::<char>::empty()
    } else if path.last() == '~' {
        expanded(path.drop_last(), home) + home
    } else {
        expanded(path.drop_last(), home).push(path.last())
    }
}

/// The path of the document: the configured one, or the default below the
/// home directory.
pub open spec fn document_path_of(configured: Option<Seq<char>>, home: Seq<char>) -> Seq<char> {
    match configured {
        Some(path) => expanded(path, home),
        None => home + "/nix-config/home/default.nix"@,
    }
}

/// The path of the configuration file: the one given on the command line,
/// or the default below the home directory.
pub open spec fn config_path_of(given: Option<Seq<char>>, home: Seq<char>) -> Seq<char> {
    match given {
        Some(path) => expanded(path, home),
        None => home + "/.config/nix-snow/config.toml"@,
    }
}

/// A path without a tilde stays as it is.
pub proof fn lemma_expanded_plain(path: Seq<char>, home: Seq<char>)
    requires
        forall|i: int| 0 <= i < path.len() ==> path[i] != '~',
    ensures
        expanded(path, home) == path,
    decreases path.len(),
{
    if path.len() > 0 {
        lemma_expanded_plain(path.drop_last(), home);
    }
}

/// Puts the home directory in place of every tilde in a path.
pub fn expand_home(path: &str, home: &str) -> (full: String)
    ensures
        full@ == expanded(path@, home@),
{
    let chars = chars_of(path);
    let mut full = String::new();
    let mut i: usize = 0;
    while i < chars.len()
        invariant
            i <= chars.len(),
            chars@ == path@,
            full@ == expanded(path@.take(i as int), home@),
        decreases chars.len() - i,
    {
        proof {
            let longer = path@.take(i + 1);
            assert(longer.drop_last() =~= path@.take(i as int));
        }
        if chars[i] == '~' {
            full.append(home);
        } else {
            push_char(&mut full, chars[i]);
        }
        i += 1;
    }
    assert(path@.take(chars.len() as int) =~= path@);
    full
}

/// The path of the document.
pub fn document_path(configured: Option<&str>, home: &str) -> (path: String)
    ensures
        path@ == document_path_of(
            match configured {
                Some(text) => Some(text@),
                None => None,
            },
            home@,
        ),
{
    match configured {
        Some(text) => expand_home(text, home),
        None => {
            let mut path = String::from_str(home);
            path.append("/nix-config/home/default.nix");
            path
        },
    }
}

/// The path of the configuration file.
pub fn config_path(given: Option<&str>, home: &str) -> (path: String)
    ensures
        path@ == config_path_of(
            match given {
                Some(text) => Some(text@),
                None => None,
            },
            home@,
        ),
{
    match given {
        Some(text) => expand_home(text, home),
        None => {
            let mut path = String::from_str(home);
            path.append("/.config/nix-snow/config.toml");
            path
        },
    }
}

/// The directory in which the rebuild command runs.
pub fn project_root(home: &str) -> (path: String)
    ensures
        path@ == home@ + "/nix-config"@,
{
    let mut path = String::from_str(home);
    path.append("/nix-config");
    path
}

/// The rebuild command.
pub fn build_command(home: &str) -> (path: String)
    ensures
        path@ == home@ + "/nix-config/bin/build"@,
{
    let mut path = String::from_str(home);
    path.append("/nix-config/bin/build");
    path
}

} // verus!
