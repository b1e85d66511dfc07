//! Keeps the list of packages in the marked region of a configuration file.
//!
//! A package name is resolved against a search backend ([`lookup`],
//! [`resolver`], [`picker`]), the document is edited ([`modes`]), and the
//! rebuild is triggered ([`rebuild`]). The library computes and decides
//! only: the caller reads and writes the files, asks the user and runs the
//! programs, and reports what came of it.

use vstd::prelude::*;

pub mod document;
pub mod error;
pub mod identifier;
pub mod laws;
pub mod lookup;
pub mod modes;
pub mod order;
pub mod paths;
pub mod picker;
pub mod rebuild;
pub mod region;
pub mod resolver;
pub mod text;

verus! {

/// What is done to the package list.
#[derive(Debug)]
pub enum Action {
    /// Add a package.
    Add { pkg: String },
    /// Remove a package.
    Remove { pkg: String },
}

/// What the command line says.
#[derive(Debug)]
pub struct Args {
    /// Custom configuration file to use.
    pub config: Option<String>,
    /// Look the package up, but change no file.
    pub dry_run: bool,
    /// What to do.
    pub action: Action,
    /// Do not rebuild, whatever the configuration says.
    pub no_rebuild: bool,
}

/// The package name that an action carries.
pub open spec fn action_pkg(action: Action) -> Seq<char> {
    match action {
        Action::Add { pkg } => pkg@,
        Action::Remove { pkg } => pkg@,
    }
}

impl Clone for Action {
    fn clone(&self) -> (copy: Self)
        ensures
            copy == *self,
    {
        match self {
            Action::Add { pkg } => Action::Add { pkg: pkg.clone() },
            Action::Remove { pkg } => Action::Remove { pkg: pkg.clone() },
        }
    }
}

impl Clone for Args {
    fn clone(&self) -> (copy: Self)
        ensures
            copy == *self,
    {
        Args {
            config: match &self.config {
                Some(path) => Some(path.clone()),
                None => None,
            },
            dry_run: self.dry_run,
            action: self.action.clone(),
            no_rebuild: self.no_rebuild,
        }
    }
}

impl Action {
    /// The package name that the action was given, borrowed.
    pub fn pkg(&self) -> (name: &str)
        ensures
            name@ == action_pkg(*self),
    {
        match self {
            Action::Add { pkg } => pkg.as_str(),
            Action::Remove { pkg } => pkg.as_str(),
        }
    }

    /// Whether the action adds a package.
    pub fn is_add(&self) -> (add: bool)
        ensures
            add == (*self is Add),
    {
        match self {
            Action::Add { .. } => true,
            Action::Remove { .. } => false,
        }
    }
}

/// Returns the package name that the action was given.
pub fn get_pkg(action: &Action) -> (name: String)
    ensures
        name@ == action_pkg(*action),
{
    match action {
        Action::Add { pkg } => pkg.clone(),
        Action::Remove { pkg } => pkg.clone(),
    }
}

} // verus!
