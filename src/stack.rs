//! The units of work that the scheduler keeps on its stack.

use vstd::prelude::*;
use globset::GlobSet;
use crate::exclusions::{is_excluded, set_matches, set_patterns};

verus! {

/// One unit of scheduling, from discovery to completion.
#[derive(Debug)]
pub enum Action {
    /// A file awaiting hashing.
    ReadFile(String),
    /// A directory awaiting enumeration.
    ReadDir(String),
    /// A hashed file awaiting the cache decision: path, digest, contents.
    CompareHash(String, String, String),
    /// A newly seen content awaiting the analysis stage: digest, contents.
    FindCaptures(String, String),
    /// An analysed content awaiting confirmation of its canonical path: digest.
    CacheFile(String),
    /// A finished job: path and digest.
    FinishJob(String, String),
}

/// The filesystem path that an action carries, if any.
pub open spec fn action_path(a: Action) -> Option<Seq<char>> {
    match a {
        Action::ReadFile(p) => Some(p@),
        Action::ReadDir(p) => Some(p@),
        Action::CompareHash(p, _, _) => Some(p@),
        Action::FindCaptures(_, _) => None,
        Action::CacheFile(_) => None,
        Action::FinishJob(p, _) => Some(p@),
    }
}

/// Gives access to the filesystem path of a unit of work.
pub trait RevealPath {
    fn reveal_path(&self) -> Option<&String>;
}

impl RevealPath for Action {
    /// The path of the action; analysis and commit steps carry none.
    fn reveal_path(&self) -> (r: Option<&String>)
        ensures
            match r {
                Some(p) => action_path(*self) == Some(p@),
                None => action_path(*self) is None,
            },
    {
        match self {
            Action::ReadFile(path) => Some(path),
            Action::ReadDir(path) => Some(path),
            Action::CacheFile(_) => None,
            Action::CompareHash(path, _, _) => Some(path),
            Action::FindCaptures(_, _) => None,
            Action::FinishJob(path, _) => Some(path),
        }
    }
}

/// Matches the path of a unit of work against a glob set.
pub trait CanMatchGlobset {
    fn is_match(&self, globset: &GlobSet) -> Option<&String>;
}

impl CanMatchGlobset for Action {
    /// The path of the action when some glob of the set matches it.
    fn is_match(&self, globset: &GlobSet) -> (r: Option<&String>)
        ensures
            match r {
                Some(p) => action_path(*self) == Some(p@) && set_matches(set_patterns(*globset), p@),
                None => match action_path(*self) {
                    Some(q) => !set_matches(set_patterns(*globset), q),
                    None => true,
                },
            },
    {
        if let Some(path) = self.reveal_path() {
            if is_excluded(globset, path.as_str()) {
                return Some(path);
            }
        }
        None
    }
}

} // verus!
