//! What the command line hands the run: configuration paths and exclusions.

use vstd::prelude::*;
use crate::cache::{rendered, Cache};
use crate::cli::CacheCommand;

verus! {

/// The configuration file read when no path is given.
pub open spec fn default_config_path() -> Seq<char> {
    "./tsconfig.json"@
}

/// The built-in exclusion patterns, in the order in which they are appended.
pub open spec fn default_exclusions() -> Seq<Seq<char>> {
    seq![
        "node_modules"@,
        ".git"@,
        ".gitignore"@,
        "*.ts"@,
        "*.tsx"@,
        "*.cts"@,
        "*.mts"@,
        "*.json"@,
        "*.lock"@,
        "*.toml"@,
        "*.yaml"@,
        "*.vscode"@,
        "target"@,
    ]
}

/// The configuration paths of a run: the positional ones, then those given
/// by flag; the default configuration file when both lists are empty.
pub fn parse_cli_paths(p1: Option<Vec<String>>, p2: Option<Vec<String>>) -> (r: Vec<String>)
    ensures
        ({
            let given = match p1 {
                Some(v) => v.deep_view(),
                None => Seq::empty(),
            } + match p2 {
                Some(v) => v.deep_view(),
                None => Seq::empty(),
            };
            r.deep_view() == if given.len() == 0 {
                seq![default_config_path()]
            } else {
                given
            }
        }),
{
    let mut paths: Vec<String> = match p1 {
        Some(v) => v,
        None => Vec::new(),
    };
    let ghost first = paths.deep_view();
    if let Some(more) = p2 {
        let mut i: usize = 0;
        while i < more.len()
            invariant
                i <= more.len(),
                paths.deep_view() == first + more.deep_view().take(i as int),
            decreases more.len() - i,
        {
            let ghost before = paths.deep_view();
            paths.push(more[i].clone());
            assert(paths.deep_view() =~= before.push(more[i as int]@));
            assert(more.deep_view().take(i + 1) =~= more.deep_view().take(i as int).push(
                more[i as int]@,
            ));
            i = i + 1;
        }
        assert(more.deep_view().take(more.len() as int) == more.deep_view());
    }
    if paths.len() == 0 {
        paths.push("./tsconfig.json".to_string());
    }
    paths
}

/// The exclusion patterns of a run: the given ones alone, or followed by the
/// built-in list when `merge_with_default` is set.
pub fn parse_cli_exclude_paths(exclude: Vec<String>, merge_with_default: bool) -> (r: Vec<String>)
    ensures
        r.deep_view() == if merge_with_default {
            exclude.deep_view() + default_exclusions()
        } else {
            exclude.deep_view()
        },
{
    if !merge_with_default {
        return exclude;
    }
    let mut exclude = exclude;
    let ghost given = exclude.deep_view();
    exclude.push("node_modules".to_string());
    exclude.push(".git".to_string());
    exclude.push(".gitignore".to_string());
    exclude.push("*.ts".to_string());
    exclude.push("*.tsx".to_string());
    exclude.push("*.cts".to_string());
    exclude.push("*.mts".to_string());
    exclude.push("*.json".to_string());
    exclude.push("*.lock".to_string());
    exclude.push("*.toml".to_string());
    exclude.push("*.yaml".to_string());
    exclude.push("*.vscode".to_string());
    exclude.push("target".to_string());
    assert(exclude.deep_view() =~= given + default_exclusions());
    exclude
}

/// The exclusion patterns of a run when the patterns may not have been
/// given at all: the built-in list when none were given, else as
/// `parse_cli_exclude_paths` says.
pub fn exclusions_for(given: Option<Vec<String>>, merge_with_default: bool) -> (r: Vec<String>)
    ensures
        r.deep_view() == match given {
            None => default_exclusions(),
            Some(v) => if merge_with_default {
                v.deep_view() + default_exclusions()
            } else {
                v.deep_view()
            },
        },
{
    match given {
        None => {
            let r = parse_cli_exclude_paths(Vec::new(), true);
            assert(Seq::<Seq<char>>::empty() + default_exclusions() =~= default_exclusions());
            r
        },
        Some(v) => parse_cli_exclude_paths(v, merge_with_default),
    }
}

/// What a maintenance command comes to, once the persisted cache is read.
#[derive(Debug)]
pub enum Maintenance {
    /// Clearing asked, but the persisted cache holds no record.
    AlreadyEmpty,
    /// Delete the persisted cache file.
    RemoveFile,
    /// Listing asked, but the persisted cache holds no record.
    NothingToList,
    /// Show this listing of the persisted cache.
    List(String),
    /// Show where the persisted cache file lives.
    ShowLocation,
}

/// The plan for a maintenance command, given the persisted cache (`None`
/// when it could not be read or parsed, in which case clearing and listing
/// give up).
pub fn plan_cache_command(command: CacheCommand, stored: Option<&Cache>) -> (r: Option<Maintenance>)
    ensures
        command == CacheCommand::Path ==> r == Some(Maintenance::ShowLocation),
        command != CacheCommand::Path ==> (stored is None <==> r is None),
        (stored matches Some(c) ==> {
            &&& command == CacheCommand::Clear ==> r == Some(
                if c@.len() == 0 {
                    Maintenance::AlreadyEmpty
                } else {
                    Maintenance::RemoveFile
                },
            )
            &&& command == CacheCommand::Dump && c@.len() == 0 ==> r == Some(
                Maintenance::NothingToList,
            )
            &&& command == CacheCommand::Dump && c@.len() > 0 ==> (r matches Some(
                Maintenance::List(text),
            ) && text@ == rendered(c@))
        }),
{
    match command {
        CacheCommand::Path => Some(Maintenance::ShowLocation),
        CacheCommand::Clear => match stored {
            None => None,
            Some(c) => if c.is_empty() {
                Some(Maintenance::AlreadyEmpty)
            } else {
                Some(Maintenance::RemoveFile)
            },
        },
        CacheCommand::Dump => match stored {
            None => None,
            Some(c) => if c.is_empty() {
                Some(Maintenance::NothingToList)
            } else {
                Some(Maintenance::List(c.render()))
            },
        },
    }
}

} // verus!
