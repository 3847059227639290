use para::args::{exclusions_for, parse_cli_exclude_paths, parse_cli_paths};
use para::exclusions::{glob_text, is_excluded, ExclusionError, IntoGlobSet};
use para::stack::{Action, CanMatchGlobset, RevealPath};
use para::walker::is_blacklisted;

fn strings(v: &[&str]) -> Vec<String> {
    v.iter().map(|s| s.to_string()).collect()
}

const DEFAULTS: [&str; 13] = [
    "node_modules",
    ".git",
    ".gitignore",
    "*.ts",
    "*.tsx",
    "*.cts",
    "*.mts",
    "*.json",
    "*.lock",
    "*.toml",
    "*.yaml",
    "*.vscode",
    "target",
];

#[test]
fn exclude_list_replaces_defaults_without_merge() {
    let given = strings(&["dist", "build"]);
    assert_eq!(parse_cli_exclude_paths(given.clone(), false), given);
}

#[test]
fn exclude_list_merges_defaults_when_asked() {
    let mut expected = strings(&["dist"]);
    expected.extend(strings(&DEFAULTS));
    assert_eq!(parse_cli_exclude_paths(strings(&["dist"]), true), expected);
}

#[test]
fn missing_exclude_list_gives_defaults() {
    assert_eq!(exclusions_for(None, false), strings(&DEFAULTS));
    assert_eq!(exclusions_for(Some(vec![]), false), Vec::<String>::new());
}

#[test]
fn config_paths_default_and_concatenate() {
    assert_eq!(parse_cli_paths(None, None), strings(&["./tsconfig.json"]));
    assert_eq!(parse_cli_paths(Some(vec![]), Some(vec![])), strings(&["./tsconfig.json"]));
    assert_eq!(
        parse_cli_paths(Some(strings(&["a.json"])), Some(strings(&["b.json", "c.json"]))),
        strings(&["a.json", "b.json", "c.json"])
    );
    assert_eq!(parse_cli_paths(None, Some(strings(&["b.json"]))), strings(&["b.json"]));
}

#[test]
fn patterns_become_any_depth_globs() {
    assert_eq!(glob_text("node_modules"), "*/node_modules");
    assert_eq!(glob_text("*.ts"), "*/*.ts");
    assert_eq!(glob_text("*/dist"), "*/dist");
    assert_eq!(glob_text("a\\b"), "*/a/b");
    assert_eq!(glob_text("*\\dist"), "*/*/dist");
    assert_eq!(glob_text(""), "*/");
}

#[test]
fn excluded_directory_matches_at_any_depth() {
    let set = strings(&["node_modules"]).into_globset().unwrap();
    assert!(is_excluded(&set, "proj/dist/node_modules"));
    assert!(is_excluded(&set, "/abs/node_modules"));
    assert!(!is_excluded(&set, "proj/dist/lib.js"));
    assert!(!is_excluded(&set, "proj/dist/node_modules_old"));
}

#[test]
fn nested_pattern_matches_path_suffix() {
    let set = strings(&["dist/cache"]).into_globset().unwrap();
    assert!(is_excluded(&set, "root/dist/cache"));
    assert!(!is_excluded(&set, "root/dist"));
}

#[test]
fn extension_globs_match_files() {
    let set = strings(&["*.ts", "target"]).into_globset().unwrap();
    assert!(is_excluded(&set, "proj/src/a.ts"));
    assert!(is_excluded(&set, "proj/target"));
    assert!(!is_excluded(&set, "proj/src/a.js"));
}

#[test]
fn malformed_pattern_is_reported() {
    match strings(&["ok", "a[b"]).into_globset() {
        Err(ExclusionError::InvalidGlob { index, .. }) => assert_eq!(index, 1),
        other => panic!("unexpected {:?}", other.map(|_| ())),
    }
}

#[test]
fn actions_reveal_their_paths() {
    let read = Action::ReadFile("a/b.js".to_string());
    assert_eq!(read.reveal_path().map(|s| s.as_str()), Some("a/b.js"));
    let compare = Action::CompareHash("a/c.js".to_string(), "d".to_string(), "x".to_string());
    assert_eq!(compare.reveal_path().map(|s| s.as_str()), Some("a/c.js"));
    assert!(Action::CacheFile("d".to_string()).reveal_path().is_none());
    assert!(Action::FindCaptures("d".to_string(), "x".to_string()).reveal_path().is_none());
}

#[test]
fn actions_match_glob_sets_by_path() {
    let set = strings(&["node_modules"]).into_globset().unwrap();
    let dir = Action::ReadDir("proj/node_modules".to_string());
    assert_eq!(dir.is_match(&set).map(|s| s.as_str()), Some("proj/node_modules"));
    assert!(Action::ReadDir("proj/src".to_string()).is_match(&set).is_none());
    assert!(Action::CacheFile("node_modules".to_string()).is_match(&set).is_none());
}

#[test]
fn walker_blacklist_matches_whole_components_without_case() {
    let list = strings(&["node_modules", "dist"]);
    assert!(is_blacklisted("./myapp/Node_Modules", &list));
    assert!(is_blacklisted("myapp/dist", &list));
    assert!(is_blacklisted("myapp/./x/../dist", &list));
    assert!(!is_blacklisted("myapp/distx", &list));
    assert!(!is_blacklisted("myapp/dist/index.js", &list));
    assert!(!is_blacklisted("myapp/dist/index.js", &strings(&[])));
}

#[test]
fn plain_names_match_only_their_suffix() {
    let set = strings(&["node_modules"]).into_globset().unwrap();
    assert!(Action::ReadDir("proj/dist/node_modules".to_string()).is_match(&set).is_some());
    assert!(Action::ReadFile("proj/dist/lib.js".to_string()).is_match(&set).is_none());
}

#[test]
fn empty_list_matches_nothing() {
    let set = Vec::<String>::new().into_globset().unwrap();
    assert!(!is_excluded(&set, "proj/node_modules"));
    assert!(!is_excluded(&set, ""));
}

#[test]
fn joined_lists_match_the_union() {
    let a = strings(&["node_modules"]);
    let b = strings(&["*.map", "dist"]);
    let mut ab = a.clone();
    ab.extend(b.clone());
    let (sa, sb, sab) = (a.into_globset().unwrap(), b.into_globset().unwrap(), ab.into_globset().unwrap());
    for q in ["p/node_modules", "p/x.js.map", "p/dist", "p/lib.js", "dist"] {
        assert_eq!(is_excluded(&sab, q), is_excluded(&sa, q) || is_excluded(&sb, q));
    }
}

#[test]
fn unclosed_class_is_reported() {
    assert!(matches!(strings(&["a["]).into_globset(), Err(ExclusionError::InvalidGlob { index: 0, .. })));
}
