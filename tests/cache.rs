use para::args::{plan_cache_command, Maintenance};
use para::cache::{load_cache, parse_cache, Cache, Entry, StoredCache};
use para::cli::{usize_success, CacheCommand, Level, SuccessColor};

fn entry(hash: &str, path: &str) -> Entry {
    Entry { hash: hash.to_string(), path: path.to_string() }
}

fn pairs(c: &Cache) -> Vec<(String, String)> {
    c.to_records().into_iter().map(|e| (e.hash, e.path)).collect()
}

#[test]
fn first_insert_wins() {
    let mut c = Cache::new();
    assert!(c.is_empty());
    c.insert("aa".to_string(), "first.js".to_string());
    c.insert("aa".to_string(), "second.js".to_string());
    c.insert("bb".to_string(), "other.js".to_string());
    assert_eq!(c.len(), 2);
    assert_eq!(c.lookup(&"aa".to_string()), Some("first.js".to_string()));
    assert_eq!(c.lookup(&"bb".to_string()), Some("other.js".to_string()));
    assert_eq!(c.lookup(&"cc".to_string()), None);
}

#[test]
fn records_round_trip() {
    let c = Cache::from_records(vec![entry("aa", "a.js"), entry("bb", "b.js")]);
    let again = Cache::from_records(c.to_records());
    assert_eq!(pairs(&again), pairs(&c));
    assert_eq!(pairs(&c), vec![("aa".to_string(), "a.js".to_string()), ("bb".to_string(), "b.js".to_string())]);
}

#[test]
fn duplicate_records_keep_the_first() {
    let c = Cache::from_records(vec![entry("aa", "a.js"), entry("aa", "b.js")]);
    assert_eq!(pairs(&c), vec![("aa".to_string(), "a.js".to_string())]);
}

#[test]
fn render_lists_records_with_uppercase_digest() {
    let c = Cache::from_records(vec![entry("ab01", "x/a.js"), entry("ff", "b.js")]);
    assert_eq!(c.render(), "Cache:\nAB01\tx/a.js\nFF\tb.js\n");
    assert_eq!(Cache::new().render(), "Cache:\n");
}

#[test]
fn empty_file_is_an_empty_cache() {
    let loaded = load_cache(StoredCache::Text(String::new()), None);
    assert!(!loaded.corrupt);
    assert!(loaded.cache.is_empty());
    assert!(parse_cache("", None).unwrap().is_empty());
}

#[test]
fn corrupt_file_gives_empty_cache_and_warning() {
    let loaded = load_cache(StoredCache::Text("not = [valid".to_string()), None);
    assert!(loaded.corrupt);
    assert!(loaded.cache.is_empty());
    assert!(parse_cache("not = [valid", None).is_none());
}

#[test]
fn unreadable_file_gives_empty_cache_and_warning() {
    let loaded = load_cache(StoredCache::Unreadable, Some(vec![entry("aa", "a.js")]));
    assert!(loaded.corrupt);
    assert!(loaded.cache.is_empty());
}

#[test]
fn absent_file_is_an_empty_cache_without_warning() {
    let loaded = load_cache(StoredCache::Absent, None);
    assert!(!loaded.corrupt);
    assert!(loaded.cache.is_empty());
}

#[test]
fn parsed_file_loads_its_records() {
    let loaded = load_cache(StoredCache::Text("[[cache]]".to_string()), Some(vec![entry("aa", "a.js")]));
    assert!(!loaded.corrupt);
    assert_eq!(pairs(&loaded.cache), vec![("aa".to_string(), "a.js".to_string())]);
}

#[test]
fn maintenance_plans() {
    let empty = Cache::new();
    let full = Cache::from_records(vec![entry("ab", "a.js")]);
    assert!(matches!(plan_cache_command(CacheCommand::Clear, Some(&empty)), Some(Maintenance::AlreadyEmpty)));
    assert!(matches!(plan_cache_command(CacheCommand::Clear, Some(&full)), Some(Maintenance::RemoveFile)));
    assert!(plan_cache_command(CacheCommand::Clear, None).is_none());
    assert!(matches!(plan_cache_command(CacheCommand::Dump, Some(&empty)), Some(Maintenance::NothingToList)));
    match plan_cache_command(CacheCommand::Dump, Some(&full)) {
        Some(Maintenance::List(text)) => assert_eq!(text, "Cache:\nAB\ta.js\n"),
        other => panic!("unexpected {:?}", other),
    }
    assert!(plan_cache_command(CacheCommand::Dump, None).is_none());
    assert!(matches!(plan_cache_command(CacheCommand::Path, None), Some(Maintenance::ShowLocation)));
}

#[test]
fn log_levels_filter_by_severity() {
    assert!(Level::Verbose.allows(Level::Verbose));
    assert!(!Level::Debug.allows(Level::Verbose));
    assert!(Level::Debug.allows(Level::Debug));
    assert!(Level::Info.allows(Level::Info));
    assert!(!Level::Info.allows(Level::Debug));
    assert!(!Level::Warn.allows(Level::Info));
    assert!(Level::Warn.allows(Level::Warn));
    assert!(!Level::Error.allows(Level::Warn));
    assert!(Level::Error.allows(Level::Error));
}

#[test]
fn success_colors() {
    assert_eq!(usize_success(3, 3), SuccessColor::Green);
    assert_eq!(usize_success(0, 0), SuccessColor::Green);
    assert_eq!(usize_success(0, 3), SuccessColor::Red);
    assert_eq!(usize_success(1, 3), SuccessColor::Yellow);
}
