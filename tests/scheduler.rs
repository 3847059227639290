use std::collections::BTreeMap;

use para::analysis::{AliasScanner, Span};
use para::cache::{load_cache, Cache, Entry, StoredCache};
use para::exclusions::IntoGlobSet;
use para::scheduler::{DirEntry, RunStats, Scheduler, Step};

/// A directory tree held in memory: directories list their entries in order,
/// files hold text (`None` for a file that cannot be read).
struct Tree {
    dirs: BTreeMap<String, Vec<String>>,
    files: BTreeMap<String, Option<String>>,
}

impl Tree {
    fn new() -> Tree {
        Tree { dirs: BTreeMap::new(), files: BTreeMap::new() }
    }

    fn dir(mut self, path: &str, entries: &[&str]) -> Tree {
        self.dirs.insert(path.to_string(), entries.iter().map(|e| format!("{}/{}", path, e)).collect());
        self
    }

    fn file(mut self, path: &str, text: &str) -> Tree {
        self.files.insert(path.to_string(), Some(text.to_string()));
        self
    }

    fn unreadable(mut self, path: &str) -> Tree {
        self.files.insert(path.to_string(), None);
        self
    }
}

struct Run {
    cache: Cache,
    read: Vec<String>,
    hits: Vec<(String, String)>,
    misses: Vec<(String, String)>,
    excluded: Vec<String>,
    analyzed: usize,
    committed: Vec<(String, String)>,
    steps: usize,
    stats: RunStats,
}

fn run(tree: &Tree, roots: &[&str], exclude: &[&str], cache: Cache) -> Run {
    let set = exclude.iter().map(|s| s.to_string()).collect::<Vec<_>>().into_globset().unwrap();
    let scanner = AliasScanner::new().unwrap();
    let mut s = Scheduler::new(roots.iter().map(|r| r.to_string()).collect(), cache);
    let mut out = Run {
        cache: Cache::new(),
        read: vec![],
        hits: vec![],
        misses: vec![],
        excluded: vec![],
        analyzed: 0,
        committed: vec![],
        steps: 0,
        stats: s.stats(),
    };
    loop {
        out.steps += 1;
        match s.step(&set, &scanner) {
            Step::Done => break,
            Step::Excluded(p) => out.excluded.push(p),
            Step::ListDirectory(d) => {
                let listing = tree.dirs.get(&d).map(|entries| {
                    entries
                        .iter()
                        .filter_map(|e| {
                            if tree.dirs.contains_key(e) {
                                Some(DirEntry::Dir(e.clone()))
                            } else if tree.files.contains_key(e) {
                                Some(DirEntry::File(e.clone()))
                            } else {
                                None
                            }
                        })
                        .collect()
                });
                s.enter_directory(listing);
            }
            Step::ReadFile(f) => {
                out.read.push(f.clone());
                let text = tree.files.get(&f).cloned().flatten();
                s.file_read(f, text);
            }
            Step::Hit { path, digest } => out.hits.push((path, digest)),
            Step::Miss { path, digest } => out.misses.push((path, digest)),
            Step::Analyzed { .. } => out.analyzed += 1,
            Step::Committed { path, digest } => out.committed.push((path, digest)),
            Step::Finished { .. } => {}
        }
    }
    assert!(s.is_done());
    out.stats = s.stats();
    out.cache = s.into_cache();
    out
}

fn records(c: &Cache) -> Vec<(String, String)> {
    c.to_records().into_iter().map(|e| (e.hash, e.path)).collect()
}

#[test]
fn identical_content_is_cached_once() {
    let tree = Tree::new()
        .dir("proj", &["a.ts", "b.ts"])
        .file("proj/a.ts", "export const x=1\n")
        .file("proj/b.ts", "export const x=1\r\n");
    let r = run(&tree, &["proj"], &[], Cache::new());
    assert_eq!(r.cache.len(), 1);
    assert_eq!(r.misses.len(), 1);
    assert_eq!(r.hits.len(), 1);
    assert_eq!(r.analyzed, 1);
    let (first, digest) = &r.misses[0];
    let (second, hit_digest) = &r.hits[0];
    assert_eq!(digest, hit_digest);
    assert_ne!(first, second);
    assert_eq!(r.cache.lookup(digest), Some(first.clone()));
    assert_eq!(r.committed, vec![(first.clone(), digest.clone())]);
}

#[test]
fn siblings_are_taken_in_reverse() {
    let tree = Tree::new()
        .dir("proj", &["a.js", "b.js", "c.js"])
        .file("proj/a.js", "a")
        .file("proj/b.js", "b")
        .file("proj/c.js", "c");
    let r = run(&tree, &["proj"], &[], Cache::new());
    assert_eq!(r.read, vec!["proj/c.js", "proj/b.js", "proj/a.js"]);
}

#[test]
fn excluded_directory_is_never_hashed() {
    let tree = Tree::new()
        .dir("proj/dist", &["node_modules", "lib.js"])
        .dir("proj/dist/node_modules", &["x.js"])
        .file("proj/dist/node_modules/x.js", "module.exports = 1")
        .file("proj/dist/lib.js", "export {}");
    let r = run(&tree, &["proj/dist"], &["node_modules"], Cache::new());
    assert_eq!(r.read, vec!["proj/dist/lib.js"]);
    assert_eq!(r.excluded, vec!["proj/dist/node_modules"]);
    assert_eq!(r.cache.len(), 1);
}

#[test]
fn corrupt_cache_starts_fresh_and_is_rewritten() {
    let loaded = load_cache(StoredCache::Text("\u{0}\u{1} not a table".to_string()), None);
    assert!(loaded.corrupt);
    assert!(loaded.cache.is_empty());
    let tree = Tree::new().dir("proj", &["a.js"]).file("proj/a.js", "let a = 1;\n");
    let r = run(&tree, &["proj"], &[], loaded.cache);
    assert_eq!(records(&r.cache).len(), 1);
    assert_eq!(records(&r.cache)[0].1, "proj/a.js");
}

#[test]
fn empty_root_drains_at_once() {
    let tree = Tree::new().dir("proj", &[]);
    let kept = Cache::from_records(vec![Entry { hash: "aa".to_string(), path: "old.js".to_string() }]);
    let r = run(&tree, &["proj"], &[], kept);
    assert!(r.read.is_empty());
    assert_eq!(r.steps, 2);
    assert_eq!(records(&r.cache), vec![("aa".to_string(), "old.js".to_string())]);
    let r = run(&tree, &[], &[], Cache::new());
    assert_eq!(r.steps, 1);
    assert!(r.cache.is_empty());
}

#[test]
fn second_run_hits_every_file() {
    let tree = Tree::new()
        .dir("proj", &["a.js", "sub"])
        .dir("proj/sub", &["b.js", "c.js"])
        .file("proj/a.js", "a\n")
        .file("proj/sub/b.js", "b\n")
        .file("proj/sub/c.js", "a\r\n");
    let first = run(&tree, &["proj"], &[], Cache::new());
    assert_eq!(first.misses.len(), 2);
    assert_eq!(first.hits.len(), 1);
    let persisted = Cache::from_records(first.cache.to_records());
    let second = run(&tree, &["proj"], &[], persisted);
    assert_eq!(second.misses.len(), 0);
    assert_eq!(second.analyzed, 0);
    assert_eq!(second.hits.len(), 3);
    assert_eq!(records(&second.cache), records(&first.cache));
}

#[test]
fn cache_keeps_first_path_per_content() {
    let tree = Tree::new()
        .dir("proj", &["x.js", "y.js"])
        .file("proj/x.js", "same")
        .file("proj/y.js", "same");
    let r = run(&tree, &["proj"], &[], Cache::new());
    assert_eq!(records(&r.cache).len(), 1);
    assert_eq!(records(&r.cache)[0].1, "proj/y.js");
    assert_eq!(r.hits[0].0, "proj/x.js");
}

#[test]
fn unreadable_entries_are_skipped() {
    let tree = Tree::new()
        .dir("proj", &["bad.js", "missing", "ok.js"])
        .unreadable("proj/bad.js")
        .file("proj/ok.js", "ok");
    let r = run(&tree, &["proj", "gone"], &[], Cache::new());
    assert_eq!(r.read, vec!["proj/ok.js", "proj/bad.js"]);
    assert_eq!(r.cache.len(), 1);
}

#[test]
fn alias_references_are_located() {
    let scanner = AliasScanner::new().unwrap();
    let refs = scanner.find_alias_references("import('@/a/b') + require(\"@/c\") + import('./d')");
    assert_eq!(refs.len(), 2);
    assert_eq!(refs[0].span, Span { start: 0, end: 15 });
    assert_eq!(refs[0].alias, Span { start: 8, end: 10 });
    assert_eq!(refs[0].target, Span { start: 10, end: 13 });
    assert_eq!(refs[1].alias, Span { start: 27, end: 29 });
    assert_eq!(refs[1].target, Span { start: 29, end: 30 });
    assert!(scanner.find_alias_references("no references here").is_empty());
}

#[test]
fn run_counts_are_reported() {
    let tree = Tree::new()
        .dir("proj", &["a.js", "b.js", "bad.js", "node_modules", "missing"])
        .dir("proj/node_modules", &["x.js"])
        .file("proj/node_modules/x.js", "x")
        .file("proj/a.js", "same")
        .file("proj/b.js", "same")
        .unreadable("proj/bad.js");
    let r = run(&tree, &["proj", "gone"], &["node_modules"], Cache::new());
    assert_eq!(
        r.stats,
        RunStats { directories: 2, files: 3, hashed: 2, unreadable: 2, excluded: 1, hits: 1, misses: 1 }
    );
}
