//! The work scheduler: a stack of actions drained one step at a time.
//!
//! The scheduler makes every decision of a run and leaves the disk to its
//! caller. A step that needs the disk hands back a request
//! (`Step::ListDirectory`, `Step::ReadFile`); the caller answers it with
//! `enter_directory` or `file_read` before the next step.

use vstd::prelude::*;
use globset::GlobSet;
use crate::analysis::{references_from, capture_spans, AliasReference, AliasScanner, ALIAS_PATTERN};
use crate::cache::{
    insert_all,
    insert_in,
    lemma_lookup_insert_all,
    lemma_lookup_push,
    lemma_lookup_some,
    lookup_in,
    Cache,
    Records,
};
use crate::exclusions::{set_matches, set_patterns};
use crate::hash::{digest_of, hash_text, strip_line_endings};
use crate::stack::{action_path, Action, CanMatchGlobset};

verus! {

/// An entry of a listed directory.
#[derive(Debug)]
pub enum DirEntry {
    /// A subdirectory.
    Dir(String),
    /// A regular file.
    File(String),
}

/// The action that a directory entry becomes.
pub open spec fn entry_action(e: DirEntry) -> Action {
    match e {
        DirEntry::Dir(p) => Action::ReadDir(p),
        DirEntry::File(p) => Action::ReadFile(p),
    }
}

/// What one step of the scheduler did, or asks of its caller.
#[derive(Debug)]
pub enum Step {
    /// The stack is empty: the run is over.
    Done,
    /// The item's path is excluded: the item was dropped, unexplored.
    Excluded(String),
    /// List this directory and hand its entries to `enter_directory`.
    ListDirectory(String),
    /// Read this file and hand its text to `file_read`.
    ReadFile(String),
    /// The content was seen before.
    Hit { path: String, digest: String },
    /// The content is new; `path` becomes its canonical path.
    Miss { path: String, digest: String },
    /// The analysis stage ran on a new content.
    Analyzed { digest: String, references: Vec<AliasReference> },
    /// A new content is committed to the cache under its canonical path.
    Committed { path: String, digest: String },
    /// A job is complete.
    Finished { path: String, digest: String },
}

/// Counts reported at the end of a run.
#[derive(Clone, Copy, Debug, PartialEq, Eq, Structural)]
pub struct RunStats {
    /// Directories taken from the stack and listed.
    pub directories: usize,
    /// Files taken from the stack to be hashed.
    pub files: usize,
    /// Files hashed.
    pub hashed: usize,
    /// Files or directories that could not be read.
    pub unreadable: usize,
    /// Items dropped because their path is excluded.
    pub excluded: usize,
    /// Hashed files whose content was in the cache.
    pub hits: usize,
    /// Hashed files whose content was new.
    pub misses: usize,
}

/// A count one higher, held at `usize::MAX`.
pub open spec fn bumped(x: usize) -> usize {
    if x < usize::MAX {
        (x + 1) as usize
    } else {
        x
    }
}

/// The counts after a step with outcome `r`.
pub open spec fn counted(c: RunStats, r: Step) -> RunStats {
    match r {
        Step::Excluded(_) => RunStats { excluded: bumped(c.excluded), ..c },
        Step::ListDirectory(_) => RunStats { directories: bumped(c.directories), ..c },
        Step::ReadFile(_) => RunStats { files: bumped(c.files), ..c },
        Step::Hit { .. } => RunStats { hits: bumped(c.hits), ..c },
        Step::Miss { .. } => RunStats { misses: bumped(c.misses), ..c },
        _ => c,
    }
}

fn bump(x: usize) -> (r: usize)
    ensures
        r == bumped(x),
{
    if x < usize::MAX {
        x + 1
    } else {
        x
    }
}

/// How many steps at most an action still takes, not counting the work of
/// directory entries yet to be listed.
pub open spec fn weight(a: Action) -> nat {
    match a {
        Action::ReadFile(_) => 5,
        Action::ReadDir(_) => 1,
        Action::CompareHash(_, _, _) => 4,
        Action::FindCaptures(_, _) => 3,
        Action::CacheFile(_) => 2,
        Action::FinishJob(_, _) => 1,
    }
}

/// The weight of a stack of actions.
pub open spec fn stack_weight(s: Seq<Action>) -> nat
    decreases s.len(),
{
    if s.len() == 0 {
        0
    } else {
        stack_weight(s.drop_last()) + weight(s.last())
    }
}

proof fn lemma_weight_push(s: Seq<Action>, a: Action)
    ensures
        stack_weight(s.push(a)) == stack_weight(s) + weight(a),
{
    assert(s.push(a).drop_last() =~= s);
}

/// How many of the records `rs`, inserted one after the other into `m`,
/// carried a digest that was not yet there.
pub open spec fn count_misses(m: Records, rs: Records) -> nat
    decreases rs.len(),
{
    if rs.len() == 0 {
        0
    } else {
        count_misses(m, rs.drop_last()) + if lookup_in(
            insert_all(m, rs.drop_last()),
            rs.last().0,
        ) is None {
            1nat
        } else {
            0nat
        }
    }
}

/// Some glob of `set` matches the path of `a`.
pub open spec fn excluded_by(set: GlobSet, a: Action) -> bool {
    match action_path(a) {
        Some(q) => set_matches(set_patterns(set), q),
        None => false,
    }
}

/// An action past the cache decision names a digest that the cache holds.
pub open spec fn digest_recorded(m: Records, a: Action) -> bool {
    match a {
        Action::FindCaptures(d, _) => lookup_in(m, d@) is Some,
        Action::CacheFile(d) => lookup_in(m, d@) is Some,
        _ => true,
    }
}

/// The state of a run.
pub struct Scheduler {
    stack: Vec<Action>,
    cache: Cache,
    stats: RunStats,
    initial: Ghost<Records>,
    evaluated: Ghost<Records>,
    missed: Ghost<nat>,
}

impl Scheduler {
    /// The actions waiting on the stack; the last one is taken next.
    pub closed spec fn pending(&self) -> Seq<Action> {
        self.stack@
    }

    /// The records of the cache as it stands.
    pub closed spec fn cache_view(&self) -> Records {
        self.cache@
    }

    /// The records of the cache the run started from.
    pub closed spec fn initial(&self) -> Records {
        self.initial@
    }

    /// `(digest, path)` of every file that reached the cache decision, in
    /// order.
    pub closed spec fn evaluated(&self) -> Records {
        self.evaluated@
    }

    /// How many cache decisions found a new content, each of which is then
    /// analysed once.
    pub closed spec fn misses(&self) -> nat {
        self.missed@
    }

    /// The invariant of a run: the cache is the initial one with every
    /// evaluated file inserted in order, and every action past the cache
    /// decision names a digest the cache holds.
    pub closed spec fn wf(&self) -> bool {
        &&& self.cache.wf()
        &&& self.cache@ == insert_all(self.initial@, self.evaluated@)
        &&& self.missed@ == count_misses(self.initial@, self.evaluated@)
        &&& forall|i: int|
            0 <= i < self.stack@.len() ==> digest_recorded(self.cache@, #[trigger] self.stack@[i])
    }

    /// A run over the given roots, starting from `cache`. The first root is
    /// explored first.
    pub fn new(roots: Vec<String>, cache: Cache) -> (r: Scheduler)
        requires
            cache.wf(),
        ensures
            r.wf(),
            r.initial() == cache@,
            r.cache_view() == cache@,
            r.evaluated().len() == 0,
            r.misses() == 0,
            r.counts() == (RunStats {
                directories: 0,
                files: 0,
                hashed: 0,
                unreadable: 0,
                excluded: 0,
                hits: 0,
                misses: 0,
            }),
            r.pending().len() == roots@.len(),
            forall|i: int|
                0 <= i < roots@.len() ==> #[trigger] r.pending()[i] == Action::ReadDir(
                    roots@[roots@.len() - 1 - i],
                ),
    {
        let mut stack: Vec<Action> = Vec::new();
        let mut k: usize = roots.len();
        while k > 0
            invariant
                k <= roots@.len(),
                stack@.len() == roots@.len() - k,
                forall|i: int|
                    0 <= i < stack@.len() ==> #[trigger] stack@[i] == Action::ReadDir(
                        roots@[roots@.len() - 1 - i],
                    ),
            decreases k,
        {
            k = k - 1;
            stack.push(Action::ReadDir(roots[k].clone()));
        }
        let ghost initial = cache@;
        let stats = RunStats {
            directories: 0,
            files: 0,
            hashed: 0,
            unreadable: 0,
            excluded: 0,
            hits: 0,
            misses: 0,
        };
        Scheduler {
            stack,
            cache,
            stats,
            initial: Ghost(initial),
            evaluated: Ghost(Seq::empty()),
            missed: Ghost(0),
        }
    }

    /// Whether the stack is empty.
    pub fn is_done(&self) -> (r: bool)
        ensures
            r == (self.pending().len() == 0),
    {
        self.stack.len() == 0
    }

    /// The counts of the run so far.
    pub closed spec fn counts(&self) -> RunStats {
        self.stats
    }

    /// The counts so far.
    pub fn stats(&self) -> (r: RunStats)
        ensures
            r == self.counts(),
    {
        self.stats
    }

    /// The cache as it stands.
    pub fn cache(&self) -> (r: &Cache)
        requires
            self.wf(),
        ensures
            r.wf(),
            r@ == self.cache_view(),
    {
        &self.cache
    }

    /// Ends the run, handing back the cache to persist.
    pub fn into_cache(self) -> (r: Cache)
        requires
            self.wf(),
        ensures
            r.wf(),
            r@ == self.cache_view(),
    {
        self.cache
    }

    /// Takes the next action off the stack and carries it out. An action
    /// whose path is excluded is dropped before anything else is done with
    /// it. Every step but the last removes weight from the stack.
    pub fn step(&mut self, exclusions: &GlobSet, scanner: &AliasScanner) -> (r: Step)
        requires
            old(self).wf(),
        ensures
            final(self).wf(),
            final(self).initial() == old(self).initial(),
            final(self).counts() == counted(old(self).counts(), r),
            (r is Done) == (old(self).pending().len() == 0),
            r is Done ==> final(self).pending() == old(self).pending(),
            !(r is Done) ==> stack_weight(final(self).pending()) < stack_weight(
                old(self).pending(),
            ),
            (r is Excluded) == (old(self).pending().len() > 0 && excluded_by(
                *exclusions,
                old(self).pending().last(),
            )),
            (r matches Step::Excluded(p) ==> action_path(old(self).pending().last()) == Some(p@)
                && final(self).pending() == old(self).pending().drop_last()),
            (r matches Step::ListDirectory(d) ==> old(self).pending().last() == Action::ReadDir(d)
                && final(self).pending() == old(self).pending().drop_last()),
            (r matches Step::ReadFile(f) ==> old(self).pending().last() == Action::ReadFile(f)
                && final(self).pending() == old(self).pending().drop_last()),
            (r matches Step::Hit { path, digest } ==> {
                &&& old(self).pending().last() matches Action::CompareHash(p, d, _)
                &&& p == path
                &&& d == digest
                &&& lookup_in(old(self).cache_view(), digest@) is Some
                &&& final(self).evaluated() == old(self).evaluated().push((digest@, path@))
                &&& final(self).pending() == old(self).pending().drop_last().push(
                    Action::FinishJob(path, digest),
                )
            }),
            (r matches Step::Miss { path, digest } ==> {
                &&& old(self).pending().last() matches Action::CompareHash(p, d, c)
                &&& p == path
                &&& d == digest
                &&& lookup_in(old(self).cache_view(), digest@) is None
                &&& final(self).evaluated() == old(self).evaluated().push((digest@, path@))
                &&& final(self).pending() == old(self).pending().drop_last().push(
                    Action::FindCaptures(digest, c),
                )
            }),
            !(r is Hit || r is Miss) ==> final(self).evaluated() == old(self).evaluated(),
            final(self).misses() == old(self).misses() + if r is Miss {
                1nat
            } else {
                0nat
            },
            (r matches Step::Analyzed { digest, references } ==> {
                &&& old(self).pending().last() matches Action::FindCaptures(d, c)
                &&& d == digest
                &&& references@ == references_from(capture_spans(ALIAS_PATTERN@, c@))
                &&& final(self).pending() == old(self).pending().drop_last().push(
                    Action::CacheFile(digest),
                )
            }),
            (r matches Step::Committed { path, digest } ==> {
                &&& old(self).pending().last() == Action::CacheFile(digest)
                &&& lookup_in(old(self).cache_view(), digest@) == Some(path@)
                &&& final(self).pending() == old(self).pending().drop_last().push(
                    Action::FinishJob(path, digest),
                )
            }),
            (r matches Step::Finished { path, digest } ==> old(self).pending().last()
                == Action::FinishJob(path, digest) && final(self).pending() == old(
                self,
            ).pending().drop_last()),
    {
        let ghost before = self.stack@;
        let ghost cache_before = self.cache@;
        let item = match self.stack.pop() {
            Some(a) => a,
            None => {
                return Step::Done;
            },
        };
        proof {
            assert(before == self.stack@.push(item));
            lemma_weight_push(self.stack@, item);
        }
        if let Some(p) = item.is_match(exclusions) {
            let p = p.clone();
            self.stats.excluded = bump(self.stats.excluded);
            return Step::Excluded(p);
        }
        match item {
            Action::ReadDir(path) => {
                self.stats.directories = bump(self.stats.directories);
                Step::ListDirectory(path)
            },
            Action::ReadFile(path) => {
                self.stats.files = bump(self.stats.files);
                Step::ReadFile(path)
            },
            Action::CompareHash(path, digest, contents) => {
                let ghost rest = self.stack@;
                let ghost ev = self.evaluated@;
                proof {
                    assert(ev.push((digest@, path@)).drop_last() =~= ev);
                }
                match self.cache.lookup(&digest) {
                    Some(_) => {
                        self.stats.hits = bump(self.stats.hits);
                        proof {
                            self.evaluated@ = ev.push((digest@, path@));
                        }
                        self.stack.push(Action::FinishJob(path.clone(), digest.clone()));
                        proof {
                            lemma_weight_push(rest, Action::FinishJob(path, digest));
                        }
                        Step::Hit { path, digest }
                    },
                    None => {
                        self.cache.insert(digest.clone(), path.clone());
                        self.stats.misses = bump(self.stats.misses);
                        proof {
                            self.evaluated@ = ev.push((digest@, path@));
                            self.missed@ = self.missed@ + 1;
                            Self::lemma_cache_grows(cache_before, digest@, path@, rest);
                            lemma_lookup_push(cache_before, (digest@, path@), digest@);
                        }
                        let r = Step::Miss { path, digest: digest.clone() };
                        let ghost top = Action::FindCaptures(digest, contents);
                        self.stack.push(Action::FindCaptures(digest, contents));
                        proof {
                            lemma_weight_push(rest, top);
                        }
                        r
                    },
                }
            },
            Action::FindCaptures(digest, contents) => {
                let references = scanner.find_alias_references(contents.as_str());
                let ghost top = Action::CacheFile(digest);
                self.stack.push(Action::CacheFile(digest.clone()));
                proof {
                    lemma_weight_push(before.drop_last(), top);
                }
                Step::Analyzed { digest, references }
            },
            Action::CacheFile(digest) => {
                let path = match self.cache.lookup(&digest) {
                    Some(p) => p,
                    None => {
                        proof {
                            assert(digest_recorded(cache_before, before[before.len() - 1]));
                        }
                        unreached()
                    },
                };
                let ghost top = Action::FinishJob(path, digest);
                self.stack.push(Action::FinishJob(path.clone(), digest.clone()));
                proof {
                    lemma_weight_push(before.drop_last(), top);
                }
                Step::Committed { path, digest }
            },
            Action::FinishJob(path, digest) => Step::Finished { path, digest },
        }
    }

    /// Answers `Step::ListDirectory`: each entry of the listing is pushed in
    /// order, so that siblings are taken in reverse. A listing that failed
    /// (`None`) adds nothing and is counted as unreadable.
    pub fn enter_directory(&mut self, listing: Option<Vec<DirEntry>>)
        requires
            old(self).wf(),
        ensures
            final(self).wf(),
            final(self).initial() == old(self).initial(),
            final(self).evaluated() == old(self).evaluated(),
            final(self).misses() == old(self).misses(),
            final(self).counts() == if listing is None {
                RunStats { unreadable: bumped(old(self).counts().unreadable), ..old(self).counts() }
            } else {
                old(self).counts()
            },
            final(self).pending() == match listing {
                Some(entries) => old(self).pending() + entries@.map_values(
                    |e: DirEntry| entry_action(e),
                ),
                None => old(self).pending(),
            },
    {
        match listing {
            None => {
                self.stats.unreadable = bump(self.stats.unreadable);
            },
            Some(entries) => {
                let ghost start = self.stack@;
                let ghost init0 = self.initial@;
                let ghost ev0 = self.evaluated@;
                let ghost missed0 = self.missed@;
                let ghost stats0 = self.stats;
                let ghost all = entries@.map_values(|e: DirEntry| entry_action(e));
                let mut k: usize = 0;
                while k < entries.len()
                    invariant
                        k <= entries@.len(),
                        self.initial@ == init0,
                        self.evaluated@ == ev0,
                        self.missed@ == missed0,
                        self.stats == stats0,
                        all == entries@.map_values(|e: DirEntry| entry_action(e)),
                        self.stack@ == start + all.take(k as int),
                        self.cache@ == insert_all(self.initial@, self.evaluated@),
                        self.cache.wf(),
                        self.missed@ == count_misses(self.initial@, self.evaluated@),
                        forall|i: int|
                            0 <= i < self.stack@.len() ==> digest_recorded(
                                self.cache@,
                                #[trigger] self.stack@[i],
                            ),
                    decreases entries.len() - k,
                {
                    let a = match &entries[k] {
                        DirEntry::Dir(p) => Action::ReadDir(p.clone()),
                        DirEntry::File(p) => Action::ReadFile(p.clone()),
                    };
                    assert(a == all[k as int]);
                    self.stack.push(a);
                    assert(start + all.take(k + 1) =~= (start + all.take(k as int)).push(a));
                    k = k + 1;
                }
                assert(all.take(all.len() as int) =~= all);
            },
        }
    }

    /// Answers `Step::ReadFile`: the text of the file is hashed and its
    /// cache decision pushed. A file that could not be read or decoded
    /// (`None`) adds nothing and is counted as unreadable.
    pub fn file_read(&mut self, path: String, text: Option<String>)
        requires
            old(self).wf(),
        ensures
            final(self).wf(),
            final(self).initial() == old(self).initial(),
            final(self).evaluated() == old(self).evaluated(),
            final(self).misses() == old(self).misses(),
            final(self).counts() == if text is None {
                RunStats { unreadable: bumped(old(self).counts().unreadable), ..old(self).counts() }
            } else {
                RunStats { hashed: bumped(old(self).counts().hashed), ..old(self).counts() }
            },
            text is None ==> final(self).pending() == old(self).pending(),
            (text matches Some(t) ==> {
                &&& final(self).pending().len() == old(self).pending().len() + 1
                &&& final(self).pending().drop_last() == old(self).pending()
                &&& final(self).pending().last() matches Action::CompareHash(p, d, c)
                &&& p@ == path@
                &&& c@ == strip_line_endings(t@)
                &&& d@ == digest_of(c@)
            }),
    {
        match text {
            None => {
                self.stats.unreadable = bump(self.stats.unreadable);
            },
            Some(t) => {
                let (digest, contents) = hash_text(t.as_str());
                self.stats.hashed = bump(self.stats.hashed);
                let ghost before = self.stack@;
                self.stack.push(Action::CompareHash(path, digest, contents));
                assert(self.stack@.drop_last() =~= before);
            },
        }
    }

    proof fn lemma_cache_grows(m: Records, d: Seq<char>, p: Seq<char>, s: Seq<Action>)
        requires
            forall|i: int| 0 <= i < s.len() ==> digest_recorded(m, #[trigger] s[i]),
        ensures
            forall|i: int|
                0 <= i < s.len() ==> digest_recorded(insert_in(m, d, p), #[trigger] s[i]),
    {
        assert forall|i: int| 0 <= i < s.len() implies digest_recorded(
            insert_in(m, d, p),
            #[trigger] s[i],
        ) by {
            match s[i] {
                Action::FindCaptures(e, _) => {
                    lemma_lookup_push(m, (d, p), e@);
                },
                Action::CacheFile(e) => {
                    lemma_lookup_push(m, (d, p), e@);
                },
                _ => {},
            }
        }
    }
}

/// At any point of a run that started from an empty cache, a digest is in
/// the cache exactly when some file with that content reached the cache
/// decision, and its path is that of the first such file.
pub proof fn lemma_cache_holds_first_visit(run: Scheduler, d: Seq<char>)
    requires
        run.wf(),
        run.initial().len() == 0,
    ensures
        lookup_in(run.cache_view(), d) is Some <==> exists|i: int|
            0 <= i < run.evaluated().len() && #[trigger] run.evaluated()[i].0 == d,
        lookup_in(run.cache_view(), d) matches Some(p) ==> exists|i: int|
            0 <= i < run.evaluated().len() && #[trigger] run.evaluated()[i] == (d, p) && forall|
                j: int,
            |
                0 <= j < i ==> #[trigger] run.evaluated()[j].0 != d,
{
    lemma_lookup_insert_all(run.initial(), run.evaluated(), d);
    lemma_lookup_some(run.evaluated(), d);
    if let Some(p) = lookup_in(run.cache_view(), d) {
        let ev = run.evaluated();
        let i = choose|i: int|
            0 <= i < ev.len() && #[trigger] ev[i].0 == d && ev[i].1 == p && forall|j: int|
                0 <= j < i ==> #[trigger] ev[j].0 != d;
        assert(ev[i] == (d, p));
    }
}

proof fn lemma_no_misses_when_all_present(m: Records, rs: Records)
    requires
        forall|j: int| 0 <= j < rs.len() ==> lookup_in(m, #[trigger] rs[j].0) is Some,
    ensures
        count_misses(m, rs) == 0,
    decreases rs.len(),
{
    if rs.len() > 0 {
        let prev = rs.drop_last();
        assert forall|j: int| 0 <= j < prev.len() implies lookup_in(m, #[trigger] prev[j].0) is Some by {
            assert(prev[j] == rs[j]);
        }
        lemma_no_misses_when_all_present(m, prev);
        assert(lookup_in(m, rs[rs.len() - 1].0) is Some);
        lemma_lookup_insert_all(m, prev, rs.last().0);
    }
}

/// A second run over an unchanged tree, started from the cache that the
/// first run left, finds every content in the cache: no file misses, so
/// nothing is analysed again. "Unchanged" is what the second run saw:
/// every content it evaluated was evaluated by the first run too.
pub proof fn lemma_second_run_all_hits(first: Scheduler, second: Scheduler)
    requires
        first.wf(),
        second.wf(),
        second.initial() == first.cache_view(),
        forall|j: int|
            0 <= j < second.evaluated().len() ==> exists|i: int|
                0 <= i < first.evaluated().len() && #[trigger] first.evaluated()[i].0
                    == #[trigger] second.evaluated()[j].0,
    ensures
        second.misses() == 0,
{
    let ev1 = first.evaluated();
    let ev2 = second.evaluated();
    assert forall|j: int| 0 <= j < ev2.len() implies lookup_in(
        first.cache_view(),
        #[trigger] ev2[j].0,
    ) is Some by {
        let d = ev2[j].0;
        let i = choose|i: int| 0 <= i < ev1.len() && #[trigger] ev1[i].0 == ev2[j].0;
        lemma_lookup_insert_all(first.initial(), ev1, d);
        lemma_lookup_some(ev1, d);
    }
    lemma_no_misses_when_all_present(first.cache_view(), ev2);
}

} // verus!
