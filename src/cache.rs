//! The content-addressed cache: for each digest, the first path seen with
//! that content.

use vstd::prelude::*;
use crate::text::{push_all, push_char};

verus! {

/// A cache as a list of `(digest, path)` records in insertion order.
pub type Records = Seq<(Seq<char>, Seq<char>)>;

/// No two records share a digest.
pub open spec fn unique_digests(m: Records) -> bool {
    forall|i: int, j: int| 0 <= i < j < m.len() ==> #[trigger] m[i].0 != #[trigger] m[j].0
}

/// The path of the first record with digest `d`.
pub open spec fn lookup_in(m: Records, d: Seq<char>) -> Option<Seq<char>>
    decreases m.len(),
{
    if m.len() == 0 {
        None
    } else if m[0].0 == d {
        Some(m[0].1)
    } else {
        lookup_in(m.drop_first(), d)
    }
}

/// Records `d` with path `p` unless `d` is already present.
pub open spec fn insert_in(m: Records, d: Seq<char>, p: Seq<char>) -> Records {
    if lookup_in(m, d) is Some {
        m
    } else {
        m.push((d, p))
    }
}

/// Inserts the records of `rs` one after the other.
pub open spec fn insert_all(m: Records, rs: Records) -> Records
    decreases rs.len(),
{
    if rs.len() == 0 {
        m
    } else {
        let before = insert_all(m, rs.drop_last());
        insert_in(before, rs.last().0, rs.last().1)
    }
}

/// A digest is found exactly when some record holds it.
pub proof fn lemma_lookup_some(m: Records, d: Seq<char>)
    ensures
        lookup_in(m, d) is Some <==> exists|i: int| 0 <= i < m.len() && #[trigger] m[i].0 == d,
        lookup_in(m, d) matches Some(p) ==> exists|i: int|
            0 <= i < m.len() && #[trigger] m[i].0 == d && m[i].1 == p && forall|j: int|
                0 <= j < i ==> #[trigger] m[j].0 != d,
    decreases m.len(),
{
    if m.len() > 0 {
        lemma_lookup_some(m.drop_first(), d);
        if m[0].0 != d {
            if exists|i: int| 0 <= i < m.len() && #[trigger] m[i].0 == d {
                let i = choose|i: int| 0 <= i < m.len() && #[trigger] m[i].0 == d;
                assert(m.drop_first()[i - 1].0 == d);
            }
            if let Some(p) = lookup_in(m, d) {
                let t = m.drop_first();
                let i = choose|i: int|
                    0 <= i < t.len() && #[trigger] t[i].0 == d && t[i].1 == p && forall|j: int|
                        0 <= j < i ==> #[trigger] t[j].0 != d;
                assert(m[i + 1].0 == d);
                assert forall|j: int| 0 <= j < i + 1 implies #[trigger] m[j].0 != d by {
                    if j > 0 {
                        assert(t[j - 1].0 != d);
                    }
                }
            }
        } else {
            assert(m[0].0 == d);
        }
    }
}

/// Looking up in a list with one more record at the end.
pub proof fn lemma_lookup_push(m: Records, x: (Seq<char>, Seq<char>), d: Seq<char>)
    ensures
        lookup_in(m.push(x), d) == if lookup_in(m, d) is Some {
            lookup_in(m, d)
        } else if x.0 == d {
            Some(x.1)
        } else {
            None::<Seq<char>>
        },
    decreases m.len(),
{
    if m.len() == 0 {
        assert(m.push(x).drop_first().len() == 0);
    } else {
        assert(m.push(x).drop_first() =~= m.drop_first().push(x));
        lemma_lookup_push(m.drop_first(), x, d);
    }
}

/// Inserting keeps digests unique.
pub proof fn lemma_insert_unique(m: Records, d: Seq<char>, p: Seq<char>)
    requires
        unique_digests(m),
    ensures
        unique_digests(insert_in(m, d, p)),
{
    lemma_lookup_some(m, d);
}

/// After a series of insertions a digest maps to the path it had before, or
/// else to the path of the first inserted record with that digest.
pub proof fn lemma_lookup_insert_all(m: Records, rs: Records, d: Seq<char>)
    ensures
        lookup_in(insert_all(m, rs), d) == if lookup_in(m, d) is Some {
            lookup_in(m, d)
        } else {
            lookup_in(rs, d)
        },
    decreases rs.len(),
{
    if rs.len() > 0 {
        let before = insert_all(m, rs.drop_last());
        lemma_lookup_insert_all(m, rs.drop_last(), d);
        lemma_lookup_push(before, rs.last(), d);
        lemma_lookup_push(rs.drop_last(), rs.last(), d);
        assert(rs.drop_last().push(rs.last()) =~= rs);
        lemma_lookup_push(before, rs.last(), rs.last().0);
    }
}

/// Inserting records with distinct digests into an empty cache gives back
/// those records.
pub proof fn lemma_insert_all_unique_records(rs: Records)
    requires
        unique_digests(rs),
    ensures
        insert_all(Seq::empty(), rs) == rs,
    decreases rs.len(),
{
    if rs.len() > 0 {
        let prev = rs.drop_last();
        assert(unique_digests(prev));
        lemma_insert_all_unique_records(prev);
        lemma_lookup_some(prev, rs.last().0);
        if lookup_in(prev, rs.last().0) is Some {
            let i = choose|i: int| 0 <= i < prev.len() && #[trigger] prev[i].0 == rs.last().0;
            assert(rs[i].0 == rs[rs.len() - 1].0);
        }
        assert(prev.push(rs.last()) =~= rs);
    }
}

/// One persisted record: a content digest and its canonical path.
#[derive(Debug)]
pub struct Entry {
    pub hash: String,
    pub path: String,
}

/// The records of a list of entries.
pub open spec fn entries_view(v: Seq<Entry>) -> Records {
    v.map_values(|e: Entry| (e.hash@, e.path@))
}

/// The in-memory cache. Each digest maps to exactly one path: the first one
/// inserted for it.
pub struct Cache {
    entries: Vec<Entry>,
}

impl View for Cache {
    type V = Records;

    closed spec fn view(&self) -> Records {
        entries_view(self.entries@)
    }
}

impl Cache {
    /// Well-formed: no two records share a digest.
    pub open spec fn wf(&self) -> bool {
        unique_digests(self@)
    }

    /// An empty cache.
    pub fn new() -> (r: Cache)
        ensures
            r.wf(),
            r@ == Seq::<(Seq<char>, Seq<char>)>::empty(),
    {
        let r = Cache { entries: Vec::new() };
        assert(r@ =~= Seq::<(Seq<char>, Seq<char>)>::empty());
        r
    }

    /// Whether the cache holds no record.
    pub fn is_empty(&self) -> (r: bool)
        ensures
            r == (self@.len() == 0),
    {
        self.entries.len() == 0
    }

    /// The number of records.
    pub fn len(&self) -> (r: usize)
        ensures
            r == self@.len(),
    {
        self.entries.len()
    }

    /// The canonical path recorded for `digest`, if any.
    pub fn lookup(&self, digest: &String) -> (r: Option<String>)
        ensures
            match r {
                Some(p) => lookup_in(self@, digest@) == Some(p@),
                None => lookup_in(self@, digest@) is None,
            },
    {
        let mut i: usize = 0;
        assert(self@.skip(0) =~= self@);
        while i < self.entries.len()
            invariant
                i <= self@.len(),
                self@.len() == self.entries@.len(),
                lookup_in(self@, digest@) == lookup_in(self@.skip(i as int), digest@),
            decreases self.entries.len() - i,
        {
            assert(self@.skip(i as int).drop_first() =~= self@.skip(i + 1));
            if self.entries[i].hash == *digest {
                return Some(self.entries[i].path.clone());
            }
            i = i + 1;
        }
        None
    }

    /// Records `path` as the canonical path of `digest`; a digest already
    /// present keeps its path.
    pub fn insert(&mut self, digest: String, path: String)
        requires
            old(self).wf(),
        ensures
            final(self).wf(),
            final(self)@ == insert_in(old(self)@, digest@, path@),
    {
        proof {
            lemma_insert_unique(self@, digest@, path@);
        }
        if self.lookup(&digest).is_none() {
            let ghost before = self@;
            self.entries.push(Entry { hash: digest, path });
            assert(self@ =~= before.push((digest@, path@)));
        }
    }

    /// The cache that a persisted table describes. Should a digest occur
    /// twice, its first record wins.
    pub fn from_records(records: Vec<Entry>) -> (r: Cache)
        ensures
            r.wf(),
            r@ == insert_all(Seq::empty(), entries_view(records@)),
    {
        let mut cache = Cache::new();
        let mut i: usize = 0;
        while i < records.len()
            invariant
                i <= records@.len(),
                cache.wf(),
                cache@ == insert_all(Seq::empty(), entries_view(records@.take(i as int))),
            decreases records.len() - i,
        {
            let e = &records[i];
            cache.insert(e.hash.clone(), e.path.clone());
            assert(entries_view(records@.take(i + 1)).drop_last() =~= entries_view(
                records@.take(i as int),
            ));
            i = i + 1;
        }
        assert(records@.take(records@.len() as int) =~= records@);
        cache
    }

    /// The records of the cache, in insertion order, for persisting.
    pub fn to_records(&self) -> (r: Vec<Entry>)
        ensures
            entries_view(r@) == self@,
    {
        let mut r: Vec<Entry> = Vec::new();
        let mut i: usize = 0;
        while i < self.entries.len()
            invariant
                i <= self.entries@.len(),
                entries_view(r@) == entries_view(self.entries@.take(i as int)),
            decreases self.entries.len() - i,
        {
            let e = &self.entries[i];
            let ghost before = r@;
            r.push(Entry { hash: e.hash.clone(), path: e.path.clone() });
            assert(entries_view(r@) =~= entries_view(before).push((e.hash@, e.path@)));
            assert(entries_view(self.entries@.take(i + 1)) =~= entries_view(
                self.entries@.take(i as int),
            ).push((e.hash@, e.path@)));
            i = i + 1;
        }
        assert(self.entries@.take(self.entries@.len() as int) =~= self.entries@);
        r
    }
}

/// The uppercase form of a string.
pub uninterp spec fn upper_of(s: Seq<char>) -> Seq<char>;

/// Relies on `str::to_uppercase`: the result depends on the characters alone.
#[verifier::external_body]
fn to_upper(s: &str) -> (r: String)
    ensures
        r@ == upper_of(s@),
{
    s.to_uppercase()
}

/// The listing of a cache: a `Cache:` line, then one line per record with
/// the digest in uppercase, a tab and the path.
pub open spec fn rendered(m: Records) -> Seq<char>
    decreases m.len(),
{
    if m.len() == 0 {
        "Cache:\n"@
    } else {
        rendered(m.drop_last()) + upper_of(m.last().0) + seq!['\t'] + m.last().1 + seq!['\n']
    }
}

impl Cache {
    /// The human-readable listing of the cache.
    pub fn render(&self) -> (r: String)
        ensures
            r@ == rendered(self@),
    {
        let mut r = String::new();
        push_all(&mut r, "Cache:\n");
        let mut i: usize = 0;
        while i < self.entries.len()
            invariant
                i <= self.entries@.len(),
                self@.len() == self.entries@.len(),
                r@ == rendered(self@.take(i as int)),
            decreases self.entries.len() - i,
        {
            let e = &self.entries[i];
            let upper = to_upper(e.hash.as_str());
            push_all(&mut r, upper.as_str());
            push_char(&mut r, '\t');
            push_all(&mut r, e.path.as_str());
            push_char(&mut r, '\n');
            assert(self@.take(i + 1).drop_last() =~= self@.take(i as int));
            i = i + 1;
        }
        assert(self@.take(self@.len() as int) =~= self@);
        r
    }
}

/// The cache that a persisted file holds, from the file's text and the
/// records that parsing the text gave (`None` when it did not parse). An
/// empty text is an empty cache; a text that did not parse is no cache.
pub fn parse_cache(text: &str, parsed: Option<Vec<Entry>>) -> (r: Option<Cache>)
    ensures
        r matches Some(c) ==> c.wf(),
        text@.len() == 0 ==> (r matches Some(c) && c@.len() == 0),
        text@.len() > 0 ==> match parsed {
            None => r is None,
            Some(rs) => (r matches Some(c) && c@ == insert_all(Seq::empty(), entries_view(rs@))),
        },
{
    if text.is_empty() {
        return Some(Cache::new());
    }
    match parsed {
        None => None,
        Some(rs) => Some(Cache::from_records(rs)),
    }
}

/// A cache loaded at the start of a run.
pub struct LoadedCache {
    /// What the run starts from.
    pub cache: Cache,
    /// The persisted cache could not be read or parsed, and was set aside.
    pub corrupt: bool,
}

/// What was found at the location of the persisted cache.
#[derive(Debug)]
pub enum StoredCache {
    /// No file is there.
    Absent,
    /// A file is there but could not be read as text.
    Unreadable,
    /// The text of the file.
    Text(String),
}

/// Loads the persisted cache from what was found at its location, and the
/// records that parsing its text gave (`None` when it did not parse). An
/// absent or empty file is an empty cache; a file that cannot be read or
/// parsed gives an empty cache and a warning, never an error.
pub fn load_cache(stored: StoredCache, parsed: Option<Vec<Entry>>) -> (r: LoadedCache)
    ensures
        r.cache.wf(),
        match stored {
            StoredCache::Absent => !r.corrupt && r.cache@.len() == 0,
            StoredCache::Unreadable => r.corrupt && r.cache@.len() == 0,
            StoredCache::Text(t) => if t@.len() == 0 {
                !r.corrupt && r.cache@.len() == 0
            } else {
                match parsed {
                    None => r.corrupt && r.cache@.len() == 0,
                    Some(rs) => !r.corrupt && r.cache@ == insert_all(
                        Seq::empty(),
                        entries_view(rs@),
                    ),
                }
            },
        },
{
    let found = match stored {
        StoredCache::Absent => Some(Cache::new()),
        StoredCache::Unreadable => None,
        StoredCache::Text(t) => parse_cache(t.as_str(), parsed),
    };
    match found {
        Some(cache) => LoadedCache { cache, corrupt: false },
        None => LoadedCache { cache: Cache::new(), corrupt: true },
    }
}

/// Persisting a cache and reading the records back gives the same cache.
pub proof fn lemma_records_round_trip(c: Records)
    requires
        unique_digests(c),
    ensures
        insert_all(Seq::empty(), c) == c,
{
    lemma_insert_all_unique_records(c);
}

} // verus!
