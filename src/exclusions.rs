//! Exclusion patterns compiled into a glob set that matches paths at any
//! depth.

use vstd::prelude::*;
use globset::{Glob, GlobSet, GlobSetBuilder};
use crate::text::push_char;

verus! {

#[verifier::external_type_specification]
#[verifier::external_body]
pub struct ExGlob(Glob);

#[verifier::external_type_specification]
#[verifier::external_body]
pub struct ExGlobSet(GlobSet);

#[verifier::external_type_specification]
#[verifier::external_body]
pub struct ExGlobSetBuilder(GlobSetBuilder);

#[verifier::external_type_specification]
#[verifier::external_body]
pub struct ExGlobError(globset::Error);

/// The pattern text that a compiled glob was built from.
pub uninterp spec fn glob_pattern(g: Glob) -> Seq<char>;

/// The patterns added to a glob set builder, in order.
pub uninterp spec fn builder_patterns(b: GlobSetBuilder) -> Seq<Seq<char>>;

/// The patterns of a compiled glob set, in order.
pub uninterp spec fn set_patterns(s: GlobSet) -> Seq<Seq<char>>;

/// Whether the glob `pattern`, with globset's default options, matches `path`.
pub uninterp spec fn glob_matches(pattern: Seq<char>, path: Seq<char>) -> bool;

/// Whether `pattern` parses as a glob under globset's default options.
pub uninterp spec fn glob_parses(pattern: Seq<char>) -> bool;

/// Whether globset combines globs with these patterns into one set.
pub uninterp spec fn set_builds(patterns: Seq<Seq<char>>) -> bool;

/// A character with no special meaning in a glob.
pub open spec fn is_plain_char(c: char) -> bool {
    c != '*' && c != '?' && c != '[' && c != ']' && c != '{' && c != '}' && c != ','
        && c != '\\'
}

/// A pattern made of plain characters only: it stands for itself.
pub open spec fn is_plain(p: Seq<char>) -> bool {
    forall|i: int| 0 <= i < p.len() ==> is_plain_char(#[trigger] p[i])
}

/// A glob `*/` followed by one or more plain characters.
pub open spec fn is_suffix_glob(g: Seq<char>) -> bool {
    g.len() > 2 && g[0] == '*' && g[1] == '/' && is_plain(g.skip(2))
}

/// A glob without backslashes that has a `[` with no `]` anywhere after it:
/// a character class that is never closed.
pub open spec fn has_unclosed_class(g: Seq<char>) -> bool {
    &&& forall|k: int| 0 <= k < g.len() ==> #[trigger] g[k] != '\\'
    &&& exists|i: int|
        0 <= i < g.len() && #[trigger] g[i] == '[' && forall|j: int|
            i < j < g.len() ==> #[trigger] g[j] != ']'
}

/// Relies on `Glob::new`: a glob keeps the text it was built from; whether
/// it parses depends on the text alone. `*/` followed by plain characters
/// parses; a character class that is never closed does not.
#[verifier::external_body]
fn new_glob(pattern: &str) -> (r: Result<Glob, globset::Error>)
    ensures
        r matches Ok(g) ==> glob_pattern(g) == pattern@,
        r is Ok <==> glob_parses(pattern@),
        is_suffix_glob(pattern@) ==> r is Ok,
        has_unclosed_class(pattern@) ==> r is Err,
{
    Glob::new(pattern)
}

/// Relies on `GlobSetBuilder::new`: a builder starts without patterns.
#[verifier::external_body]
fn new_builder() -> (r: GlobSetBuilder)
    ensures
        builder_patterns(r) == Seq::<Seq<char>>::empty(),
{
    GlobSetBuilder::new()
}

/// Relies on `GlobSetBuilder::add`: the glob is appended to the builder's
/// patterns.
#[verifier::external_body]
fn add_glob(b: &mut GlobSetBuilder, g: Glob)
    ensures
        builder_patterns(*final(b)) == builder_patterns(*old(b)).push(glob_pattern(g)),
{
    b.add(g);
}

/// Relies on `GlobSetBuilder::build`: the set that is built holds every
/// pattern added to the builder; whether it builds depends on the patterns
/// alone. Globs that are `*/` followed by plain characters take the suffix
/// strategy, which cannot fail, and no glob at all gives the empty set.
#[verifier::external_body]
fn build_set(b: &GlobSetBuilder) -> (r: Result<GlobSet, globset::Error>)
    ensures
        r matches Ok(s) ==> set_patterns(s) == builder_patterns(*b),
        r is Ok <==> set_builds(builder_patterns(*b)),
        (forall|i: int|
            0 <= i < builder_patterns(*b).len() ==> is_suffix_glob(
                #[trigger] builder_patterns(*b)[i],
            )) ==> r is Ok,
{
    b.build()
}

/// `path` ends with `tail`.
pub open spec fn ends_with(path: Seq<char>, tail: Seq<char>) -> bool {
    path.len() >= tail.len() && path.skip(path.len() - tail.len()) == tail
}

/// A glob `*/` followed by plain characters, together with a path that ends
/// with the glob without its leading `*`.
pub open spec fn matches_as_suffix_glob(glob: Seq<char>, path: Seq<char>) -> bool {
    is_suffix_glob(glob) && ends_with(path, glob.skip(1))
}

/// Whether `glob` matches `path`: a suffix glob matches exactly the paths
/// that end with it without its leading `*`.
pub open spec fn glob_hits(glob: Seq<char>, path: Seq<char>) -> bool {
    if is_suffix_glob(glob) {
        ends_with(path, glob.skip(1))
    } else {
        glob_matches(glob, path)
    }
}

/// Some glob of `globs` matches `path`.
pub open spec fn set_matches(globs: Seq<Seq<char>>, path: Seq<char>) -> bool {
    exists|i: int| 0 <= i < globs.len() && glob_hits(#[trigger] globs[i], path)
}

/// Relies on `GlobSet::is_match`: true when some glob of the set matches the
/// path. With the default options `*` matches any run of characters, `/`
/// included, and a plain character matches itself, so `*/` followed by plain
/// characters matches exactly the paths ending with `/` and those characters.
#[verifier::external_body]
fn set_is_match(s: &GlobSet, path: &str) -> (r: bool)
    ensures
        r == (exists|i: int|
            0 <= i < set_patterns(*s).len() && (if is_suffix_glob(#[trigger] set_patterns(*s)[i]) {
                ends_with(path@, set_patterns(*s)[i].skip(1))
            } else {
                glob_matches(set_patterns(*s)[i], path@)
            })),
{
    s.is_match(path)
}

/// `p` starts with `*/`, the prefix that already matches at any depth.
pub open spec fn is_anchored(p: Seq<char>) -> bool {
    p.len() >= 2 && p[0] == '*' && p[1] == '/'
}

/// `s` with every backslash written as a forward slash.
pub open spec fn forward_slashes(s: Seq<char>) -> Seq<char> {
    s.map_values(|c: char| if c == '\\' { '/' } else { c })
}

/// The glob compiled for an exclusion pattern: prefixed with `*/` unless it
/// already starts so, with backslashes turned into forward slashes.
pub open spec fn glob_for(p: Seq<char>) -> Seq<char> {
    forward_slashes(if is_anchored(p) { p } else { seq!['*', '/'] + p })
}

/// The glob text for one exclusion pattern.
pub fn glob_text(pattern: &str) -> (r: String)
    ensures
        r@ == glob_for(pattern@),
{
    let mut first: Option<char> = None;
    let mut anchored = false;
    let mut seen: usize = 0;
    for c in it: pattern.chars()
        invariant
            it.seq() == pattern@,
            seen == if it.index() < 2 { it.index() } else { 2 },
            it.index() >= 1 ==> first == Some(pattern@[0]),
            anchored == (it.index() >= 2 && pattern@[0] == '*' && pattern@[1] == '/'),
    {
        if seen == 0 {
            first = Some(c);
        } else if seen == 1 {
            anchored = first == Some('*') && c == '/';
        }
        if seen < 2 {
            seen = seen + 1;
        }
    }
    let mut r = String::new();
    let ghost prefix: Seq<char> = if anchored { Seq::empty() } else { seq!['*', '/'] };
    if !anchored {
        push_char(&mut r, '*');
        push_char(&mut r, '/');
    }
    assert(r@ =~= forward_slashes(prefix));
    for c in it: pattern.chars()
        invariant
            it.seq() == pattern@,
            r@ == forward_slashes(prefix + pattern@.take(it.index())),
    {
        let ghost before = prefix + pattern@.take(it.index());
        if c == '\\' {
            push_char(&mut r, '/');
        } else {
            push_char(&mut r, c);
        }
        assert(prefix + pattern@.take(it.index() + 1) =~= before.push(c));
        assert(forward_slashes(before.push(c)) =~= forward_slashes(before).push(
            if c == '\\' { '/' } else { c },
        ));
    }
    assert(pattern@.take(pattern@.len() as int) =~= pattern@);
    assert(is_anchored(pattern@) ==> prefix + pattern@ =~= pattern@);
    r
}

/// Why a list of exclusion patterns could not be compiled.
#[derive(Debug)]
pub enum ExclusionError {
    /// The glob made from the pattern at `index` does not compile.
    InvalidGlob { index: usize, error: globset::Error },
    /// The compiled globs could not be combined into one set.
    Build { error: globset::Error },
}

/// Compiles a list of exclusion patterns into one matcher.
pub trait IntoGlobSet {
    fn into_globset(&self) -> Result<GlobSet, ExclusionError>;
}

/// The globs compiled for a list of exclusion patterns.
pub open spec fn globs_for(patterns: Seq<Seq<char>>) -> Seq<Seq<char>> {
    patterns.map_values(|p: Seq<char>| glob_for(p))
}

/// A non-empty pattern of plain characters: the name of a file or directory,
/// or a relative path, excluded wherever it ends a path.
pub open spec fn is_plain_name(p: Seq<char>) -> bool {
    p.len() > 0 && is_plain(p)
}

impl IntoGlobSet for Vec<String> {
    /// The set holds the glob of every pattern, in order. It is built when
    /// every glob parses and globset combines them; an error names the first
    /// pattern whose glob does not parse. Plain names always compile, and an
    /// unclosed character class never does.
    fn into_globset(&self) -> (r: Result<GlobSet, ExclusionError>)
        ensures
            r matches Ok(s) ==> set_patterns(s) == globs_for(self.deep_view()),
            r is Ok <==> (forall|i: int|
                0 <= i < self.len() ==> glob_parses(glob_for(#[trigger] self.deep_view()[i])))
                && set_builds(globs_for(self.deep_view())),
            (r matches Err(ExclusionError::InvalidGlob { index, .. }) ==> {
                &&& index < self.len()
                &&& !glob_parses(glob_for(self.deep_view()[index as int]))
                &&& forall|j: int|
                    0 <= j < index ==> glob_parses(glob_for(#[trigger] self.deep_view()[j]))
            }),
            (r is Err && !(r matches Err(ExclusionError::InvalidGlob { .. }))) ==> (forall|i: int|
                0 <= i < self.len() ==> glob_parses(glob_for(#[trigger] self.deep_view()[i])))
                && !set_builds(globs_for(self.deep_view())),
            (forall|i: int| 0 <= i < self.len() ==> is_plain_name(#[trigger] self.deep_view()[i]))
                ==> r is Ok,
            (exists|i: int|
                0 <= i < self.len() && has_unclosed_class(glob_for(#[trigger] self.deep_view()[i])))
                ==> r is Err,
    {
        let ghost all = self.deep_view();
        let mut builder = new_builder();
        let mut i: usize = 0;
        while i < self.len()
            invariant
                i <= self.len(),
                all == self.deep_view(),
                builder_patterns(builder) == globs_for(all.take(i as int)),
                forall|j: int| 0 <= j < i ==> glob_parses(glob_for(#[trigger] all[j])),
                forall|j: int| 0 <= j < i ==> !has_unclosed_class(glob_for(#[trigger] all[j])),
            decreases self.len() - i,
        {
            let text = glob_text(self[i].as_str());
            proof {
                if is_plain_name(all[i as int]) {
                    lemma_plain_name_glob(all[i as int]);
                }
            }
            match new_glob(text.as_str()) {
                Ok(g) => {
                    add_glob(&mut builder, g);
                },
                Err(error) => {
                    proof {
                        if forall|k: int| 0 <= k < self.len() ==> is_plain_name(
                            #[trigger] self.deep_view()[k],
                        ) {
                            assert(is_plain_name(all[i as int]));
                        }
                    }
                    return Err(ExclusionError::InvalidGlob { index: i, error });
                },
            }
            assert(globs_for(all.take(i + 1)) =~= globs_for(all.take(i as int)).push(
                glob_for(all[i as int]),
            ));
            i = i + 1;
        }
        assert(all.take(all.len() as int) =~= all);
        proof {
            if forall|k: int| 0 <= k < self.len() ==> is_plain_name(#[trigger] self.deep_view()[k]) {
                assert forall|k: int| 0 <= k < all.len() implies is_suffix_glob(
                    #[trigger] globs_for(all)[k],
                ) by {
                    lemma_plain_name_glob(all[k]);
                }
            }
        }
        match build_set(&builder) {
            Ok(s) => Ok(s),
            Err(error) => Err(ExclusionError::Build { error }),
        }
    }
}

/// The glob of a plain name is `*/` followed by the name.
pub proof fn lemma_plain_name_glob(p: Seq<char>)
    requires
        is_plain_name(p),
    ensures
        glob_for(p) == seq!['*', '/'] + p,
        is_suffix_glob(glob_for(p)),
{
    let g = seq!['*', '/'] + p;
    assert(!is_anchored(p)) by {
        if p.len() >= 2 {
            assert(is_plain_char(p[0]));
        }
    }
    assert(forward_slashes(g) =~= g) by {
        assert forall|i: int| 0 <= i < g.len() implies g[i] != '\\' by {
            if i >= 2 {
                assert(is_plain_char(p[i - 2]));
            }
        }
    }
    assert(g.skip(2) =~= p);
}

/// `path` ends with `pattern`, starting right after a `/`.
pub open spec fn ends_with_segments(path: Seq<char>, pattern: Seq<char>) -> bool {
    path.len() > pattern.len() && path[path.len() - pattern.len() - 1] == '/' && ends_with(
        path,
        pattern,
    )
}

/// Whether some glob of the set matches `path`.
pub fn is_excluded(set: &GlobSet, path: &str) -> (r: bool)
    ensures
        r == set_matches(set_patterns(*set), path@),
{
    set_is_match(set, path)
}

/// Exclusion at any depth: a set compiled from a list that holds a plain
/// name matches every path that ends with that name right after a `/`, so
/// `is_excluded` is true of the path.
pub proof fn lemma_compiled_set_excludes_suffix(patterns: Seq<Seq<char>>, k: int, path: Seq<char>)
    requires
        0 <= k < patterns.len(),
        is_plain_name(patterns[k]),
        ends_with_segments(path, patterns[k]),
    ensures
        set_matches(globs_for(patterns), path),
{
    lemma_plain_name_glob(patterns[k]);
    let g = globs_for(patterns)[k];
    assert(g.skip(1) =~= seq!['/'] + patterns[k]);
    assert(path.skip(path.len() - g.skip(1).len()) =~= g.skip(1));
    assert(glob_hits(g, path));
}

/// A list of plain names excludes a path exactly when the path ends with
/// one of the names right after a `/`.
pub proof fn lemma_plain_names_match_exactly(patterns: Seq<Seq<char>>, path: Seq<char>)
    requires
        forall|k: int| 0 <= k < patterns.len() ==> is_plain_name(#[trigger] patterns[k]),
    ensures
        set_matches(globs_for(patterns), path) <==> exists|k: int|
            0 <= k < patterns.len() && ends_with(path, seq!['/'] + #[trigger] patterns[k]),
{
    assert forall|k: int| 0 <= k < patterns.len() implies #[trigger] glob_hits(
        globs_for(patterns)[k],
        path,
    ) == ends_with(path, seq!['/'] + patterns[k]) by {
        lemma_plain_name_glob(patterns[k]);
        assert(globs_for(patterns)[k].skip(1) =~= seq!['/'] + patterns[k]);
    }
    if set_matches(globs_for(patterns), path) {
        let k = choose|k: int|
            0 <= k < globs_for(patterns).len() && glob_hits(#[trigger] globs_for(patterns)[k], path);
        assert(ends_with(path, seq!['/'] + patterns[k]));
    }
    if exists|k: int| 0 <= k < patterns.len() && ends_with(path, seq!['/'] + #[trigger] patterns[k]) {
        let k = choose|k: int|
            0 <= k < patterns.len() && ends_with(path, seq!['/'] + #[trigger] patterns[k]);
        assert(glob_hits(globs_for(patterns)[k], path));
    }
}

/// The set compiled from two lists joined matches a path exactly when the
/// set of either list does; the empty list matches nothing.
pub proof fn lemma_joined_lists_match_union(a: Seq<Seq<char>>, b: Seq<Seq<char>>, path: Seq<char>)
    ensures
        set_matches(globs_for(a + b), path) <==> set_matches(globs_for(a), path) || set_matches(
            globs_for(b),
            path,
        ),
        !set_matches(globs_for(Seq::empty()), path),
{
    let ab = globs_for(a + b);
    assert(ab =~= globs_for(a) + globs_for(b));
    if set_matches(ab, path) {
        let i = choose|i: int| 0 <= i < ab.len() && glob_hits(#[trigger] ab[i], path);
        if i < a.len() {
            assert(glob_hits(globs_for(a)[i], path));
        } else {
            assert(glob_hits(globs_for(b)[i - a.len()], path));
        }
    }
    if set_matches(globs_for(a), path) {
        let i = choose|i: int| 0 <= i < globs_for(a).len() && glob_hits(#[trigger] globs_for(a)[i], path);
        assert(glob_hits(ab[i], path));
    }
    if set_matches(globs_for(b), path) {
        let i = choose|i: int| 0 <= i < globs_for(b).len() && glob_hits(#[trigger] globs_for(b)[i], path);
        assert(glob_hits(ab[a.len() + i], path));
    }
}

} // verus!
