//! The analysis stage: locating alias references (`import("@/...")` and
//! `require("@/...")`) in the contents of a newly seen file.

use vstd::prelude::*;
use regex::Regex;

verus! {

#[verifier::external_type_specification]
#[verifier::external_body]
pub struct ExRegex(Regex);

#[verifier::external_type_specification]
#[verifier::external_body]
pub struct ExRegexError(regex::Error);

/// An import or require call whose argument starts with the `@/` alias;
/// group 1 is the alias, group 2 the path after it.
pub const ALIAS_PATTERN: &'static str = r#"(?:require|import)\(['"](@/)([^'"]+)['"]\)"#;

/// The pattern a compiled regex was built from.
pub uninterp spec fn regex_pattern(re: Regex) -> Seq<char>;

/// For each successive non-overlapping match of `pattern` in `text`, the
/// byte span of every group (group 0 is the whole match), `None` for a group
/// that took no part in the match.
pub uninterp spec fn capture_spans(pattern: Seq<char>, text: Seq<char>) -> Seq<
    Seq<Option<(usize, usize)>>,
>;

/// Whether `pattern` compiles as a regex under the default options.
pub uninterp spec fn regex_compiles(pattern: Seq<char>) -> bool;

/// Relies on `Regex::new`: a regex that compiles keeps its pattern; whether
/// it compiles depends on the pattern alone.
#[verifier::external_body]
fn compile_regex(pattern: &str) -> (r: Result<Regex, regex::Error>)
    ensures
        r matches Ok(re) ==> regex_pattern(re) == pattern@,
        r is Ok <==> regex_compiles(pattern@),
{
    Regex::new(pattern)
}

/// Relies on `Regex::captures_iter`: the group spans of each successive
/// match, in order.
#[verifier::external_body]
fn captures(re: &Regex, text: &str) -> (r: Vec<Vec<Option<(usize, usize)>>>)
    ensures
        r@.len() == capture_spans(regex_pattern(*re), text@).len(),
        forall|i: int|
            0 <= i < r@.len() ==> #[trigger] r@[i]@ == capture_spans(regex_pattern(*re), text@)[i],
{
    re.captures_iter(text).map(|c| c.iter().map(|g| g.map(|m| (m.start(), m.end()))).collect()).collect()
}

/// A range of byte offsets into a file's contents, end excluded.
#[derive(Clone, Copy, Debug, PartialEq, Eq, Structural)]
pub struct Span {
    pub start: usize,
    pub end: usize,
}

/// An alias reference found in a file's contents, as byte spans.
#[derive(Clone, Copy, Debug, PartialEq, Eq, Structural)]
pub struct AliasReference {
    /// The whole call, from `import` or `require` to the closing parenthesis.
    pub span: Span,
    /// The alias token, `@/`.
    pub alias: Span,
    /// The path that follows the alias.
    pub target: Span,
}

/// The span of a pair of offsets.
pub open spec fn span_of(p: (usize, usize)) -> Span {
    Span { start: p.0, end: p.1 }
}

/// The reference that one match describes, if its three groups are there.
pub open spec fn reference_of(groups: Seq<Option<(usize, usize)>>) -> Option<AliasReference> {
    if groups.len() >= 3 && groups[0] is Some && groups[1] is Some && groups[2] is Some {
        Some(
            AliasReference {
                span: span_of(groups[0]->0),
                alias: span_of(groups[1]->0),
                target: span_of(groups[2]->0),
            },
        )
    } else {
        None
    }
}

/// The references that a series of matches describes, in order.
pub open spec fn references_from(caps: Seq<Seq<Option<(usize, usize)>>>) -> Seq<AliasReference>
    decreases caps.len(),
{
    if caps.len() == 0 {
        Seq::empty()
    } else {
        let before = references_from(caps.drop_last());
        match reference_of(caps.last()) {
            Some(r) => before.push(r),
            None => before,
        }
    }
}

/// The alias references that the group spans of successive matches describe.
pub fn references_from_captures(caps: &Vec<Vec<Option<(usize, usize)>>>) -> (r: Vec<AliasReference>)
    ensures
        r@ == references_from(caps@.map_values(|g: Vec<Option<(usize, usize)>>| g@)),
{
    let ghost all = caps@.map_values(|g: Vec<Option<(usize, usize)>>| g@);
    let mut r: Vec<AliasReference> = Vec::new();
    let mut i: usize = 0;
    while i < caps.len()
        invariant
            i <= caps@.len(),
            all == caps@.map_values(|g: Vec<Option<(usize, usize)>>| g@),
            r@ == references_from(all.take(i as int)),
        decreases caps.len() - i,
    {
        let g = &caps[i];
        assert(all.take(i + 1).drop_last() =~= all.take(i as int));
        assert(all.take(i + 1).last() == g@);
        if g.len() >= 3 {
            match (g[0], g[1], g[2]) {
                (Some(span), Some(alias), Some(target)) => {
                    r.push(
                        AliasReference {
                            span: Span { start: span.0, end: span.1 },
                            alias: Span { start: alias.0, end: alias.1 },
                            target: Span { start: target.0, end: target.1 },
                        },
                    );
                },
                _ => {},
            }
        }
        i = i + 1;
    }
    assert(all.take(caps@.len() as int) =~= all);
    r
}

/// The compiled alias pattern.
pub struct AliasScanner {
    re: Regex,
}

impl AliasScanner {
    #[verifier::type_invariant]
    spec fn holds_alias_pattern(&self) -> bool {
        regex_pattern(self.re) == ALIAS_PATTERN@
    }

    /// Compiles the alias pattern.
    pub fn new() -> (r: Result<AliasScanner, regex::Error>)
        ensures
            r is Ok <==> regex_compiles(ALIAS_PATTERN@),
    {
        match compile_regex(ALIAS_PATTERN) {
            Ok(re) => Ok(AliasScanner { re }),
            Err(e) => Err(e),
        }
    }

    /// The alias references in `content`, in order of appearance.
    pub fn find_alias_references(&self, content: &str) -> (r: Vec<AliasReference>)
        ensures
            r@ == references_from(capture_spans(ALIAS_PATTERN@, content@)),
    {
        proof {
            use_type_invariant(self);
        }
        let caps = captures(&self.re, content);
        let r = references_from_captures(&caps);
        assert(caps@.map_values(|g: Vec<Option<(usize, usize)>>| g@) =~= capture_spans(
            ALIAS_PATTERN@,
            content@,
        ));
        r
    }
}

} // verus!
