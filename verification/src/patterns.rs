//! The regular-expression engine behind the scanner and the rewriter, and the
//! scanner for idioms that are known to run slowly.

use crate::text::str_equal;
use vstd::prelude::*;

verus! {

/// Whether the regular-expression engine accepts `pattern`.
pub uninterp spec fn regex_accepts(pattern: Seq<char>) -> bool;

/// Whether the accepted `pattern` matches somewhere in `text`.
pub uninterp spec fn regex_is_match(pattern: Seq<char>, text: Seq<char>) -> bool;

/// Compiles `pattern` with `regex::Regex::new` and searches `text` with
/// `Regex::is_match`. Trusted: the answer is `None` exactly for a pattern that
/// the engine rejects, and otherwise says whether the engine finds a match;
/// both depend on the two texts alone.
#[verifier::external_body]
pub(crate) fn search(pattern: &str, text: &str) -> (r: Option<bool>)
    ensures
        r == if regex_accepts(pattern@) {
            Some(regex_is_match(pattern@, text@))
        } else {
            None::<bool>
        },
{
    match regex::Regex::new(pattern) {
        Ok(re) => Some(re.is_match(text)),
        Err(_) => None,
    }
}

/// The views of a sequence of string slices.
pub open spec fn str_views(v: Seq<&'static str>) -> Seq<Seq<char>> {
    Seq::new(v.len(), |i: int| v[i]@)
}

/// The patterns of slow idioms known for `language`; none for a language
/// without rules.
pub open spec fn performance_patterns(language: Seq<char>) -> Seq<Seq<char>> {
    if language == "python"@ {
        seq![r"for .+ in range\(len\("@, r"\.append\(.+\) for"@, r"time\.sleep\("@]
    } else if language == "javascript"@ || language == "typescript"@ {
        seq![
            r"document\.querySelector.*inside loop"@,
            r"forEach.*async"@,
            r"new Array\(\d+\)\.fill"@,
        ]
    } else {
        Seq::empty()
    }
}

/// What one search outcome means for the scan: a hit only when the pattern
/// was accepted and matched.
pub open spec fn outcome_is_hit(outcome: Option<bool>) -> bool {
    outcome == Some(true)
}

/// `pattern` is accepted by the engine and matches `code`.
pub open spec fn pattern_hits(pattern: Seq<char>, code: Seq<char>) -> bool {
    regex_accepts(pattern) && regex_is_match(pattern, code)
}

/// Some pattern known for `language` hits `code`.
pub open spec fn has_issue(code: Seq<char>, language: Seq<char>) -> bool {
    exists|i: int|
        0 <= i < performance_patterns(language).len() && pattern_hits(
            #[trigger] performance_patterns(language)[i],
            code,
        )
}

/// Reads one search outcome: a rejected pattern counts as no hit.
pub fn is_hit(outcome: Option<bool>) -> (r: bool)
    ensures
        r == outcome_is_hit(outcome),
{
    match outcome {
        Some(found) => found,
        None => false,
    }
}

/// The patterns of slow idioms known for `language`.
pub fn patterns_for(language: &str) -> (r: Vec<&'static str>)
    ensures
        str_views(r@) == performance_patterns(language@),
{
    let mut out: Vec<&'static str> = Vec::new();
    if str_equal(language, "python") {
        out.push(r"for .+ in range\(len\(");
        out.push(r"\.append\(.+\) for");
        out.push(r"time\.sleep\(");
    } else if str_equal(language, "javascript") || str_equal(language, "typescript") {
        out.push(r"document\.querySelector.*inside loop");
        out.push(r"forEach.*async");
        out.push(r"new Array\(\d+\)\.fill");
    }
    out
}

/// Decides whether `code` shows an idiom that is known to run slowly in
/// `language`. Patterns that the engine rejects are passed over.
pub fn has_performance_issues(code: &str, language: &str) -> (r: bool)
    ensures
        r == has_issue(code@, language@),
{
    let patterns = patterns_for(language);
    let ghost spec_patterns = performance_patterns(language@);
    let mut i: usize = 0;
    while i < patterns.len()
        invariant
            i <= patterns.len(),
            str_views(patterns@) == spec_patterns,
            spec_patterns == performance_patterns(language@),
            forall|k: int| 0 <= k < i ==> !pattern_hits(#[trigger] spec_patterns[k], code@),
        decreases patterns.len() - i,
    {
        assert(str_views(patterns@)[i as int] == patterns@[i as int]@);
        if is_hit(search(patterns[i], code)) {
            return true;
        }
        i += 1;
    }
    false
}

} // verus!
