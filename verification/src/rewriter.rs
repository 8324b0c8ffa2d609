//! Textual rewriting of source code by ordered substitution rules. The rules
//! look at the text only: what they produce is not parsed or checked again,
//! and may be code that no longer compiles.

use crate::patterns::{regex_accepts, regex_is_match, search};
use crate::text::{contains, str_contains, str_equal};
use vstd::prelude::*;
use vstd::string::*;

verus! {

/// The text that replacing every match of the accepted `pattern` in `text`
/// gives, where the matches do not overlap and `replacement` may name capture
/// groups.
pub uninterp spec fn regex_replace_all(
    pattern: Seq<char>,
    text: Seq<char>,
    replacement: Seq<char>,
) -> Seq<char>;

/// Compiles `pattern` with `regex::Regex::new` and rewrites `text` with
/// `Regex::replace_all`. Trusted: the answer is `None` exactly for a pattern
/// that the engine rejects, and otherwise the engine's rewritten text, which
/// depends on the three texts alone and is `text` itself where the pattern
/// has no match.
#[verifier::external_body]
fn substitute(pattern: &str, text: &str, replacement: &str) -> (r: Option<String>)
    ensures
        r is Some == regex_accepts(pattern@),
        r is Some ==> r->0@ == regex_replace_all(pattern@, text@, replacement@),
        r is Some && !regex_is_match(pattern@, text@) ==> r->0@ == text@,
{
    match regex::Regex::new(pattern) {
        Ok(re) => Some(re.replace_all(text, replacement).into_owned()),
        Err(_) => None,
    }
}

/// The text that the backtracking engine makes of `text` by replacing every
/// match of `pattern`, which may refer back to its own capture groups; `None`
/// where that engine rejects the pattern or gives the search up.
pub uninterp spec fn backtracking_replace_all(
    pattern: Seq<char>,
    text: Seq<char>,
    replacement: Seq<char>,
) -> Option<Seq<char>>;

/// Compiles `pattern` with `fancy_regex::Regex::new` and rewrites `text` with
/// `Regex::try_replacen` without a limit on the number of matches. Trusted:
/// the answer is `None` where the pattern is rejected or the search exceeds
/// the engine's limit on backtracking, and otherwise the engine's rewritten
/// text; it depends on the three texts alone.
#[verifier::external_body]
fn substitute_backtracking(pattern: &str, text: &str, replacement: &str) -> (r: Option<String>)
    ensures
        r is Some == backtracking_replace_all(pattern@, text@, replacement@) is Some,
        r is Some ==> r->0@ == backtracking_replace_all(pattern@, text@, replacement@)->0,
{
    match fancy_regex::Regex::new(pattern) {
        Ok(re) => re.try_replacen(text, 0, replacement).ok().map(|out| out.into_owned()),
        Err(_) => None,
    }
}

/// What one rule makes of `text`: every match replaced. A pattern that the
/// regular-expression engine rejects goes to the backtracking engine, and
/// where that has no answer either, the rule leaves `text` as it is.
pub open spec fn rule_result(text: Seq<char>, pattern: Seq<char>, replacement: Seq<char>) -> Seq<
    char,
> {
    if regex_accepts(pattern) {
        regex_replace_all(pattern, text, replacement)
    } else {
        match backtracking_replace_all(pattern, text, replacement) {
            Some(rewritten) => rewritten,
            None => text,
        }
    }
}

/// What a rule leaves, given an engine's answer: the rewritten text, or the
/// text as it was where the engine had no answer.
pub fn settle(text: String, outcome: Option<String>) -> (r: String)
    ensures
        r@ == match outcome {
            Some(rewritten) => rewritten@,
            None => text@,
        },
{
    match outcome {
        Some(rewritten) => rewritten,
        None => text,
    }
}

/// Whether the regular-expression engine accepts `pattern` and finds no match
/// of it in `text`.
pub open spec fn is_settled(text: Seq<char>, pattern: Seq<char>) -> bool {
    regex_accepts(pattern) && !regex_is_match(pattern, text)
}

/// Applies one substitution rule to the whole of `text`. A text in which the
/// pattern has no match stays as it is.
pub fn apply_rule(text: String, pattern: &str, replacement: &str) -> (r: String)
    ensures
        r@ == rule_result(text@, pattern@, replacement@),
        is_settled(text@, pattern@) ==> r@ == text@,
{
    match substitute(pattern, text.as_str(), replacement) {
        Some(rewritten) => rewritten,
        None => {
            let outcome = substitute_backtracking(pattern, text.as_str(), replacement);
            settle(text, outcome)
        },
    }
}

/// Python after its rules, each applied to what the one before left: the
/// index loop over `range(len(..))` becomes an `enumerate` loop, a list filled
/// by a one-statement loop becomes a comprehension, and a `format` call on a
/// string literal becomes an f-string.
pub open spec fn python_rewrite(code: Seq<char>) -> Seq<char> {
    let indexed = rule_result(
        code,
        r"for (\w+) in range\(len\((\w+)\)\):"@,
        "for $1, _ in enumerate($2):"@,
    );
    let gathered = rule_result(
        indexed,
        r"(\w+) = \[\]\s*\n\s*for (\w+) in (\w+):\s*\n\s*\1\.append\(([^)]+)\)"@,
        "$1 = [$4 for $2 in $3]"@,
    );
    rule_result(gathered, "\"([^\"]*)\"\\s*\\.\\s*format\\(([^)]+)\\)"@, "f\"$1\""@)
}

/// JavaScript or TypeScript after its rules: `var` becomes `let`, `==`
/// becomes `===` and `!=` becomes `!==`.
pub open spec fn javascript_rewrite(code: Seq<char>) -> Seq<char> {
    let scoped = rule_result(code, r"\bvar\s+"@, "let "@);
    let equal = rule_result(scoped, r"([^=!])={2}([^=])"@, "$1===$2"@);
    rule_result(equal, r"!{1}=([^=])"@, "!==$1"@)
}

/// The idiom whose presence calls for the advisory comment.
pub open spec fn clone_marker() -> Seq<char> {
    ".clone()"@
}

/// The advisory comment, with its line end.
pub open spec fn clone_advice() -> Seq<char> {
    "// TODO: Consider reducing clone() usage for better performance\n"@
}

/// `code` with the advisory comment in front when it clones.
pub open spec fn with_clone_advice(code: Seq<char>) -> Seq<char> {
    if contains(code, clone_marker()) {
        clone_advice() + code
    } else {
        code
    }
}

/// Rust after its rules: `.unwrap()` becomes `?`, and code that still clones
/// gets the advisory comment in front.
pub open spec fn rust_rewrite(code: Seq<char>) -> Seq<char> {
    with_clone_advice(rule_result(code, r"\.unwrap\(\)"@, "?"@))
}

/// What rewriting makes of `code` in `language`; a language without rules
/// leaves it as it is.
pub open spec fn rewritten(code: Seq<char>, language: Seq<char>) -> Seq<char> {
    if language == "python"@ {
        python_rewrite(code)
    } else if language == "javascript"@ || language == "typescript"@ {
        javascript_rewrite(code)
    } else if language == "rust"@ {
        rust_rewrite(code)
    } else {
        code
    }
}

/// Rewrites Python code by its rules.
pub fn improve_python_code(code: &str) -> (r: String)
    ensures
        r@ == python_rewrite(code@),
{
    let indexed = apply_rule(
        code.to_owned(),
        r"for (\w+) in range\(len\((\w+)\)\):",
        "for $1, _ in enumerate($2):",
    );
    let gathered = apply_rule(
        indexed,
        r"(\w+) = \[\]\s*\n\s*for (\w+) in (\w+):\s*\n\s*\1\.append\(([^)]+)\)",
        "$1 = [$4 for $2 in $3]",
    );
    apply_rule(gathered, "\"([^\"]*)\"\\s*\\.\\s*format\\(([^)]+)\\)", "f\"$1\"")
}

/// Whether none of the rules for JavaScript has a match in `code`.
pub open spec fn javascript_settled(code: Seq<char>) -> bool {
    &&& is_settled(code, r"\bvar\s+"@)
    &&& is_settled(code, r"([^=!])={2}([^=])"@)
    &&& is_settled(code, r"!{1}=([^=])"@)
}

/// Decides whether none of the rules for JavaScript has a match in `code`, so
/// that rewriting it would change nothing.
pub fn is_javascript_settled(code: &str) -> (r: bool)
    ensures
        r == javascript_settled(code@),
{
    let scoped = search(r"\bvar\s+", code);
    let equal = search(r"([^=!])={2}([^=])", code);
    let unequal = search(r"!{1}=([^=])", code);
    scoped == Some(false) && equal == Some(false) && unequal == Some(false)
}

/// Rewrites JavaScript or TypeScript code by its rules. Code in which no rule
/// has a match, such as code that was rewritten until nothing changed, comes
/// back as it is.
pub fn improve_javascript_code(code: &str) -> (r: String)
    ensures
        r@ == javascript_rewrite(code@),
        javascript_settled(code@) ==> r@ == code@,
{
    let scoped = apply_rule(code.to_owned(), r"\bvar\s+", "let ");
    let equal = apply_rule(scoped, r"([^=!])={2}([^=])", "$1===$2");
    apply_rule(equal, r"!{1}=([^=])", "!==$1")
}

/// Puts the advisory comment in front of `code` when it clones.
pub fn advise_on_clones(code: String) -> (r: String)
    ensures
        r@ == with_clone_advice(code@),
{
    if str_contains(code.as_str(), ".clone()") {
        "// TODO: Consider reducing clone() usage for better performance\n".to_owned().concat(
            code.as_str(),
        )
    } else {
        code
    }
}

/// Rewrites Rust code by its rules.
pub fn improve_rust_code(code: &str) -> (r: String)
    ensures
        r@ == rust_rewrite(code@),
{
    advise_on_clones(apply_rule(code.to_owned(), r"\.unwrap\(\)", "?"))
}

/// Rewrites `code` by the rules of `language`. JavaScript or TypeScript code
/// in which no rule has a match comes back as it is.
pub fn rewrite(code: &str, language: &str) -> (r: String)
    ensures
        r@ == rewritten(code@, language@),
        (language@ == "javascript"@ || language@ == "typescript"@) && javascript_settled(code@)
            ==> r@ == code@,
{
    proof {
        reveal_strlit("python");
        reveal_strlit("javascript");
        reveal_strlit("typescript");
        assert("python"@.len() == 6 && "javascript"@.len() == 10 && "typescript"@.len() == 10);
    }
    if str_equal(language, "python") {
        improve_python_code(code)
    } else if str_equal(language, "javascript") || str_equal(language, "typescript") {
        improve_javascript_code(code)
    } else if str_equal(language, "rust") {
        improve_rust_code(code)
    } else {
        code.to_owned()
    }
}

} // verus!
