//! Parsing of source text into syntax trees, and the analysis built on it.

use crate::metrics::{calculate_metrics, is_metrics_of, CodeMetrics};
use crate::syntax::{is_tree, node_models, NodeModel, SyntaxNode, SyntaxTree};
use crate::text::str_equal;
use vstd::prelude::*;
use vstd::string::*;

verus! {

/// The languages that can be parsed.
#[derive(Clone, Copy, Debug, PartialEq, Eq, Structural)]
pub enum Language {
    Python,
    JavaScript,
    TypeScript,
}

/// Why a text could not be analysed.
#[derive(Debug)]
pub enum AnalysisError {
    /// No grammar is known for the language of this name.
    UnsupportedLanguage(String),
    /// The parser gave no tree.
    ParseFailure,
}

/// The language that `name` names, if it can be parsed.
pub open spec fn language_named(name: Seq<char>) -> Option<Language> {
    if name == "python"@ {
        Some(Language::Python)
    } else if name == "javascript"@ {
        Some(Language::JavaScript)
    } else if name == "typescript"@ {
        Some(Language::TypeScript)
    } else {
        None
    }
}

/// Finds the language that `name` names among those that can be parsed.
pub fn supported_language(name: &str) -> (r: Option<Language>)
    ensures
        r == language_named(name@),
{
    if str_equal(name, "python") {
        Some(Language::Python)
    } else if str_equal(name, "javascript") {
        Some(Language::JavaScript)
    } else if str_equal(name, "typescript") {
        Some(Language::TypeScript)
    } else {
        None
    }
}

/// `tree_sitter::Parser`, carried as an opaque value.
#[verifier::external_type_specification]
#[verifier::external_body]
pub struct ExParser(tree_sitter::Parser);

/// `tree_sitter::Parser::new`. Trusted, with nothing claimed of the parser
/// that it makes.
pub assume_specification[ tree_sitter::Parser::new ]() -> (parser: tree_sitter::Parser)
;

/// The nodes of the syntax tree that the grammar of `language` gives for
/// `code`, parents first, each with its kind and the position of its parent;
/// `None` where the parser gives no tree.
pub uninterp spec fn syntax_nodes(language: Language, code: Seq<char>) -> Option<Seq<NodeModel>>;

/// Parses `code` with `tree_sitter::Parser::parse`, after `set_language` has
/// given the parser the grammar of `language` and cleared what an earlier
/// parse left, and after any time limit and any restriction to ranges has
/// been lifted. The tree is then walked from the root, level by level, with
/// `Node::children`, and each node is listed with its `Node::kind` and the
/// position of its parent in the list. Trusted: the outcome depends on the
/// language and the text alone.
#[verifier::external_body]
fn run_parser(parser: &mut tree_sitter::Parser, language: Language, code: &str) -> (r: Option<
    Vec<SyntaxNode>,
>)
    ensures
        r is Some == syntax_nodes(language, code@) is Some,
        r is Some ==> node_models(r->0@) == syntax_nodes(language, code@)->0,
{
    parser.set_timeout_micros(0);
    parser.set_included_ranges(&[]).ok()?;
    parser.set_language(match language {
        Language::Python => tree_sitter_python::language(),
        Language::JavaScript => tree_sitter_javascript::language(),
        Language::TypeScript => tree_sitter_typescript::language_typescript(),
    }).ok()?;
    let tree = parser.parse(code, None)?;
    let mut out = Vec::new();
    let mut queue = std::collections::VecDeque::from([(tree.root_node(), 0)]);
    while let Some((node, parent)) = queue.pop_front() {
        queue.extend(node.children(&mut node.walk()).map(|k| (k, out.len())));
        out.push(SyntaxNode { kind: node.kind().to_string(), parent });
    }
    Some(out)
}

/// What a parser outcome means: the tree, or a parse failure where the parser
/// gave nothing or what it gave is no tree.
pub open spec fn tree_of(outcome: Option<Seq<NodeModel>>) -> Option<Seq<NodeModel>> {
    match outcome {
        Some(nodes) => if is_tree(nodes) {
            Some(nodes)
        } else {
            None
        },
        None => None,
    }
}

/// Turns a parser outcome into a syntax tree, or into a parse failure.
pub fn tree_from_outcome(outcome: Option<Vec<SyntaxNode>>) -> (r: Result<
    SyntaxTree,
    AnalysisError,
>)
    ensures
        match outcome {
            Some(nodes) => if is_tree(node_models(nodes@)) {
                r is Ok && r->Ok_0@ == node_models(nodes@) && r->Ok_0.wf()
            } else {
                r is Err && r->Err_0 is ParseFailure
            },
            None => r is Err && r->Err_0 is ParseFailure,
        },
{
    match outcome {
        Some(nodes) => match SyntaxTree::from_nodes(nodes) {
            Some(tree) => Ok(tree),
            None => Err(AnalysisError::ParseFailure),
        },
        None => Err(AnalysisError::ParseFailure),
    }
}

/// The analyser: one parser for each language, kept from call to call.
pub struct AstAnalyzer {
    python: tree_sitter::Parser,
    javascript: tree_sitter::Parser,
    typescript: tree_sitter::Parser,
}

impl AstAnalyzer {
    /// An analyser with a fresh parser for each language.
    pub fn new() -> (r: AstAnalyzer) {
        AstAnalyzer {
            python: tree_sitter::Parser::new(),
            javascript: tree_sitter::Parser::new(),
            typescript: tree_sitter::Parser::new(),
        }
    }

    /// Parses `code` as `language`. A language without a grammar is refused
    /// by name; a text for which the parser gives no tree is a parse failure.
    pub fn parse(&mut self, code: &str, language: &str) -> (r: Result<SyntaxTree, AnalysisError>)
        ensures
            match language_named(language@) {
                None => r is Err && r->Err_0 is UnsupportedLanguage
                    && r->Err_0->UnsupportedLanguage_0@ == language@,
                Some(known) => match tree_of(syntax_nodes(known, code@)) {
                    Some(nodes) => r is Ok && r->Ok_0@ == nodes && r->Ok_0.wf(),
                    None => r is Err && r->Err_0 is ParseFailure,
                },
            },
    {
        match supported_language(language) {
            None => Err(AnalysisError::UnsupportedLanguage(language.to_owned())),
            Some(known) => {
                let outcome = match known {
                    Language::Python => run_parser(&mut self.python, known, code),
                    Language::JavaScript => run_parser(&mut self.javascript, known, code),
                    Language::TypeScript => run_parser(&mut self.typescript, known, code),
                };
                tree_from_outcome(outcome)
            },
        }
    }

    /// Measures `code`, read as `language`.
    pub fn analyze(&mut self, code: &str, language: &str) -> (r: Result<
        CodeMetrics,
        AnalysisError,
    >)
        ensures
            match language_named(language@) {
                None => r is Err && r->Err_0 is UnsupportedLanguage
                    && r->Err_0->UnsupportedLanguage_0@ == language@,
                Some(known) => match tree_of(syntax_nodes(known, code@)) {
                    Some(nodes) => r is Ok && is_metrics_of(r->Ok_0, nodes, code@)
                        && r->Ok_0.complexity >= 1,
                    None => r is Err && r->Err_0 is ParseFailure,
                },
            },
    {
        match self.parse(code, language) {
            Ok(tree) => Ok(calculate_metrics(&tree, code)),
            Err(e) => Err(e),
        }
    }
}

impl AnalysisError {
    /// The error in words.
    pub fn message(&self) -> (r: String)
        ensures
            r@ == match self {
                AnalysisError::UnsupportedLanguage(name) => "Language "@ + name@
                    + " not supported"@,
                AnalysisError::ParseFailure => "Failed to parse code"@,
            },
    {
        match self {
            AnalysisError::UnsupportedLanguage(name) => {
                let mut out = "Language ".to_owned();
                out.append(name.as_str());
                out.append(" not supported");
                out
            },
            AnalysisError::ParseFailure => "Failed to parse code".to_owned(),
        }
    }
}

} // verus!
