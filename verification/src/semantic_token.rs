use vstd::prelude::*;

use crate::ast::QbeAst;
use crate::semantic_analyze::{type_of_group, Type};
use crate::syntax::{first_lexeme_of, Group, Lexeme, Node, QbeToken};

verus! {

/// A highlighted stretch of the source: where it starts, how long it is and the index of its
/// kind in the legend.
#[derive(Clone, Copy, PartialEq, Eq, Structural, Debug)]
pub struct ImCompleteSemanticToken {
    pub start: usize,
    pub length: usize,
    pub token_type: usize,
}

/// The kinds of highlighting an editor is told about, in the order of the legend.
#[derive(Clone, Copy, PartialEq, Eq, Structural, Debug)]
pub enum SemanticKind {
    Function,
    Variable,
    String,
    Comment,
    Number,
    Keyword,
    Operator,
    Parameter,
    Type,
    Decorator,
    Property,
}

/// The legend: the highlighting kinds in the order their indices refer to.
pub open spec fn legend_spec() -> Seq<SemanticKind> {
    seq![
        SemanticKind::Function,
        SemanticKind::Variable,
        SemanticKind::String,
        SemanticKind::Comment,
        SemanticKind::Number,
        SemanticKind::Keyword,
        SemanticKind::Operator,
        SemanticKind::Parameter,
        SemanticKind::Type,
        SemanticKind::Decorator,
        SemanticKind::Property,
    ]
}

/// The index of a highlighting kind in the legend.
pub open spec fn legend_index(kind: SemanticKind) -> nat {
    match kind {
        SemanticKind::Function => 0,
        SemanticKind::Variable => 1,
        SemanticKind::String => 2,
        SemanticKind::Comment => 3,
        SemanticKind::Number => 4,
        SemanticKind::Keyword => 5,
        SemanticKind::Operator => 6,
        SemanticKind::Parameter => 7,
        SemanticKind::Type => 8,
        SemanticKind::Decorator => 9,
        SemanticKind::Property => 10,
    }
}

/// The legend.
pub fn legend() -> (r: Vec<SemanticKind>)
    ensures
        r@ == legend_spec(),
{
    let r = vec![
        SemanticKind::Function,
        SemanticKind::Variable,
        SemanticKind::String,
        SemanticKind::Comment,
        SemanticKind::Number,
        SemanticKind::Keyword,
        SemanticKind::Operator,
        SemanticKind::Parameter,
        SemanticKind::Type,
        SemanticKind::Decorator,
        SemanticKind::Property,
    ];
    assert(r@ =~= legend_spec());
    r
}

/// How a lexeme is highlighted: globals as properties, type names and base types as types,
/// strings, numbers and comments as such, labels as decorators; temporaries, white space,
/// line breaks, punctuation and assignment signs not at all; everything else as a keyword.
pub open spec fn highlight_of(k: QbeToken) -> Option<SemanticKind> {
    match k {
        QbeToken::Global => Some(SemanticKind::Property),
        QbeToken::TypeName | QbeToken::L | QbeToken::W | QbeToken::B => Some(SemanticKind::Type),
        QbeToken::String => Some(SemanticKind::String),
        QbeToken::Int => Some(SemanticKind::Number),
        QbeToken::Comment => Some(SemanticKind::Comment),
        QbeToken::Label => Some(SemanticKind::Decorator),
        QbeToken::Newline | QbeToken::Ws | QbeToken::Temp => None,
        QbeToken::Comma | QbeToken::Eq | QbeToken::Eql | QbeToken::Eqw | QbeToken::Eqb
        | QbeToken::LBrace | QbeToken::RBrace | QbeToken::LParen | QbeToken::RParen => None,
        _ => Some(SemanticKind::Keyword),
    }
}

/// The highlighted stretches of the first `k` lexemes, in order.
pub open spec fn semantic_tokens_of(ls: Seq<Lexeme>, k: int) -> Seq<ImCompleteSemanticToken>
    decreases k,
{
    if k <= 0 || k > ls.len() {
        seq![]
    } else {
        let l = ls[k - 1];
        match highlight_of(l.kind) {
            Some(kind) => semantic_tokens_of(ls, k - 1).push(
                ImCompleteSemanticToken {
                    start: l.span.start,
                    length: l.span.length() as usize,
                    token_type: legend_index(kind) as usize,
                },
            ),
            None => semantic_tokens_of(ls, k - 1),
        }
    }
}

fn highlight(k: QbeToken) -> (r: Option<SemanticKind>)
    ensures
        r == highlight_of(k),
{
    match k {
        QbeToken::Global => Some(SemanticKind::Property),
        QbeToken::TypeName | QbeToken::L | QbeToken::W | QbeToken::B => Some(SemanticKind::Type),
        QbeToken::String => Some(SemanticKind::String),
        QbeToken::Int => Some(SemanticKind::Number),
        QbeToken::Comment => Some(SemanticKind::Comment),
        QbeToken::Label => Some(SemanticKind::Decorator),
        QbeToken::Newline | QbeToken::Ws | QbeToken::Temp => None,
        QbeToken::Comma | QbeToken::Eq | QbeToken::Eql | QbeToken::Eqw | QbeToken::Eqb
        | QbeToken::LBrace | QbeToken::RBrace | QbeToken::LParen | QbeToken::RParen => None,
        _ => Some(SemanticKind::Keyword),
    }
}

/// The index of `kind` in `legend`, which holds it.
fn position(legend: &Vec<SemanticKind>, kind: SemanticKind) -> (r: usize)
    requires
        legend@ == legend_spec(),
    ensures
        r == legend_index(kind),
{
    let n = legend.len();
    let mut i: usize = 0;
    while i < n
        invariant
            legend@ == legend_spec(),
            n == 11,
            i <= n,
            forall|j: int| 0 <= j < i ==> legend@[j] != kind,
        decreases n - i,
    {
        if legend[i] == kind {
            assert(legend_spec()[legend_index(kind) as int] == kind);
            assert(i == legend_index(kind)) by {
                if i < legend_index(kind) {
                } else if i > legend_index(kind) {
                    assert(legend@[legend_index(kind) as int] == kind);
                }
            }
            return i;
        }
        i = i + 1;
    }
    assert(legend@[legend_index(kind) as int] == kind);
    0
}

/// The highlighted stretches of a program, in the order of its lexemes (see
/// `semantic_tokens_of`).
pub fn semantic_token_from_ast(ast: &QbeAst) -> (r: Vec<ImCompleteSemanticToken>)
    ensures
        r@ == semantic_tokens_of(ast.0.tokens_spec(), ast.0.tokens_spec().len() as int),
{
    let mut semantic_tokens: Vec<ImCompleteSemanticToken> = Vec::new();
    let legend = legend();
    let tokens = ast.0.all_tokens();
    let n = tokens.len();
    let mut i: usize = 0;
    while i < n
        invariant
            n == tokens@.len(),
            legend@ == legend_spec(),
            i <= n,
            semantic_tokens@ == semantic_tokens_of(tokens@, i as int),
        decreases n - i,
    {
        let it = &tokens[i];
        if let Some(kind) = highlight(it.kind) {
            semantic_tokens.push(
                ImCompleteSemanticToken {
                    start: it.span.start,
                    length: it.span.len(),
                    token_type: position(&legend, kind),
                },
            );
        }
        i = i + 1;
    }
    semantic_tokens
}

/// Every highlighted stretch indexes the legend, and there are no more stretches than lexemes.
pub proof fn lemma_semantic_tokens_in_legend(ls: Seq<Lexeme>, k: int)
    ensures
        forall|j: int|
            0 <= j < semantic_tokens_of(ls, k).len() ==> (#[trigger] semantic_tokens_of(ls, k)[j]).token_type
                < legend_spec().len(),
        semantic_tokens_of(ls, k).len() <= if k < 0 { 0 } else { k },
    decreases k,
{
    if k <= 0 || k > ls.len() {
    } else {
        lemma_semantic_tokens_in_legend(ls, k - 1);
    }
}

/// A lexeme is highlighted as a type exactly when, standing alone in a type group, it names
/// a type that the checks know: the base types `l`, `w`, `b` and the aggregate type names.
pub proof fn lemma_type_lexemes_highlighted_as_types(g: Group, l: Lexeme)
    requires
        g.children@ == seq![Node::Lexeme(l)],
    ensures
        (highlight_of(l.kind) == Some(SemanticKind::Type)) <==> !(type_of_group(g) is Unknown),
{
    let cs = g.children@;
    assert(cs.drop_first() =~= Seq::<Node>::empty());
    assert(forall|k: QbeToken| #[trigger] first_lexeme_of(cs, k) == if l.kind == k {
        Some(l)
    } else {
        first_lexeme_of(cs.drop_first(), k)
    });
    assert(forall|k: QbeToken| #[trigger] first_lexeme_of(cs.drop_first(), k) is None);
}

} // verus!
