use qbe_lsp::ast::decl::function::FunctionAst;
use qbe_lsp::ast::decl::data::DataAst;
use qbe_lsp::ast::decl::block::BlockAst;
use qbe_lsp::ast::{CheckState, QbeAst, Severity};
use qbe_lsp::syntax::{Group, Lexeme, Node, QbeSyntax, QbeToken};
use qbe_lsp::span::Span;
use qbe_lsp::ast::instr::InstrAst;
use qbe_lsp::semantic_analyze::Type;

struct B {
    pos: usize,
}

impl B {
    fn new() -> B {
        B { pos: 0 }
    }
    fn tok(&mut self, kind: QbeToken, text: &str) -> Node {
        let start = self.pos;
        self.pos += text.len() + 1;
        Node::Lexeme(Lexeme { span: Span { start, end: start + text.len() }, kind, text: text.to_string() })
    }
}

fn g(kind: QbeSyntax, children: Vec<Node>) -> Node {
    Node::Group(Group { kind, children })
}

fn group(n: Node) -> Group {
    match n {
        Node::Group(g) => g,
        _ => panic!("not a group"),
    }
}

fn ty(b: &mut B, kind: QbeToken, text: &str) -> Node {
    g(QbeSyntax::Ty, vec![b.tok(kind, text)])
}

fn expr(b: &mut B, kind: QbeToken, text: &str) -> Node {
    g(QbeSyntax::Expr, vec![b.tok(kind, text)])
}

fn param(b: &mut B, name: &str) -> Node {
    let t = ty(b, QbeToken::W, "w");
    g(QbeSyntax::FuncArg, vec![t, b.tok(QbeToken::Temp, name)])
}

/// `function [w] $name(w %a, w %b) { @start <stmts> }`
fn function(b: &mut B, ret: bool, name: &str, stmts: Vec<Node>) -> Node {
    let mut children = vec![b.tok(QbeToken::Other(100), "function")];
    if ret {
        children.push(ty(b, QbeToken::W, "w"));
    }
    children.push(b.tok(QbeToken::Global, name));
    let a = param(b, "%a");
    let c = param(b, "%b");
    children.push(g(QbeSyntax::FuncArgs, vec![a, c]));
    let mut block = vec![b.tok(QbeToken::Label, "@start")];
    block.extend(stmts);
    children.push(g(QbeSyntax::FuncBody, vec![g(QbeSyntax::Block, block)]));
    g(QbeSyntax::FunctionDef, children)
}

fn assign(b: &mut B, name: &str, op: QbeToken, op_text: &str, args: Vec<(QbeToken, &str)>) -> Node {
    let t = b.tok(QbeToken::Temp, name);
    let eq = b.tok(QbeToken::Eqw, "=w");
    let mut instr = vec![b.tok(op, op_text)];
    for (k, text) in args {
        instr.push(expr(b, k, text));
    }
    g(QbeSyntax::Assignment, vec![t, eq, g(QbeSyntax::Instr, instr)])
}

fn instr(b: &mut B, op: QbeToken, op_text: &str, args: Vec<(QbeToken, &str)>) -> Node {
    let mut instr = vec![b.tok(op, op_text)];
    for (k, text) in args {
        instr.push(expr(b, k, text));
    }
    g(QbeSyntax::Instr, instr)
}

fn run(root: &Group) -> Vec<(String, Severity)> {
    let mut state = CheckState::new();
    QbeAst(root).check(&mut state);
    state.errors.iter().map(|e| (e.message.clone(), e.severity)).collect()
}

fn messages(root: &Group) -> Vec<String> {
    run(root).into_iter().map(|(m, _)| m).collect()
}

#[test]
fn valid_function_has_no_diagnostics() {
    let mut b = B::new();
    let s1 = assign(&mut b, "%c", QbeToken::Add, "add", vec![(QbeToken::Temp, "%a"), (QbeToken::Temp, "%b")]);
    let s2 = instr(&mut b, QbeToken::Ret, "ret", vec![(QbeToken::Temp, "%c")]);
    let f = function(&mut b, true, "$add", vec![s1, s2]);
    let root = group(g(QbeSyntax::Root, vec![f]));
    assert_eq!(run(&root), vec![]);
}

#[test]
fn function_is_recorded_with_its_signature() {
    let mut b = B::new();
    let s2 = instr(&mut b, QbeToken::Ret, "ret", vec![(QbeToken::Temp, "%a")]);
    let f = group(function(&mut b, true, "$id", vec![s2]));
    let mut state = CheckState::new();
    FunctionAst(&f).check(&mut state);
    let (sig, span) = state.function_defs.get(&"$id".to_string()).unwrap().clone();
    assert!(span.is_some());
    assert_eq!(sig.args.len(), 2);
    assert!(matches!(sig.return_ty, qbe_lsp::semantic_analyze::Type::Word));
    assert!(state.temps.get(&"%a".to_string()).is_some());
}

#[test]
fn undefined_temporary_is_reported() {
    let mut b = B::new();
    let s1 = assign(&mut b, "%c", QbeToken::Add, "add", vec![(QbeToken::Temp, "%a"), (QbeToken::Temp, "%x")]);
    let f = function(&mut b, false, "$f", vec![s1]);
    let root = group(g(QbeSyntax::Root, vec![f]));
    assert_eq!(messages(&root), vec!["Temp not defined '%x'".to_string()]);
}

#[test]
fn operand_type_mismatch_is_reported() {
    let mut b = B::new();
    let s1 = assign(&mut b, "%c", QbeToken::Add, "add", vec![(QbeToken::Temp, "%a"), (QbeToken::Global, "$g")]);
    let f = function(&mut b, false, "$f", vec![s1]);
    let root = group(g(QbeSyntax::Root, vec![f]));
    assert_eq!(messages(&root), vec!["Expected w but found l".to_string()]);
}

#[test]
fn integer_literal_fits_any_integer() {
    let mut b = B::new();
    let s1 = assign(&mut b, "%c", QbeToken::Add, "add", vec![(QbeToken::Temp, "%a"), (QbeToken::Int, "1")]);
    let f = function(&mut b, false, "$f", vec![s1]);
    let root = group(g(QbeSyntax::Root, vec![f]));
    assert_eq!(messages(&root), Vec::<String>::new());
}

#[test]
fn missing_operand_is_reported() {
    let mut b = B::new();
    let s1 = assign(&mut b, "%c", QbeToken::Add, "add", vec![(QbeToken::Temp, "%a")]);
    let f = function(&mut b, false, "$f", vec![s1]);
    let root = group(g(QbeSyntax::Root, vec![f]));
    assert_eq!(messages(&root), vec!["Expected 2 args but 1 were found".to_string()]);
}

#[test]
fn surplus_operand_is_reported() {
    let mut b = B::new();
    let s1 = assign(&mut b, "%c", QbeToken::Copy, "copy", vec![(QbeToken::Temp, "%a"), (QbeToken::Temp, "%b")]);
    let f = function(&mut b, false, "$f", vec![s1]);
    let root = group(g(QbeSyntax::Root, vec![f]));
    assert_eq!(messages(&root), vec!["This argument is unexpected".to_string()]);
}

#[test]
fn return_value_from_function_without_return_type_is_reported() {
    let mut b = B::new();
    let s = instr(&mut b, QbeToken::Ret, "ret", vec![(QbeToken::Temp, "%a")]);
    let f = function(&mut b, false, "$f", vec![s]);
    let root = group(g(QbeSyntax::Root, vec![f]));
    assert_eq!(messages(&root), vec!["Expected none but found w".to_string()]);
}

#[test]
fn return_outside_any_function_is_reported() {
    let mut b = B::new();
    let s = group(instr(&mut b, QbeToken::Ret, "ret", vec![(QbeToken::Int, "1")]));
    let mut state = CheckState::new();
    InstrAst(&s).check(&Type::Unit, &mut state);
    assert_eq!(state.errors.len(), 1);
    assert_eq!(state.errors[0].message, "This function doesn't return anything");
    assert_eq!(state.errors[0].span, Span { start: 0, end: 3 });
}

#[test]
fn return_without_value_is_reported() {
    let mut b = B::new();
    let s = instr(&mut b, QbeToken::Ret, "ret", vec![]);
    let f = function(&mut b, true, "$f", vec![s]);
    let root = group(g(QbeSyntax::Root, vec![f]));
    assert_eq!(messages(&root), vec!["Expected 1 argument".to_string()]);
}

#[test]
fn return_with_two_values_is_reported() {
    let mut b = B::new();
    let s = instr(&mut b, QbeToken::Ret, "ret", vec![(QbeToken::Temp, "%a"), (QbeToken::Temp, "%b")]);
    let f = function(&mut b, true, "$f", vec![s]);
    let root = group(g(QbeSyntax::Root, vec![f]));
    assert_eq!(messages(&root), vec!["This argument is unexpected".to_string()]);
}

#[test]
fn unknown_instruction_gets_a_warning() {
    let mut b = B::new();
    let s = instr(&mut b, QbeToken::Other(7), "div", vec![(QbeToken::Temp, "%a")]);
    let f = function(&mut b, false, "$f", vec![s]);
    let root = group(g(QbeSyntax::Root, vec![f]));
    assert_eq!(run(&root), vec![("Instrution not implemented".to_string(), Severity::Warning)]);
}

#[test]
fn undefined_label_is_reported_at_function_end() {
    let mut b = B::new();
    let s = instr(&mut b, QbeToken::Jmp, "jmp", vec![(QbeToken::Label, "@nowhere")]);
    let f = function(&mut b, false, "$f", vec![s]);
    let root = group(g(QbeSyntax::Root, vec![f]));
    assert_eq!(messages(&root), vec!["Label not defined '@nowhere'".to_string()]);
}

#[test]
fn jump_to_own_label_is_fine() {
    let mut b = B::new();
    let s = instr(&mut b, QbeToken::Jmp, "jmp", vec![(QbeToken::Label, "@start")]);
    let f = function(&mut b, false, "$f", vec![s]);
    let root = group(g(QbeSyntax::Root, vec![f]));
    assert_eq!(messages(&root), Vec::<String>::new());
}

#[test]
fn duplicate_label_is_reported() {
    let mut b = B::new();
    let l1 = b.tok(QbeToken::Label, "@l");
    let block1 = group(g(QbeSyntax::Block, vec![l1]));
    let l2 = b.tok(QbeToken::Label, "@l");
    let block2 = group(g(QbeSyntax::Block, vec![l2]));
    let mut state = CheckState::new();
    BlockAst(&block1).check(&mut state);
    BlockAst(&block2).check(&mut state);
    assert_eq!(state.errors.len(), 1);
    assert_eq!(state.errors[0].message, "Duplicate label name");
    assert_eq!(state.errors[0].span, Span { start: 3, end: 5 });
}

#[test]
fn duplicate_data_definition_is_reported() {
    let mut b = B::new();
    let d1 = g(QbeSyntax::DataDef, vec![b.tok(QbeToken::Other(1), "data"), b.tok(QbeToken::Global, "$x")]);
    let d2 = g(QbeSyntax::DataDef, vec![b.tok(QbeToken::Other(1), "data"), b.tok(QbeToken::Global, "$x")]);
    let root = group(g(QbeSyntax::Root, vec![d1, d2]));
    assert_eq!(messages(&root), vec!["Duplicate definition of $x".to_string()]);
}

#[test]
fn data_then_function_of_same_name_is_reported() {
    let mut b = B::new();
    let d1 = group(g(QbeSyntax::DataDef, vec![b.tok(QbeToken::Global, "$f")]));
    let f = group(function(&mut b, false, "$f", vec![]));
    let mut state = CheckState::new();
    DataAst(&d1).check(&mut state);
    FunctionAst(&f).check(&mut state);
    assert_eq!(state.errors.len(), 1);
    assert_eq!(state.errors[0].message, "Duplicate definition of $f");
    assert!(state.function_defs.get(&"$f".to_string()).is_none());
    assert!(state.data_defs.contains_key(&"$f".to_string()));
}

#[test]
fn data_without_name_changes_nothing() {
    let d = group(g(QbeSyntax::DataDef, vec![]));
    let mut state = CheckState::new();
    DataAst(&d).check(&mut state);
    assert!(state.errors.is_empty());
    assert!(state.data_defs.is_empty());
}

fn call(b: &mut B, name: &str, args: Vec<(QbeToken, &str, QbeToken, &str)>) -> Node {
    let mut children = vec![b.tok(QbeToken::Call, "call"), b.tok(QbeToken::Global, name)];
    let mut list = vec![];
    for (tk, tt, ek, et) in args {
        let t = ty(b, tk, tt);
        let e = expr(b, ek, et);
        list.push(g(QbeSyntax::CallArg, vec![t, e]));
    }
    children.push(g(QbeSyntax::CallArgs, list));
    g(QbeSyntax::Instr, children)
}

#[test]
fn call_to_unknown_function_is_reported() {
    let mut b = B::new();
    let c = call(&mut b, "$nope", vec![]);
    let f = function(&mut b, false, "$f", vec![c]);
    let root = group(g(QbeSyntax::Root, vec![f]));
    assert_eq!(messages(&root), vec!["Function not found".to_string()]);
}

#[test]
fn call_checked_against_later_function() {
    let mut b = B::new();
    let c = call(&mut b, "$g", vec![(QbeToken::L, "l", QbeToken::Global, "$x")]);
    let f = function(&mut b, false, "$f", vec![c]);
    let callee = function(&mut b, false, "$g", vec![]);
    let root = group(g(QbeSyntax::Root, vec![f, callee]));
    assert_eq!(
        messages(&root),
        vec!["Expected w but found l".to_string(), "Expected 2 args but 1 were found".to_string()]
    );
}

#[test]
fn call_argument_operand_checked_against_its_type() {
    let mut b = B::new();
    let c = call(&mut b, "$g", vec![(QbeToken::W, "w", QbeToken::Global, "$x"), (QbeToken::W, "w", QbeToken::Int, "3")]);
    let f = function(&mut b, false, "$f", vec![c]);
    let callee = function(&mut b, false, "$g", vec![]);
    let root = group(g(QbeSyntax::Root, vec![f, callee]));
    assert_eq!(messages(&root), vec!["Expected w but found l".to_string()]);
}

#[test]
fn checking_keeps_earlier_diagnostics() {
    let mut b = B::new();
    let d1 = g(QbeSyntax::DataDef, vec![b.tok(QbeToken::Global, "$x")]);
    let root = group(g(QbeSyntax::Root, vec![d1]));
    let mut state = CheckState::new();
    state.error("earlier".to_string(), Span { start: 0, end: 1 });
    QbeAst(&root).check(&mut state);
    QbeAst(&root).check(&mut state);
    let ms: Vec<String> = state.errors.iter().map(|e| e.message.clone()).collect();
    assert_eq!(ms, vec!["earlier".to_string(), "Duplicate definition of $x".to_string()]);
    assert!(state.data_defs.contains_key(&"$x".to_string()));
}

#[test]
fn clear_locals_forgets_function_scope() {
    let mut b = B::new();
    let s = instr(&mut b, QbeToken::Jmp, "jmp", vec![(QbeToken::Label, "@start")]);
    let f = group(function(&mut b, true, "$f", vec![s]));
    let mut state = CheckState::new();
    FunctionAst(&f).check(&mut state);
    assert!(state.return_ty.is_some());
    assert_eq!(state.label_refs.len(), 1);
    state.clear_locals();
    assert!(state.temps.is_empty());
    assert!(state.labels.is_empty());
    assert!(state.label_refs.is_empty());
    assert!(state.return_ty.is_none());
    assert!(state.errors.is_empty());
}

#[test]
fn warn_and_error_severities() {
    let mut state = CheckState::default();
    state.warn("w".to_string(), Span { start: 1, end: 2 });
    state.error("e".to_string(), Span { start: 3, end: 4 });
    assert_eq!(state.errors[0].severity, Severity::Warning);
    assert_eq!(state.errors[1].severity, Severity::Error);
    assert_eq!(state.errors[1].span, Span { start: 3, end: 4 });
}

#[test]
fn second_function_of_same_name_is_reported_and_first_kept() {
    let mut b = B::new();
    let f1 = function(&mut b, true, "$f", vec![]);
    let f2 = function(&mut b, false, "$f", vec![]);
    let root = group(g(QbeSyntax::Root, vec![f1, f2]));
    let mut state = CheckState::new();
    QbeAst(&root).check(&mut state);
    let ms: Vec<String> = state.errors.iter().map(|e| e.message.clone()).collect();
    assert_eq!(ms, vec!["Duplicate definition of $f".to_string()]);
    let (sig, _) = state.function_defs.get(&"$f".to_string()).unwrap().clone();
    assert!(matches!(sig.return_ty, qbe_lsp::semantic_analyze::Type::Word));
}
