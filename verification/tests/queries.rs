use qbe_lsp::ast::decl::function::FunctionAst;
use qbe_lsp::ast::decl::{DeclAst, ParseDeclError};
use qbe_lsp::ast::expr::ExprAst;
use qbe_lsp::ast::instr::add::AddInstrAst;
use qbe_lsp::ast::instr::call::default_functions;
use qbe_lsp::ast::instr::{get_function_type, FunctionType};
use qbe_lsp::ast::{CheckState, Definition, LspItem, LspNode, QbeAst};
use qbe_lsp::semantic_analyze::Type;
use qbe_lsp::semantic_token::{legend, semantic_token_from_ast, ImCompleteSemanticToken, SemanticKind};
use qbe_lsp::span::Span;
use qbe_lsp::syntax::{Group, Lexeme, Node, ParseError, QbeSyntax, QbeToken};

fn lex(kind: QbeToken, text: &str, start: usize) -> Lexeme {
    Lexeme { span: Span { start, end: start + text.len() }, kind, text: text.to_string() }
}

fn tok(kind: QbeToken, text: &str, start: usize) -> Node {
    Node::Lexeme(lex(kind, text, start))
}

fn g(kind: QbeSyntax, children: Vec<Node>) -> Node {
    Node::Group(Group { kind, children })
}

fn group(n: Node) -> Group {
    match n {
        Node::Group(g) => g,
        _ => panic!("not a group"),
    }
}

/// `function $f(w %a, w %b) { @start %c =w add %a, %b  jmp @start }`, laid out as
/// function 0..8, $f 9..11, w 12..13, %a 14..16, w 17..18, %b 19..21, @start 22..28,
/// %c 29..31, =w 32..34, add 35..38, %a 39..41, %b 42..44, jmp 45..48, @start 49..55.
fn sample() -> Group {
    let a = g(QbeSyntax::FuncArg, vec![g(QbeSyntax::Ty, vec![tok(QbeToken::W, "w", 12)]), tok(QbeToken::Temp, "%a", 14)]);
    let b = g(QbeSyntax::FuncArg, vec![g(QbeSyntax::Ty, vec![tok(QbeToken::W, "w", 17)]), tok(QbeToken::Temp, "%b", 19)]);
    let add = g(
        QbeSyntax::Instr,
        vec![
            tok(QbeToken::Add, "add", 35),
            g(QbeSyntax::Expr, vec![tok(QbeToken::Temp, "%a", 39)]),
            g(QbeSyntax::Expr, vec![tok(QbeToken::Temp, "%b", 42)]),
        ],
    );
    let assign = g(QbeSyntax::Assignment, vec![tok(QbeToken::Temp, "%c", 29), tok(QbeToken::Eqw, "=w", 32), add]);
    let jmp = g(QbeSyntax::Instr, vec![tok(QbeToken::Jmp, "jmp", 45), g(QbeSyntax::Expr, vec![tok(QbeToken::Label, "@start", 49)])]);
    let block = g(QbeSyntax::Block, vec![tok(QbeToken::Label, "@start", 22), assign, jmp]);
    let f = g(
        QbeSyntax::FunctionDef,
        vec![
            tok(QbeToken::Other(1), "function", 0),
            tok(QbeToken::Global, "$f", 9),
            g(QbeSyntax::FuncArgs, vec![a, b]),
            g(QbeSyntax::FuncBody, vec![block]),
        ],
    );
    group(g(QbeSyntax::Root, vec![f]))
}

fn function_of(root: &Group) -> &Group {
    match &root.children[0] {
        Node::Group(f) => f,
        _ => panic!("no function"),
    }
}

fn name_at(root: &Group, offset: usize) -> String {
    QbeAst(root).at(offset).unwrap().to_string()
}

#[test]
fn at_finds_the_innermost_node() {
    let root = sample();
    assert_eq!(name_at(&root, 40), "Expr");
    assert_eq!(name_at(&root, 30), "Expr");
    assert_eq!(name_at(&root, 36), "Instr");
    assert_eq!(name_at(&root, 33), "Assign");
    assert_eq!(name_at(&root, 23), "Label");
    assert_eq!(name_at(&root, 12), "Type");
    assert_eq!(name_at(&root, 15), "FunctionParam");
    assert_eq!(name_at(&root, 46), "Instr");
    assert_eq!(name_at(&root, 50), "Expr");
    assert_eq!(name_at(&root, 5), "Function");
    assert_eq!(name_at(&root, 100), "Root");
}

#[test]
fn hover_names_the_node_kind() {
    let root = sample();
    let state = CheckState::new();
    let node = QbeAst(&root).at(23).unwrap();
    assert_eq!(node.hover(&state), Some("Label".to_string()));
    let node = QbeAst(&root).at(100).unwrap();
    assert_eq!(node.hover(&state), Some("Root".to_string()));
}

#[test]
fn definition_and_references_of_a_label() {
    let root = sample();
    let mut state = CheckState::new();
    FunctionAst(function_of(&root)).check(&mut state);
    assert!(state.errors.is_empty());
    let label = QbeAst(&root).at(23).unwrap();
    assert_eq!(label.definition(&state), Some(Span { start: 22, end: 28 }));
    assert_eq!(label.references(&state), vec![Span { start: 49, end: 55 }]);
    let jump_target = QbeAst(&root).at(50).unwrap();
    assert_eq!(jump_target.definition(&state), Some(Span { start: 22, end: 28 }));
    assert_eq!(jump_target.references(&state), vec![Span { start: 49, end: 55 }]);
}

#[test]
fn definition_of_temporaries() {
    let root = sample();
    let mut state = CheckState::new();
    FunctionAst(function_of(&root)).check(&mut state);
    let use_of_a = QbeAst(&root).at(40).unwrap();
    assert_eq!(use_of_a.definition(&state), Some(Span { start: 14, end: 16 }));
    assert_eq!(use_of_a.references(&state), Vec::<Span>::new());
    let c = QbeAst(&root).at(30).unwrap();
    assert_eq!(c.definition(&state), Some(Span { start: 29, end: 44 }));
    let instr = QbeAst(&root).at(36).unwrap();
    assert_eq!(instr.definition(&state), None);
    assert_eq!(instr.references(&state), Vec::<Span>::new());
}

#[test]
fn definitions_are_forgotten_after_a_full_check() {
    let root = sample();
    let mut state = CheckState::new();
    QbeAst(&root).check(&mut state);
    assert!(state.errors.is_empty());
    assert_eq!(QbeAst(&root).at(40).unwrap().definition(&state), None);
    assert_eq!(QbeAst(&root).at(23).unwrap().references(&state), Vec::<Span>::new());
}

#[test]
fn decls_skip_what_is_not_a_declaration() {
    let root = group(g(
        QbeSyntax::Root,
        vec![
            g(QbeSyntax::DataDef, vec![tok(QbeToken::Global, "$d", 0)]),
            g(QbeSyntax::Unmatched, vec![tok(QbeToken::Other(9), "?", 3)]),
            g(QbeSyntax::TypeDef, vec![tok(QbeToken::TypeName, ":t", 5)]),
            g(QbeSyntax::FunctionDef, vec![]),
        ],
    ));
    let decls = QbeAst(&root).decls();
    assert_eq!(decls.len(), 2);
    assert!(matches!(decls[0], DeclAst::Data(_)));
    assert!(matches!(decls[1], DeclAst::Type(_)));
}

#[test]
fn decl_try_from_errors() {
    let unnamed_function = group(g(QbeSyntax::FunctionDef, vec![tok(QbeToken::Other(1), "function", 0)]));
    assert!(matches!(DeclAst::try_from(&unnamed_function), Err(ParseDeclError::MissingName)));
    let unnamed_data = group(g(QbeSyntax::DataDef, vec![]));
    assert!(matches!(DeclAst::try_from(&unnamed_data), Err(ParseDeclError::MissingName)));
    let unmatched = group(g(QbeSyntax::Unmatched, vec![]));
    assert!(matches!(DeclAst::try_from(&unmatched), Err(ParseDeclError::Unmatched)));
    let block = group(g(QbeSyntax::Block, vec![]));
    assert!(matches!(DeclAst::try_from(&block), Err(ParseDeclError::Unexpected(QbeSyntax::Block))));
    let named = group(g(QbeSyntax::FunctionDef, vec![tok(QbeToken::Global, "$f", 0)]));
    assert!(matches!(DeclAst::try_from(&named), Ok(DeclAst::Function(_))));
}

#[test]
fn expr_try_from_reads_operand_kinds() {
    let e = group(g(QbeSyntax::Expr, vec![tok(QbeToken::Int, "42", 3)]));
    let a = ExprAst::try_from(&e).unwrap();
    assert!(matches!(a, ExprAst::Immediate(_)));
    assert_eq!(a.span(), Span { start: 3, end: 5 });
    assert_eq!(a.lexeme().text, "42");
    let t = group(g(QbeSyntax::Expr, vec![tok(QbeToken::Global, "$g", 0)]));
    assert!(matches!(ExprAst::try_from(&t), Ok(ExprAst::Global(_))));
    let other = group(g(QbeSyntax::Expr, vec![tok(QbeToken::Comma, ",", 0)]));
    assert!(ExprAst::try_from(&other).is_err());
    let not_expr = group(g(QbeSyntax::Ty, vec![tok(QbeToken::W, "w", 0)]));
    assert!(ExprAst::try_from(&not_expr).is_err());
}

#[test]
fn operand_types() {
    let mut state = CheckState::new();
    let i = group(g(QbeSyntax::Expr, vec![tok(QbeToken::Int, "1", 0)]));
    assert!(matches!(ExprAst::try_from(&i).unwrap().get_type(&mut state), Type::AnyInt));
    let gl = group(g(QbeSyntax::Expr, vec![tok(QbeToken::Global, "$g", 0)]));
    assert!(matches!(ExprAst::try_from(&gl).unwrap().get_type(&mut state), Type::Long));
    let l = group(g(QbeSyntax::Expr, vec![tok(QbeToken::Label, "@l", 4)]));
    assert!(matches!(ExprAst::try_from(&l).unwrap().get_type(&mut state), Type::Label));
    assert_eq!(state.label_refs.len(), 1);
    let t = group(g(QbeSyntax::Expr, vec![tok(QbeToken::Temp, "%x", 7)]));
    assert!(matches!(ExprAst::try_from(&t).unwrap().get_type(&mut state), Type::Unknown));
    assert_eq!(state.errors.len(), 1);
    assert_eq!(state.errors[0].message, "Temp not defined '%x'");
    assert_eq!(state.errors[0].span, Span { start: 7, end: 9 });
}

#[test]
fn map_fixes_the_type_parameter() {
    let add = get_function_type(QbeToken::Add).unwrap();
    assert!(add.parameterized());
    let word = add.map(&Type::Word);
    assert!(matches!(word.return_ty, Type::Word));
    assert_eq!(word.args.len(), 2);
    assert!(word.args.iter().all(|t| matches!(t, Type::Word)));
    assert!(!word.parameterized());
}

#[test]
fn map_replaces_every_argument_of_a_generic_instruction() {
    let ceql = get_function_type(QbeToken::Ceql).unwrap();
    let mapped = ceql.map(&Type::Word);
    assert!(matches!(mapped.return_ty, Type::Word));
    assert!(mapped.args.iter().all(|t| matches!(t, Type::Word)));
}

#[test]
fn map_keeps_a_fixed_signature() {
    let storew = get_function_type(QbeToken::Storew).unwrap();
    assert!(!storew.parameterized());
    let mapped = storew.map(&Type::Long);
    assert!(matches!(mapped.return_ty, Type::Unit));
    assert!(matches!(mapped.args[0], Type::Word));
    assert!(matches!(mapped.args[1], Type::Long));
}

#[test]
fn parameterized_sees_a_parameter_argument() {
    let f = FunctionType { return_ty: Type::Unit, args: vec![Type::Long, Type::T] };
    assert!(f.parameterized());
    let g = FunctionType { return_ty: Type::Unit, args: vec![] };
    assert!(!g.parameterized());
}

#[test]
fn instruction_signatures() {
    let jnz = get_function_type(QbeToken::Jnz).unwrap();
    assert!(matches!(jnz.return_ty, Type::Unit));
    assert_eq!(jnz.args.len(), 3);
    assert!(matches!(jnz.args[0], Type::T));
    assert!(matches!(jnz.args[2], Type::Label));
    let loadw = get_function_type(QbeToken::Loadw).unwrap();
    assert!(matches!(loadw.return_ty, Type::Word));
    assert!(get_function_type(QbeToken::Ret).is_none());
    assert!(get_function_type(QbeToken::Call).is_none());
    assert!(get_function_type(QbeToken::Other(5)).is_none());
}

#[test]
fn default_functions_know_the_c_library() {
    let table = default_functions();
    assert_eq!(table.len(), 3);
    let (memcpy, span) = table.get(&"$memcpy".to_string()).unwrap().clone();
    assert!(span.is_none());
    assert!(matches!(memcpy.return_ty, Type::Long));
    assert_eq!(memcpy.args.len(), 3);
    let (malloc, _) = table.get(&"$malloc".to_string()).unwrap().clone();
    assert!(matches!(malloc.return_ty, Type::Unit));
    assert_eq!(malloc.args.len(), 1);
    assert!(table.get(&"$printf".to_string()).is_none());
}

#[test]
fn type_names() {
    assert_eq!(Type::Unit.name(), "none");
    assert_eq!(Type::T.name(), "T");
    assert_eq!(Type::Long.name(), "l");
    assert_eq!(Type::Word.name(), "w");
    assert_eq!(Type::Byte.name(), "b");
    assert_eq!(Type::AnyInt.name(), "integer");
    assert_eq!(Type::Unknown.name(), "unknown");
    assert_eq!(Type::Label.name(), "label");
    assert_eq!(Type::Custom(":pair".to_string()).name(), ":pair");
}

#[test]
fn subtyping() {
    assert!(Type::AnyInt.is_sub_type_of(&Type::Word));
    assert!(Type::AnyInt.is_sub_type_of(&Type::Byte));
    assert!(!Type::Word.is_sub_type_of(&Type::AnyInt));
    assert!(!Type::Long.is_sub_type_of(&Type::Word));
    assert!(Type::Unknown.is_sub_type_of(&Type::Label));
    assert!(Type::Label.is_sub_type_of(&Type::Unknown));
    assert!(Type::Word.is_sub_type_of(&Type::Word));
    assert!(Type::Custom(":a".to_string()).is_sub_type_of(&Type::Custom(":a".to_string())));
    assert!(!Type::Custom(":a".to_string()).is_sub_type_of(&Type::Custom(":b".to_string())));
    assert!(!Type::Custom(":a".to_string()).is_sub_type_of(&Type::Long));
    assert!(Type::T.is_param());
    assert!(!Type::Word.is_param());
}

#[test]
fn span_contains_and_len() {
    let s = Span::new(2, 5);
    assert!(s.contains(2));
    assert!(s.contains(4));
    assert!(!s.contains(5));
    assert!(!s.contains(1));
    assert_eq!(s.len(), 3);
    assert_eq!(Span::new(5, 2).len(), 0);
}

#[test]
fn definition_new_has_no_references() {
    let d = Definition::new(Span::new(1, 4));
    assert_eq!(d.definition, Span { start: 1, end: 4 });
    assert!(d.references.is_empty());
}

#[test]
fn group_span_and_lookup() {
    let root = sample();
    let f = function_of(&root);
    assert_eq!(f.span(), Span { start: 0, end: 55 });
    assert_eq!(f.token_by_kind(QbeToken::Global).unwrap().text, "$f");
    assert!(f.token_by_kind(QbeToken::Label).is_none());
    assert_eq!(f.group_by_kind(QbeSyntax::FuncArgs).unwrap().groups().len(), 2);
    assert!(f.group_by_kind(QbeSyntax::Ty).is_none());
    assert_eq!(Group { kind: QbeSyntax::Root, children: vec![] }.span(), Span { start: 0, end: 0 });
}

#[test]
fn all_tokens_reads_error_nodes_backwards() {
    let root = group(g(
        QbeSyntax::Root,
        vec![
            tok(QbeToken::Other(1), "data", 0),
            Node::Error(ParseError::Unexpected {
                start: 5,
                actual: vec![lex(QbeToken::Int, "1", 5), lex(QbeToken::Int, "2", 7)],
            }),
            Node::Error(ParseError::MissingError { start: 9 }),
            Node::Skipped(lex(QbeToken::Comment, "# c", 10)),
            g(QbeSyntax::Expr, vec![tok(QbeToken::Temp, "%t", 14)]),
        ],
    ));
    let texts: Vec<String> = root.all_tokens().into_iter().map(|l| l.text).collect();
    assert_eq!(texts, vec!["data", "2", "1", "# c", "%t"]);
    assert_eq!(root.span(), Span { start: 0, end: 16 });
}

#[test]
fn semantic_tokens_highlight_lexemes() {
    let root = sample();
    let tokens = semantic_token_from_ast(&QbeAst(&root));
    let keyword = 5;
    let ty = 8;
    let decorator = 9;
    let property = 10;
    let expected = vec![
        ImCompleteSemanticToken { start: 0, length: 8, token_type: keyword },
        ImCompleteSemanticToken { start: 9, length: 2, token_type: property },
        ImCompleteSemanticToken { start: 12, length: 1, token_type: ty },
        ImCompleteSemanticToken { start: 17, length: 1, token_type: ty },
        ImCompleteSemanticToken { start: 22, length: 6, token_type: decorator },
        ImCompleteSemanticToken { start: 35, length: 3, token_type: keyword },
        ImCompleteSemanticToken { start: 45, length: 3, token_type: keyword },
        ImCompleteSemanticToken { start: 49, length: 6, token_type: decorator },
    ];
    assert_eq!(tokens, expected);
}

#[test]
fn semantic_tokens_of_literals_and_comments() {
    let root = group(g(
        QbeSyntax::Root,
        vec![
            tok(QbeToken::String, "\"hi\"", 0),
            tok(QbeToken::Int, "12", 5),
            tok(QbeToken::Comment, "# x", 8),
            tok(QbeToken::Ws, " ", 11),
            tok(QbeToken::Comma, ",", 12),
        ],
    ));
    let tokens = semantic_token_from_ast(&QbeAst(&root));
    assert_eq!(
        tokens,
        vec![
            ImCompleteSemanticToken { start: 0, length: 4, token_type: 2 },
            ImCompleteSemanticToken { start: 5, length: 2, token_type: 4 },
            ImCompleteSemanticToken { start: 8, length: 3, token_type: 3 },
        ]
    );
}

#[test]
fn legend_order() {
    let l = legend();
    assert_eq!(l.len(), 11);
    assert_eq!(l[0], SemanticKind::Function);
    assert_eq!(l[5], SemanticKind::Keyword);
    assert_eq!(l[10], SemanticKind::Property);
}

#[test]
fn add_instruction_without_operands_checks_nothing() {
    let instr = group(g(QbeSyntax::Instr, vec![]));
    let ast = AddInstrAst(&instr);
    assert!(ast.first().is_none());
    assert!(ast.second().is_none());
    let mut state = CheckState::new();
    ast.check(&Type::Word, &mut state);
    assert!(state.errors.is_empty());
}

#[test]
fn node_to_string_of_each_kind() {
    let root = sample();
    assert_eq!(LspNode::Root(QbeAst(&root)).to_string(), "Root");
}

#[test]
fn a_well_formed_program_can_be_checked_and_queried() {
    let root = sample();
    assert!(QbeAst(&root).can_check());
    assert!(QbeAst(&root).can_query());
}

#[test]
fn a_block_without_label_cannot_be_read() {
    let f = g(
        QbeSyntax::FunctionDef,
        vec![tok(QbeToken::Global, "$f", 0), g(QbeSyntax::FuncBody, vec![g(QbeSyntax::Block, vec![])])],
    );
    let root = group(g(QbeSyntax::Root, vec![f]));
    assert!(!QbeAst(&root).can_check());
    assert!(!QbeAst(&root).can_query());
}

#[test]
fn an_instruction_without_opcode_can_be_queried_but_not_checked() {
    let block = g(
        QbeSyntax::Block,
        vec![tok(QbeToken::Label, "@l", 3), g(QbeSyntax::Instr, vec![tok(QbeToken::Ws, " ", 6)])],
    );
    let f = g(QbeSyntax::FunctionDef, vec![tok(QbeToken::Global, "$f", 0), g(QbeSyntax::FuncBody, vec![block])]);
    let root = group(g(QbeSyntax::Root, vec![f]));
    assert!(!QbeAst(&root).can_check());
    assert!(QbeAst(&root).can_query());
}

#[test]
fn an_empty_operand_group_cannot_be_read() {
    let instr = g(QbeSyntax::Instr, vec![tok(QbeToken::Jmp, "jmp", 6), g(QbeSyntax::Expr, vec![])]);
    let block = g(QbeSyntax::Block, vec![tok(QbeToken::Label, "@l", 3), instr]);
    let f = g(QbeSyntax::FunctionDef, vec![tok(QbeToken::Global, "$f", 0), g(QbeSyntax::FuncBody, vec![block])]);
    let root = group(g(QbeSyntax::Root, vec![f]));
    assert!(!QbeAst(&root).can_check());
    assert!(!QbeAst(&root).can_query());
}

#[test]
fn an_empty_error_node_cannot_be_read() {
    let f = g(
        QbeSyntax::FunctionDef,
        vec![tok(QbeToken::Global, "$f", 0), Node::Error(ParseError::Unexpected { start: 3, actual: vec![] })],
    );
    let root = group(g(QbeSyntax::Root, vec![f]));
    assert!(!root.children[0].is_wf());
    assert!(!QbeAst(&root).can_check());
    let data = g(QbeSyntax::DataDef, vec![tok(QbeToken::Global, "$d", 0), Node::Error(ParseError::MissingError { start: 3 })]);
    let root = group(g(QbeSyntax::Root, vec![data]));
    assert!(root.is_wf());
    assert!(QbeAst(&root).can_check());
}

#[test]
fn a_call_argument_without_type_cannot_be_checked() {
    let call = g(
        QbeSyntax::Instr,
        vec![
            tok(QbeToken::Call, "call", 6),
            tok(QbeToken::Global, "$g", 11),
            g(QbeSyntax::CallArgs, vec![g(QbeSyntax::CallArg, vec![g(QbeSyntax::Expr, vec![tok(QbeToken::Int, "1", 14)])])]),
        ],
    );
    let block = g(QbeSyntax::Block, vec![tok(QbeToken::Label, "@l", 3), call]);
    let f = g(QbeSyntax::FunctionDef, vec![tok(QbeToken::Global, "$f", 0), g(QbeSyntax::FuncBody, vec![block])]);
    let root = group(g(QbeSyntax::Root, vec![f]));
    assert!(!QbeAst(&root).can_check());
    assert!(QbeAst(&root).can_query());
}
