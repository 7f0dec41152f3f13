use vstd::prelude::*;

use im_rc::HashMap;

use crate::ast::decl::{decl_at, decl_check, decl_ok, decl_view_ok, is_decl, DeclAst};
use crate::ast::growth::{
    call_ref_ok, grows, lemma_call_check_grows, lemma_decl_check_grows, lemma_grows_refs_ok,
    lemma_grows_trans, refs_ok,
};
use crate::ast::common::ty::TypeAst;
use crate::ast::decl::arg::ArgAst;
use crate::ast::decl::block::BlockAst;
use crate::ast::decl::function::FunctionAst;
use crate::ast::expr::ExprAst;
use crate::ast::instr::call::{call_check, CallAst};
use crate::ast::instr::InstrAst;
use crate::ast::stmt::assign::AssignAst;
use crate::ast::tables::{label_get, temp_get};
use crate::ast::instr::{FunctionType, FunctionTypeView};
use crate::ast::tables::{
    data_entries, function_entries, label_clear, label_contains, label_entries, new_data_table,
    new_function_table, new_label_table, new_temp_table, temp_clear, temp_entries,
};
use crate::semantic_analyze::Type;
use crate::span::Span;
use crate::syntax::{Group, Lexeme, QbeSyntax, QbeToken};

pub mod common;
pub mod coverage;
pub mod decl;
pub mod expr;
pub mod growth;
pub mod instr;
pub mod readable;
pub mod stmt;
pub mod tables;

verus! {

/// How serious a diagnostic is.
#[derive(Clone, Copy, PartialEq, Eq, Structural, Debug)]
pub enum Severity {
    Error,
    Warning,
}

/// A diagnostic that the checks report.
#[derive(Clone, Debug)]
pub struct CheckError {
    pub message: String,
    pub span: Span,
    pub severity: Severity,
}

/// A diagnostic with its message as text.
pub struct CheckErrorView {
    pub message: Seq<char>,
    pub span: Span,
    pub severity: Severity,
}

impl View for CheckError {
    type V = CheckErrorView;

    open spec fn view(&self) -> CheckErrorView {
        CheckErrorView { message: self.message@, span: self.span, severity: self.severity }
    }
}

/// Where a global is defined and where it is referred to.
#[derive(Clone, Debug)]
pub struct Definition {
    pub definition: Span,
    pub references: Vec<Span>,
}

pub struct DefinitionView {
    pub definition: Span,
    pub references: Seq<Span>,
}

impl View for Definition {
    type V = DefinitionView;

    open spec fn view(&self) -> DefinitionView {
        DefinitionView { definition: self.definition, references: self.references@ }
    }
}

impl Definition {
    /// A definition at `span` that nothing refers to yet.
    pub fn new(span: Span) -> (r: Definition)
        ensures
            r@ == (DefinitionView { definition: span, references: Seq::empty() }),
    {
        Definition { definition: span, references: Vec::new() }
    }
}

/// What the checks know while they walk a program: the names in scope, the references to
/// resolve later and the diagnostics so far.
pub struct CheckState<'a> {
    /// Temporaries of the current function: type and place of definition.
    pub temps: HashMap<String, (Type, Span)>,
    pub temp_refs: Vec<Lexeme>,
    /// Labels of the current function.
    pub labels: HashMap<String, Span>,
    /// Label uses of the current function, resolved when it ends.
    pub label_refs: Vec<Lexeme>,
    pub function_defs: HashMap<String, (FunctionType, Option<Span>)>,
    /// Calls with the type their result is expected to have, checked after all declarations.
    pub function_refs: Vec<(CallAst<'a>, Type)>,
    pub data_defs: HashMap<String, Definition>,
    pub errors: Vec<CheckError>,
    /// The return type of the current function.
    pub return_ty: Option<Type>,
}

/// The check state as values.
pub struct CheckModel {
    pub temps: Map<Seq<char>, (Type, Span)>,
    pub temp_refs: Seq<Lexeme>,
    pub labels: Map<Seq<char>, Span>,
    pub label_refs: Seq<Lexeme>,
    pub function_defs: Map<Seq<char>, (FunctionTypeView, Option<Span>)>,
    pub function_refs: Seq<(Group, Type)>,
    pub data_defs: Map<Seq<char>, DefinitionView>,
    pub errors: Seq<CheckErrorView>,
    pub return_ty: Option<Type>,
}

impl<'a> View for CheckState<'a> {
    type V = CheckModel;

    open spec fn view(&self) -> CheckModel {
        CheckModel {
            temps: temp_entries(self.temps),
            temp_refs: self.temp_refs@,
            labels: label_entries(self.labels),
            label_refs: self.label_refs@,
            function_defs: function_entries(self.function_defs),
            function_refs: self.function_refs@.map_values(|p: (CallAst<'a>, Type)| (*p.0.0, p.1)),
            data_defs: data_entries(self.data_defs),
            errors: self.errors@.map_values(|e: CheckError| e@),
            return_ty: self.return_ty,
        }
    }
}

/// A state that knows no names and holds no diagnostics.
pub open spec fn empty_model() -> CheckModel {
    CheckModel {
        temps: Map::empty(),
        temp_refs: seq![],
        labels: Map::empty(),
        label_refs: seq![],
        function_defs: Map::empty(),
        function_refs: seq![],
        data_defs: Map::empty(),
        errors: seq![],
        return_ty: None,
    }
}

impl<'a> Default for CheckState<'a> {
    fn default() -> (r: CheckState<'a>)
        ensures
            r@ == empty_model(),
    {
        CheckState::new()
    }
}

/// The state with one more diagnostic of the given severity at the end.
pub open spec fn with_diagnostic(s: CheckModel, message: Seq<char>, span: Span, severity: Severity) -> CheckModel {
    CheckModel {
        errors: s.errors.push(CheckErrorView { message, span, severity }),
        ..s
    }
}

/// The state with one more error at the end.
pub open spec fn with_error(s: CheckModel, message: Seq<char>, span: Span) -> CheckModel {
    with_diagnostic(s, message, span, Severity::Error)
}

/// The errors that resolving the first `k` label uses against `labels` reports, in order.
pub open spec fn undefined_label_errors(labels: Map<Seq<char>, Span>, refs: Seq<Lexeme>, k: int) -> Seq<
    CheckErrorView,
>
    decreases k,
{
    if k <= 0 || k > refs.len() {
        seq![]
    } else {
        let rest = undefined_label_errors(labels, refs, k - 1);
        let r = refs[k - 1];
        if labels.contains_key(r.text@) {
            rest
        } else {
            rest.push(
                CheckErrorView {
                    message: "Label not defined '"@ + r.text@ + "'"@,
                    span: r.span,
                    severity: Severity::Error,
                },
            )
        }
    }
}

/// The state after the end of a function: unresolved labels are reported and the function's
/// temporaries, labels and return type are forgotten.
pub open spec fn cleared_locals(s: CheckModel) -> CheckModel {
    CheckModel {
        errors: s.errors + undefined_label_errors(s.labels, s.label_refs, s.label_refs.len() as int),
        labels: Map::empty(),
        label_refs: seq![],
        temps: Map::empty(),
        return_ty: None,
        ..s
    }
}

/// Which kind of operand an operand node is.
#[derive(Clone, Copy, PartialEq, Eq, Structural, Debug)]
pub enum OperandKind {
    Immediate,
    Temp,
    Global,
    Label,
}

/// The operand kind of a lexeme of an operand kind.
pub open spec fn operand_kind_of(k: QbeToken) -> OperandKind {
    match k {
        QbeToken::Int => OperandKind::Immediate,
        QbeToken::Temp => OperandKind::Temp,
        QbeToken::Global => OperandKind::Global,
        _ => OperandKind::Label,
    }
}

/// A node that an editor query can point at.
pub enum LspNode<'a> {
    Root(QbeAst<'a>),
    Function(FunctionAst<'a>),
    FunctionParam(&'a Lexeme),
    Instr(InstrAst<'a>),
    Assign(AssignAst<'a>),
    Arg(ArgAst<'a>),
    Expr(ExprAst<'a>),
    Type(TypeAst<'a>),
    Block(BlockAst<'a>),
    Label(&'a Lexeme),
}

/// An editor node as values: the group or lexeme it stands for.
pub enum NodeView {
    Root(Group),
    Function(Group),
    FunctionParam(Lexeme),
    Instr(Group),
    Assign(Group),
    Arg(Group),
    Expr(OperandKind, Lexeme),
    Type(Group),
    Block(Group),
    Label(Lexeme),
}

impl<'a> View for LspNode<'a> {
    type V = NodeView;

    open spec fn view(&self) -> NodeView {
        match self {
            LspNode::Root(a) => NodeView::Root(*a.0),
            LspNode::Function(a) => NodeView::Function(*a.0),
            LspNode::FunctionParam(l) => NodeView::FunctionParam(**l),
            LspNode::Instr(a) => NodeView::Instr(*a.0),
            LspNode::Assign(a) => NodeView::Assign(*a.0),
            LspNode::Arg(a) => NodeView::Arg(*a.0),
            LspNode::Expr(e) => NodeView::Expr(e.operand_kind(), e.lexeme_spec()),
            LspNode::Type(a) => NodeView::Type(*a.0),
            LspNode::Block(a) => NodeView::Block(*a.0),
            LspNode::Label(l) => NodeView::Label(**l),
        }
    }
}

pub open spec fn opt_view(r: Option<LspNode>) -> Option<NodeView> {
    match r {
        Some(n) => Some(n@),
        None => None,
    }
}

/// The first hit of `f` along `gs`.
pub open spec fn first_found(gs: Seq<Group>, f: spec_fn(Group) -> Option<NodeView>) -> Option<NodeView>
    decreases gs.len(),
{
    if gs.len() == 0 {
        None
    } else {
        match f(gs[0]) {
            Some(v) => Some(v),
            None => first_found(gs.drop_first(), f),
        }
    }
}

/// A part of a program that can say which node stands at an offset.
pub trait LspItem<'a> {
    /// The part can be read.
    spec fn item_ok(&self) -> bool;

    /// The innermost node of the part at `offset`.
    spec fn at_spec(&self, offset: usize) -> Option<NodeView>;

    /// The innermost node of the part at `offset`, if the part covers the offset.
    fn at(&self, offset: usize) -> (r: Option<LspNode<'a>>)
        requires
            self.item_ok(),
        ensures
            opt_view(r) == self.at_spec(offset),
    ;
}

/// The text by which a node is named.
pub open spec fn node_name(v: NodeView) -> Seq<char> {
    match v {
        NodeView::Root(_) => "Root"@,
        NodeView::Function(_) => "Function"@,
        NodeView::FunctionParam(_) => "FunctionParam"@,
        NodeView::Instr(_) => "Instr"@,
        NodeView::Assign(_) => "Assign"@,
        NodeView::Arg(_) => "Arg"@,
        NodeView::Expr(_, _) => "Expr"@,
        NodeView::Type(_) => "Type"@,
        NodeView::Block(_) => "Block"@,
        NodeView::Label(_) => "Label"@,
    }
}

/// Where the temporary or label a node refers to is defined, if the state knows it.
pub open spec fn definition_of(v: NodeView, s: CheckModel) -> Option<Span> {
    match v {
        NodeView::Expr(OperandKind::Temp, l) => if s.temps.contains_key(l.text@) {
            Some(s.temps[l.text@].1)
        } else {
            None
        },
        NodeView::Expr(OperandKind::Label, l) => if s.labels.contains_key(l.text@) {
            Some(s.labels[l.text@])
        } else {
            None
        },
        NodeView::Label(l) => if s.labels.contains_key(l.text@) {
            Some(s.labels[l.text@])
        } else {
            None
        },
        _ => None,
    }
}

/// The places, in order, of the first `k` uses in `refs` with the text `text`.
pub open spec fn use_spans(refs: Seq<Lexeme>, text: Seq<char>, k: int) -> Seq<Span>
    decreases k,
{
    if k <= 0 || k > refs.len() {
        seq![]
    } else if refs[k - 1].text@ == text {
        use_spans(refs, text, k - 1).push(refs[k - 1].span)
    } else {
        use_spans(refs, text, k - 1)
    }
}

/// The places of the uses of the temporary or label a node refers to.
pub open spec fn references_of(v: NodeView, s: CheckModel) -> Seq<Span> {
    match v {
        NodeView::Expr(OperandKind::Temp, l) => use_spans(s.temp_refs, l.text@, s.temp_refs.len() as int),
        NodeView::Expr(OperandKind::Label, l) => use_spans(s.label_refs, l.text@, s.label_refs.len() as int),
        NodeView::Label(l) => use_spans(s.label_refs, l.text@, s.label_refs.len() as int),
        _ => seq![],
    }
}

fn uses_of(refs: &Vec<Lexeme>, text: &String) -> (r: Vec<Span>)
    ensures
        r@ == use_spans(refs@, text@, refs@.len() as int),
{
    let mut r: Vec<Span> = Vec::new();
    let n = refs.len();
    let mut i: usize = 0;
    while i < n
        invariant
            n == refs@.len(),
            i <= n,
            r@ == use_spans(refs@, text@, i as int),
        decreases n - i,
    {
        if refs[i].text.eq(text) {
            r.push(refs[i].span);
        }
        i = i + 1;
    }
    r
}

impl<'a> LspNode<'a> {
    /// The name of the node's kind.
    pub fn to_string(&self) -> (r: String)
        ensures
            r@ == node_name(self@),
    {
        match self {
            LspNode::Root(_) => String::from_str("Root"),
            LspNode::Function(_) => String::from_str("Function"),
            LspNode::FunctionParam(_) => String::from_str("FunctionParam"),
            LspNode::Instr(_) => String::from_str("Instr"),
            LspNode::Assign(_) => String::from_str("Assign"),
            LspNode::Arg(_) => String::from_str("Arg"),
            LspNode::Expr(_) => String::from_str("Expr"),
            LspNode::Type(_) => String::from_str("Type"),
            LspNode::Block(_) => String::from_str("Block"),
            LspNode::Label(_) => String::from_str("Label"),
        }
    }

    /// The text to show when the pointer rests on the node: the name of its kind.
    pub fn hover(&self, _state: &CheckState) -> (r: Option<String>)
        ensures
            r matches Some(t) && t@ == node_name(self@),
    {
        Some(self.to_string())
    }

    /// Where the temporary or label the node refers to is defined (see `definition_of`).
    pub fn definition(&self, state: &CheckState) -> (r: Option<Span>)
        ensures
            r == definition_of(self@, state@),
    {
        match self {
            LspNode::Expr(ExprAst::Temp(temp)) => match temp_get(&state.temps, &temp.text) {
                Some(entry) => Some(entry.1),
                None => None,
            },
            LspNode::Expr(ExprAst::Label(label)) | LspNode::Label(label) => match label_get(
                &state.labels,
                &label.text,
            ) {
                Some(span) => Some(*span),
                None => None,
            },
            _ => None,
        }
    }

    /// The places where the temporary or label the node refers to is used (see
    /// `references_of`).
    pub fn references(&self, state: &CheckState) -> (r: Vec<Span>)
        ensures
            r@ == references_of(self@, state@),
    {
        match self {
            LspNode::Expr(ExprAst::Temp(temp)) => uses_of(&state.temp_refs, &temp.text),
            LspNode::Expr(ExprAst::Label(label)) | LspNode::Label(label) => uses_of(
                &state.label_refs,
                &label.text,
            ),
            _ => Vec::new(),
        }
    }
}

/// The root of a program's syntax tree.
#[derive(Clone, Copy)]
pub struct QbeAst<'a>(pub &'a Group);

/// The declarations among the first `k` groups of `gs`, in order.
pub open spec fn decls_in(gs: Seq<Group>, k: int) -> Seq<Group>
    decreases k,
{
    if k <= 0 || k > gs.len() {
        seq![]
    } else if is_decl(gs[k - 1]) {
        decls_in(gs, k - 1).push(gs[k - 1])
    } else {
        decls_in(gs, k - 1)
    }
}

/// The declarations of a program.
pub open spec fn decls_of(root: Group) -> Seq<Group> {
    decls_in(root.groups_spec(), root.groups_spec().len() as int)
}

/// A program the checks can read: each of its declarations can be read.
pub open spec fn program_ok(root: Group) -> bool {
    forall|i: int| 0 <= i < decls_of(root).len() ==> decl_ok(#[trigger] decls_of(root)[i])
}

/// The state after the first `k` declarations, each followed by the end of its locals.
pub open spec fn decls_check(ds: Seq<Group>, k: int, s: CheckModel) -> CheckModel
    decreases k,
{
    if k <= 0 || k > ds.len() {
        s
    } else {
        cleared_locals(decl_check(ds[k - 1], decls_check(ds, k - 1, s)))
    }
}

/// The state after checking the first `k` recorded calls, each against its expected type.
pub open spec fn refs_check(refs: Seq<(Group, Type)>, k: int, s: CheckModel) -> CheckModel
    decreases k,
{
    if k <= 0 || k > refs.len() {
        s
    } else {
        call_check(refs[k - 1].0, refs[k - 1].1, refs_check(refs, k - 1, s))
    }
}

/// The state after checking a program: its declarations in order, then every call recorded
/// so far against the functions then known.
pub open spec fn program_check(root: Group, s: CheckModel) -> CheckModel {
    let ds = decls_of(root);
    let s1 = decls_check(ds, ds.len() as int, s);
    refs_check(s1.function_refs, s1.function_refs.len() as int, s1)
}

pub proof fn lemma_decls_check_grows(ds: Seq<Group>, k: int, s: CheckModel)
    requires
        forall|j: int| 0 <= j < ds.len() ==> decl_ok(#[trigger] ds[j]),
    ensures
        grows(s, decls_check(ds, k, s)),
    decreases k,
{
    if k <= 0 || k > ds.len() {
    } else {
        let s1 = decls_check(ds, k - 1, s);
        lemma_decls_check_grows(ds, k - 1, s);
        assert(decl_ok(ds[k - 1]));
        lemma_decl_check_grows(ds[k - 1], s1);
        lemma_grows_trans(s, s1, decls_check(ds, k, s));
    }
}

pub proof fn lemma_refs_check_grows(refs: Seq<(Group, Type)>, k: int, s: CheckModel)
    ensures
        grows(s, refs_check(refs, k, s)),
    decreases k,
{
    if k <= 0 || k > refs.len() {
    } else {
        let s1 = refs_check(refs, k - 1, s);
        lemma_refs_check_grows(refs, k - 1, s);
        lemma_call_check_grows(refs[k - 1].0, refs[k - 1].1, s1);
        lemma_grows_trans(s, s1, refs_check(refs, k, s));
    }
}

/// Checking a program only ever adds: the diagnostics and recorded calls from before stay
/// in place at the front, each call recorded can be checked, and no name defined as a
/// function or as data is forgotten.
pub proof fn lemma_program_check_grows(root: Group, s: CheckModel)
    requires
        program_ok(root),
    ensures
        grows(s, program_check(root, s)),
{
    let ds = decls_of(root);
    let s1 = decls_check(ds, ds.len() as int, s);
    lemma_decls_check_grows(ds, ds.len() as int, s);
    lemma_refs_check_grows(s1.function_refs, s1.function_refs.len() as int, s1);
    lemma_grows_trans(s, s1, program_check(root, s));
}

/// A program an editor query can read: each of its declarations can be read.
pub open spec fn program_view_ok(root: Group) -> bool {
    forall|i: int| 0 <= i < decls_of(root).len() ==> decl_view_ok(#[trigger] decls_of(root)[i])
}

/// The node of a program at an offset: the node of the first declaration that has one,
/// else the root.
pub open spec fn program_at(root: Group, offset: usize) -> Option<NodeView> {
    match first_found(decls_of(root), |d: Group| decl_at(d, offset)) {
        Some(v) => Some(v),
        None => Some(NodeView::Root(root)),
    }
}

impl<'a> LspItem<'a> for QbeAst<'a> {
    open spec fn item_ok(&self) -> bool {
        program_view_ok(*self.0)
    }

    open spec fn at_spec(&self, offset: usize) -> Option<NodeView> {
        program_at(*self.0, offset)
    }

    fn at(&self, offset: usize) -> (r: Option<LspNode<'a>>) {
        let decls = self.decls();
        let ghost ds = decls_of(*self.0);
        let ghost f = |d: Group| decl_at(d, offset);
        let n = decls.len();
        let mut i: usize = 0;
        assert(ds.skip(0) =~= ds);
        while i < n
            invariant
                ds == decls_of(*self.0),
                f == (|d: Group| decl_at(d, offset)),
                n == decls@.len(),
                n == ds.len(),
                i <= n,
                forall|j: int|
                    0 <= j < n ==> (#[trigger] decls@[j]).group_spec() == ds[j] && decls@[j].agrees(),
                forall|j: int| 0 <= j < n ==> decl_view_ok(#[trigger] ds[j]),
                first_found(ds, f) == first_found(ds.skip(i as int), f),
            decreases n - i,
        {
            assert(ds.skip(i as int).drop_first() =~= ds.skip(i + 1));
            assert(ds.skip(i as int)[0] == ds[i as int]);
            assert(decl_view_ok(ds[i as int]));
            let res = decls[i].at(offset);
            if res.is_some() {
                return res;
            }
            i = i + 1;
        }
        assert(ds.skip(n as int) =~= Seq::<Group>::empty());
        Some(LspNode::Root(*self))
    }
}

impl<'a> QbeAst<'a> {
    /// The declarations of the program (see `is_decl`).
    pub fn decls(&self) -> (r: Vec<DeclAst<'a>>)
        ensures
            r@.len() == decls_of(*self.0).len(),
            forall|i: int|
                0 <= i < r@.len() ==> (#[trigger] r@[i]).group_spec() == decls_of(*self.0)[i]
                    && r@[i].agrees(),
    {
        let gs = self.0.groups();
        let ghost all = self.0.groups_spec();
        let mut r: Vec<DeclAst<'a>> = Vec::new();
        let n = gs.len();
        let mut i: usize = 0;
        while i < n
            invariant
                n == gs@.len(),
                n == all.len(),
                i <= n,
                forall|j: int| 0 <= j < n ==> *gs@[j] == #[trigger] all[j],
                r@.len() == decls_in(all, i as int).len(),
                forall|j: int|
                    0 <= j < r@.len() ==> (#[trigger] r@[j]).group_spec() == decls_in(all, i as int)[j]
                        && r@[j].agrees(),
            decreases n - i,
        {
            match DeclAst::try_from(gs[i]) {
                Ok(d) => {
                    r.push(d);
                },
                Err(_) => {},
            }
            i = i + 1;
        }
        r
    }

    /// Checks the program (see `program_check`): each declaration, ending the locals after
    /// each, then every recorded call.
    pub fn check(&self, state: &mut CheckState<'a>)
        requires
            program_ok(*self.0),
            refs_ok(old(state)@.function_refs),
        ensures
            final(state)@ == program_check(*self.0, old(state)@),
    {
        let decls = self.decls();
        let ghost ds = decls_of(*self.0);
        let n = decls.len();
        let mut i: usize = 0;
        while i < n
            invariant
                n == decls@.len(),
                n == ds.len(),
                i <= n,
                forall|j: int|
                    0 <= j < n ==> (#[trigger] decls@[j]).group_spec() == ds[j] && decls@[j].agrees(),
                forall|j: int| 0 <= j < n ==> decl_ok(#[trigger] ds[j]),
                state@ == decls_check(ds, i as int, old(state)@),
                refs_ok(state@.function_refs),
            decreases n - i,
        {
            let ghost before = state@;
            assert(decl_ok(ds[i as int]));
            decls[i].check(state);
            state.clear_locals();
            proof {
                lemma_decl_check_grows(ds[i as int], before);
                lemma_grows_refs_ok(before, state@);
            }
            i = i + 1;
        }
        let ghost s1 = state@;
        let mut refs: Vec<(CallAst<'a>, Type)> = Vec::new();
        let m = state.function_refs.len();
        let mut k: usize = 0;
        while k < m
            invariant
                m == state.function_refs@.len(),
                state@ == s1,
                k <= m,
                refs@.len() == k,
                forall|j: int|
                    0 <= j < k ==> (*(#[trigger] refs@[j]).0.0, refs@[j].1) == s1.function_refs[j],
            decreases m - k,
        {
            let entry = (state.function_refs[k].0, state.function_refs[k].1.duplicate());
            refs.push(entry);
            k = k + 1;
        }
        let mut j: usize = 0;
        while j < m
            invariant
                m == refs@.len(),
                m == s1.function_refs.len(),
                j <= m,
                forall|t: int|
                    0 <= t < m ==> (*(#[trigger] refs@[t]).0.0, refs@[t].1) == s1.function_refs[t],
                refs_ok(s1.function_refs),
                state@ == refs_check(s1.function_refs, j as int, s1),
            decreases m - j,
        {
            assert(call_ref_ok(s1.function_refs[j as int].0));
            let (ast, expected) = &refs[j];
            ast.check(expected, state);
            j = j + 1;
        }
    }
}

/// Once a function ends, asking where a temporary or label is defined finds nothing.
pub proof fn lemma_no_definitions_after_function(v: NodeView, s: CheckModel)
    ensures
        definition_of(v, cleared_locals(s)) is None,
{
}

/// Whether a recorded use has the text `text`.
pub open spec fn has_text(text: Seq<char>) -> spec_fn(Lexeme) -> bool {
    |l: Lexeme| l.text@ == text
}

/// The place of a recorded use.
pub open spec fn place_of() -> spec_fn(Lexeme) -> Span {
    |l: Lexeme| l.span
}

proof fn lemma_use_spans_are_filtered_uses(refs: Seq<Lexeme>, text: Seq<char>, k: int)
    requires
        0 <= k <= refs.len(),
    ensures
        use_spans(refs, text, k) == refs.take(k).filter(has_text(text)).map_values(place_of()),
    decreases k,
{
    reveal(Seq::filter);
    if k == 0 {
        assert(refs.take(0) =~= Seq::<Lexeme>::empty());
        assert(refs.take(0).filter(has_text(text)) =~= Seq::<Lexeme>::empty());
        assert(refs.take(0).filter(has_text(text)).map_values(place_of()) =~= Seq::<Span>::empty());
    } else {
        lemma_use_spans_are_filtered_uses(refs, text, k - 1);
        let t = refs.take(k);
        assert(t.drop_last() =~= refs.take(k - 1));
        assert(t.last() == refs[k - 1]);
        let f0 = refs.take(k - 1).filter(has_text(text));
        if refs[k - 1].text@ == text {
            assert(t.filter(has_text(text)) == f0.push(refs[k - 1]));
            assert(f0.push(refs[k - 1]).map_values(place_of()) =~= f0.map_values(place_of()).push(
                refs[k - 1].span,
            ));
        } else {
            assert(t.filter(has_text(text)) == f0);
        }
    }
}

/// The references of a temporary or label are the places of all its recorded uses, in the
/// order they were recorded, and nothing else; other nodes have none.
pub proof fn lemma_references_are_all_uses(v: NodeView, s: CheckModel)
    ensures
        references_of(v, s) == match v {
            NodeView::Expr(OperandKind::Temp, l) => s.temp_refs.filter(has_text(l.text@)).map_values(
                place_of(),
            ),
            NodeView::Expr(OperandKind::Label, l) => s.label_refs.filter(has_text(l.text@)).map_values(
                place_of(),
            ),
            NodeView::Label(l) => s.label_refs.filter(has_text(l.text@)).map_values(place_of()),
            _ => seq![],
        },
{
    assert(s.temp_refs.take(s.temp_refs.len() as int) =~= s.temp_refs);
    assert(s.label_refs.take(s.label_refs.len() as int) =~= s.label_refs);
    match v {
        NodeView::Expr(OperandKind::Temp, l) => {
            lemma_use_spans_are_filtered_uses(s.temp_refs, l.text@, s.temp_refs.len() as int);
        },
        NodeView::Expr(OperandKind::Label, l) => {
            lemma_use_spans_are_filtered_uses(s.label_refs, l.text@, s.label_refs.len() as int);
        },
        NodeView::Label(l) => {
            lemma_use_spans_are_filtered_uses(s.label_refs, l.text@, s.label_refs.len() as int);
        },
        _ => {},
    }
}

/// Whether a label use names no label of `labels`.
pub open spec fn undefined_in(labels: Map<Seq<char>, Span>) -> spec_fn(Lexeme) -> bool {
    |r: Lexeme| !labels.contains_key(r.text@)
}

/// The error that reports a use of a label that is not defined.
pub open spec fn undefined_label_error() -> spec_fn(Lexeme) -> CheckErrorView {
    |r: Lexeme|
        CheckErrorView {
            message: "Label not defined '"@ + r.text@ + "'"@,
            span: r.span,
            severity: Severity::Error,
        }
}

proof fn lemma_undefined_label_errors_filtered(labels: Map<Seq<char>, Span>, refs: Seq<Lexeme>, k: int)
    requires
        0 <= k <= refs.len(),
    ensures
        undefined_label_errors(labels, refs, k) == refs.take(k).filter(undefined_in(labels)).map_values(
            undefined_label_error(),
        ),
    decreases k,
{
    reveal(Seq::filter);
    let p = undefined_in(labels);
    let e = undefined_label_error();
    if k == 0 {
        assert(refs.take(0) =~= Seq::<Lexeme>::empty());
        assert(refs.take(0).filter(p) =~= Seq::<Lexeme>::empty());
        assert(refs.take(0).filter(p).map_values(e) =~= Seq::<CheckErrorView>::empty());
    } else {
        lemma_undefined_label_errors_filtered(labels, refs, k - 1);
        let t = refs.take(k);
        assert(t.drop_last() =~= refs.take(k - 1));
        assert(t.last() == refs[k - 1]);
        let f0 = refs.take(k - 1).filter(p);
        if !labels.contains_key(refs[k - 1].text@) {
            assert(t.filter(p) == f0.push(refs[k - 1]));
            assert(f0.push(refs[k - 1]).map_values(e) =~= f0.map_values(e).push(e(refs[k - 1])));
        } else {
            assert(t.filter(p) == f0);
        }
    }
}

/// Ending a function keeps the diagnostics so far and appends one error for each recorded
/// label use whose label the function does not define, in the order of the uses, and no
/// other diagnostic.
pub proof fn lemma_end_of_function_reports_each_undefined_label(s: CheckModel)
    ensures
        cleared_locals(s).errors == s.errors + s.label_refs.filter(undefined_in(s.labels)).map_values(
            undefined_label_error(),
        ),
        cleared_locals(s).errors.len() == s.errors.len() + s.label_refs.filter(undefined_in(s.labels)).len(),
{
    assert(s.label_refs.take(s.label_refs.len() as int) =~= s.label_refs);
    lemma_undefined_label_errors_filtered(s.labels, s.label_refs, s.label_refs.len() as int);
}

impl<'a> CheckState<'a> {
    /// A state that knows no names and holds no diagnostics.
    pub fn new() -> (r: CheckState<'a>)
        ensures
            r@ == empty_model(),
    {
        let r = CheckState {
            temps: new_temp_table(),
            temp_refs: Vec::new(),
            labels: new_label_table(),
            label_refs: Vec::new(),
            function_defs: new_function_table(),
            function_refs: Vec::new(),
            data_defs: new_data_table(),
            errors: Vec::new(),
            return_ty: None,
        };
        assert(r@.function_refs =~= Seq::<(Group, Type)>::empty());
        assert(r@.temps =~= Map::empty());
        assert(r@.labels =~= Map::empty());
        assert(r@.function_defs =~= Map::empty());
        assert(r@.data_defs =~= Map::empty());
        assert(r@.errors =~= Seq::<CheckErrorView>::empty());
        r
    }

    /// Reports an error at `span`.
    pub fn error(&mut self, message: String, span: Span)
        ensures
            final(self)@ == with_error(old(self)@, message@, span),
    {
        let ghost m = message@;
        self.errors.push(CheckError { message, span, severity: Severity::Error });
        assert(self@.errors =~= old(self)@.errors.push(CheckErrorView { message: m, span, severity: Severity::Error }));
    }

    /// Reports a warning at `span`.
    pub fn warn(&mut self, message: String, span: Span)
        ensures
            final(self)@ == with_diagnostic(old(self)@, message@, span, Severity::Warning),
    {
        let ghost m = message@;
        self.errors.push(CheckError { message, span, severity: Severity::Warning });
        assert(self@.errors =~= old(self)@.errors.push(CheckErrorView { message: m, span, severity: Severity::Warning }));
    }

    /// Ends a function: reports each label use whose label the function does not define, then
    /// forgets the function's temporaries, labels, label uses and return type.
    pub fn clear_locals(&mut self)
        ensures
            final(self)@ == cleared_locals(old(self)@),
    {
        let n = self.label_refs.len();
        let mut i: usize = 0;
        while i < n
            invariant
                n == self.label_refs@.len(),
                i <= n,
                self@ == (CheckModel {
                    errors: old(self)@.errors + undefined_label_errors(old(self)@.labels, old(self)@.label_refs, i as int),
                    ..old(self)@
                }),
            decreases n - i,
        {
            let defined = label_contains(&self.labels, &self.label_refs[i].text);
            if !defined {
                let mut message = String::from_str("Label not defined '");
                message.append(self.label_refs[i].text.as_str());
                message.append("'");
                let span = self.label_refs[i].span;
                self.error(message, span);
            }
            i = i + 1;
        }
        label_clear(&mut self.labels);
        self.label_refs.clear();
        temp_clear(&mut self.temps);
        self.return_ty = None;
        assert(self@.label_refs =~= Seq::<Lexeme>::empty());
        assert(self@.labels =~= Map::empty());
        assert(self@.temps =~= Map::empty());
        assert(self@ == cleared_locals(old(self)@));
    }
}

} // verus!
