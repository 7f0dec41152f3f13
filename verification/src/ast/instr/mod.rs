use vstd::prelude::*;

use crate::ast::expr::{expr_lexeme, expr_shape_ok, operand_check, ExprAst};
use crate::ast::instr::call::{call_args_check, call_args_of, call_args_ok, lemma_call_args_readable, call_arg_ok, CallAst};
use crate::ast::{
    operand_kind_of, with_diagnostic, with_error, CheckModel, CheckState, LspItem, LspNode, NodeView,
    Severity,
};
use crate::semantic_analyze::Type;
use crate::span::Span;
use crate::syntax::{Group, Lexeme, Node, QbeToken};
use crate::text::{arity_message, arity_message_text};

pub mod add;
pub mod call;

verus! {

/// The signature of a function or an instruction: a return type and argument types.
/// `Type::T` stands for a type parameter fixed by the expected result type.
#[derive(Clone, Debug)]
pub struct FunctionType {
    pub return_ty: Type,
    pub args: Vec<Type>,
}

pub struct FunctionTypeView {
    pub return_ty: Type,
    pub args: Seq<Type>,
}

impl View for FunctionType {
    type V = FunctionTypeView;

    open spec fn view(&self) -> FunctionTypeView {
        FunctionTypeView { return_ty: self.return_ty, args: self.args@ }
    }
}


/// The signature with its type parameter fixed to `return_ty`: when the return type is the
/// parameter, the result returns `return_ty` and every argument becomes `return_ty`; any
/// other signature stays as it is.
pub open spec fn mapped(f: FunctionTypeView, return_ty: Type) -> FunctionTypeView {
    if f.return_ty is T {
        FunctionTypeView { return_ty, args: Seq::new(f.args.len(), |i: int| return_ty) }
    } else {
        f
    }
}

/// Whether the signature mentions the type parameter.
pub open spec fn is_parameterized(f: FunctionTypeView) -> bool {
    f.return_ty is T || exists|i: int| 0 <= i < f.args.len() && #[trigger] f.args[i] is T
}

pub open spec fn sig(return_ty: Type, args: Seq<Type>) -> FunctionTypeView {
    FunctionTypeView { return_ty, args }
}

/// The signature of each instruction the checks know.
pub open spec fn instruction_signature(kind: QbeToken) -> Option<FunctionTypeView> {
    match kind {
        QbeToken::Add | QbeToken::Sub | QbeToken::Mul => Some(sig(Type::T, seq![Type::T, Type::T])),
        QbeToken::Ceql => Some(sig(Type::T, seq![Type::Long, Type::Long])),
        QbeToken::Copy => Some(sig(Type::T, seq![Type::T])),
        QbeToken::Loadl => Some(sig(Type::Long, seq![Type::Long])),
        QbeToken::Loadw => Some(sig(Type::Word, seq![Type::Long])),
        QbeToken::Storel => Some(sig(Type::Unit, seq![Type::Long, Type::Long])),
        QbeToken::Storew => Some(sig(Type::Unit, seq![Type::Word, Type::Long])),
        QbeToken::Jmp => Some(sig(Type::Unit, seq![Type::Label])),
        QbeToken::Jnz => Some(sig(Type::Unit, seq![Type::T, Type::Label, Type::Label])),
        _ => None,
    }
}

impl FunctionType {
    /// A copy of the signature, equal to it as a value.
    pub fn duplicate(&self) -> (r: FunctionType)
        ensures
            r@ == self@,
    {
        let mut args: Vec<Type> = Vec::new();
        let n = self.args.len();
        let mut i: usize = 0;
        while i < n
            invariant
                n == self.args@.len(),
                i <= n,
                args@ == self.args@.take(i as int),
            decreases n - i,
        {
            args.push(self.args[i].duplicate());
            i = i + 1;
            assert(args@ =~= self.args@.take(i as int));
        }
        assert(self.args@.take(n as int) =~= self.args@);
        FunctionType { return_ty: self.return_ty.duplicate(), args }
    }

    /// The signature with its type parameter fixed to `return_ty` (see `mapped`).
    pub fn map(&self, return_ty: &Type) -> (r: FunctionType)
        ensures
            r@ == mapped(self@, *return_ty),
    {
        if self.return_ty.is_param() {
            let mut args: Vec<Type> = Vec::new();
            let n = self.args.len();
            let mut i: usize = 0;
            while i < n
                invariant
                    n == self.args@.len(),
                    i <= n,
                    args@ == Seq::new(i as nat, |j: int| *return_ty),
                decreases n - i,
            {
                args.push(return_ty.duplicate());
                i = i + 1;
                assert(args@ =~= Seq::new(i as nat, |j: int| *return_ty));
            }
            let r = FunctionType { args, return_ty: return_ty.duplicate() };
            assert(r@ =~= mapped(self@, *return_ty));
            r
        } else {
            self.duplicate()
        }
    }

    /// Whether the return type or an argument type is the type parameter.
    pub fn parameterized(&self) -> (r: bool)
        ensures
            r == is_parameterized(self@),
    {
        if self.return_ty.is_param() {
            return true;
        }
        let n = self.args.len();
        let mut i: usize = 0;
        while i < n
            invariant
                n == self.args@.len(),
                i <= n,
                !(self.return_ty is T),
                forall|j: int| 0 <= j < i ==> !(#[trigger] self.args@[j] is T),
            decreases n - i,
        {
            if self.args[i].is_param() {
                return true;
            }
            i = i + 1;
        }
        false
    }
}

fn signature(return_ty: Type, args: Vec<Type>) -> (r: FunctionType)
    ensures
        r@ == sig(return_ty, args@),
{
    FunctionType { return_ty, args }
}

/// The signature of an instruction, for the instructions the checks know.
pub fn get_function_type(kind: QbeToken) -> (r: Option<FunctionType>)
    ensures
        match r {
            Some(f) => instruction_signature(kind) == Some(f@),
            None => instruction_signature(kind) is None,
        },
{
    match kind {
        QbeToken::Add | QbeToken::Sub | QbeToken::Mul => {
            let r = signature(Type::T, vec![Type::T, Type::T]);
            assert(r@.args =~= seq![Type::T, Type::T]);
            Some(r)
        },
        QbeToken::Ceql => {
            let r = signature(Type::T, vec![Type::Long, Type::Long]);
            assert(r@.args =~= seq![Type::Long, Type::Long]);
            Some(r)
        },
        QbeToken::Copy => {
            let r = signature(Type::T, vec![Type::T]);
            assert(r@.args =~= seq![Type::T]);
            Some(r)
        },
        QbeToken::Loadl => {
            let r = signature(Type::Long, vec![Type::Long]);
            assert(r@.args =~= seq![Type::Long]);
            Some(r)
        },
        QbeToken::Loadw => {
            let r = signature(Type::Word, vec![Type::Long]);
            assert(r@.args =~= seq![Type::Long]);
            Some(r)
        },
        QbeToken::Storel => {
            let r = signature(Type::Unit, vec![Type::Long, Type::Long]);
            assert(r@.args =~= seq![Type::Long, Type::Long]);
            Some(r)
        },
        QbeToken::Storew => {
            let r = signature(Type::Unit, vec![Type::Word, Type::Long]);
            assert(r@.args =~= seq![Type::Word, Type::Long]);
            Some(r)
        },
        QbeToken::Jmp => {
            let r = signature(Type::Unit, vec![Type::Label]);
            assert(r@.args =~= seq![Type::Label]);
            Some(r)
        },
        QbeToken::Jnz => {
            let r = signature(Type::Unit, vec![Type::T, Type::Label, Type::Label]);
            assert(r@.args =~= seq![Type::T, Type::Label, Type::Label]);
            Some(r)
        },
        _ => None,
    }
}

/// An instruction, or the right-hand side of an assignment.
#[derive(Clone, Copy)]
pub struct InstrAst<'a>(pub &'a Group);

/// The first lexeme among `cs` that is not white space or a line break.
pub open spec fn first_word(cs: Seq<Node>) -> Option<Lexeme>
    decreases cs.len(),
{
    if cs.len() == 0 {
        None
    } else {
        match cs[0] {
            Node::Lexeme(l) => if l.kind != QbeToken::Ws && l.kind != QbeToken::Newline {
                Some(l)
            } else {
                first_word(cs.drop_first())
            },
            _ => first_word(cs.drop_first()),
        }
    }
}

/// The operand lexemes of the operand groups among the first `k` groups of `gs`, in order.
pub open spec fn operands_in(gs: Seq<Group>, k: int) -> Seq<Lexeme>
    decreases k,
{
    if k <= 0 || k > gs.len() {
        seq![]
    } else {
        match expr_lexeme(gs[k - 1]) {
            Some(l) => operands_in(gs, k - 1).push(l),
            None => operands_in(gs, k - 1),
        }
    }
}

/// The operands of an instruction.
pub open spec fn operands_of(g: Group) -> Seq<Lexeme> {
    operands_in(g.groups_spec(), g.groups_spec().len() as int)
}

/// An instruction the checks can read: it has an opcode, its operand groups start with a
/// lexeme, and if it is a call its arguments can be read.
pub open spec fn instr_ok(g: Group) -> bool {
    &&& g.wf()
    &&& first_word(g.children@) is Some
    &&& forall|i: int| 0 <= i < g.groups_spec().len() ==> expr_shape_ok(#[trigger] g.groups_spec()[i])
    &&& (first_word(g.children@).unwrap().kind == QbeToken::Call ==> call_args_ok(g))
}

/// The state after checking the first `k` operands against the argument types `tys`: each
/// operand with an argument type is checked against it, each operand beyond them is reported.
pub open spec fn operands_check(ops: Seq<Lexeme>, tys: Seq<Type>, k: int, s: CheckModel) -> CheckModel
    decreases k,
{
    if k <= 0 || k > ops.len() {
        s
    } else {
        let s1 = operands_check(ops, tys, k - 1, s);
        if k - 1 < tys.len() {
            operand_check(ops[k - 1], tys[k - 1], s1)
        } else {
            with_error(s1, "This argument is unexpected"@, ops[k - 1].span)
        }
    }
}

/// The state after reporting operands `1 .. k` as unexpected.
pub open spec fn surplus_operands(ops: Seq<Lexeme>, k: int, s: CheckModel) -> CheckModel
    decreases k,
{
    if k <= 1 || k > ops.len() {
        s
    } else {
        with_error(surplus_operands(ops, k - 1, s), "This argument is unexpected"@, ops[k - 1].span)
    }
}

/// The state after checking an instruction whose result is expected to have type `expected`.
/// A call checks its arguments' operands and is recorded, with `expected`, to be checked
/// against its callee later. A return checks its one operand against the function's return
/// type. Another known instruction checks its operands against its signature with the type
/// parameter fixed to `expected`. An unknown instruction gets a warning.
pub open spec fn instr_check(g: Group, expected: Type, s: CheckModel) -> CheckModel {
    let w = first_word(g.children@).unwrap();
    if w.kind == QbeToken::Call {
        let s1 = match call_args_of(g) {
            Some(args) => call_args_check(args, args.len() as int, s),
            None => s,
        };
        if g.lexeme_of(QbeToken::Global) is Some {
            CheckModel { function_refs: s1.function_refs.push((g, expected)), ..s1 }
        } else {
            s1
        }
    } else if w.kind == QbeToken::Ret {
        let ops = operands_of(g);
        match s.return_ty {
            Some(ret) => if ops.len() > 0 {
                surplus_operands(ops, ops.len() as int, operand_check(ops[0], ret, s))
            } else {
                with_error(s, "Expected 1 argument"@, w.span)
            },
            None => with_error(s, "This function doesn't return anything"@, w.span),
        }
    } else {
        match instruction_signature(w.kind) {
            Some(def) => {
                let ty = mapped(def, expected);
                let ops = operands_of(g);
                let s1 = operands_check(ops, ty.args, ops.len() as int, s);
                if ty.args.len() > ops.len() {
                    with_error(s1, arity_message(ty.args.len(), ops.len()), w.span)
                } else {
                    s1
                }
            },
            None => with_diagnostic(s, "Instrution not implemented"@, w.span, Severity::Warning),
        }
    }
}

/// The first operand among `ops` whose lexeme covers `offset`.
pub open spec fn first_operand_at(ops: Seq<Lexeme>, offset: usize) -> Option<Lexeme>
    decreases ops.len(),
{
    if ops.len() == 0 {
        None
    } else if ops[0].span.has(offset) {
        Some(ops[0])
    } else {
        first_operand_at(ops.drop_first(), offset)
    }
}

/// An instruction an editor query can read: its operand groups start with a lexeme.
pub open spec fn instr_view_ok(g: Group) -> bool {
    &&& g.wf()
    &&& forall|i: int| 0 <= i < g.groups_spec().len() ==> expr_shape_ok(#[trigger] g.groups_spec()[i])
}

/// The node of an instruction at an offset inside it: the operand there, else the
/// instruction itself.
pub open spec fn instr_at(g: Group, offset: usize) -> Option<NodeView> {
    if g.span_spec().has(offset) {
        match first_operand_at(operands_of(g), offset) {
            Some(l) => Some(NodeView::Expr(operand_kind_of(l.kind), l)),
            None => Some(NodeView::Instr(g)),
        }
    } else {
        None
    }
}

impl<'a> LspItem<'a> for InstrAst<'a> {
    open spec fn item_ok(&self) -> bool {
        instr_view_ok(*self.0)
    }

    open spec fn at_spec(&self, offset: usize) -> Option<NodeView> {
        instr_at(*self.0, offset)
    }

    fn at(&self, offset: usize) -> (r: Option<LspNode<'a>>) {
        if self.0.span().contains(offset) {
            let args = self.args();
            let ghost ops = operands_of(*self.0);
            let n = args.len();
            let mut i: usize = 0;
            assert(ops.skip(0) =~= ops);
            while i < n
                invariant
                    n == args@.len(),
                    n == ops.len(),
                    i <= n,
                    forall|k: int|
                        0 <= k < n ==> (#[trigger] args@[k]).lexeme_spec() == ops[k] && args@[k].kind_agrees(),
                    first_operand_at(ops, offset) == first_operand_at(ops.skip(i as int), offset),
                    self.0.span_spec().has(offset),
                    ops == operands_of(*self.0),
                decreases n - i,
            {
                assert(ops.skip(i as int).drop_first() =~= ops.skip(i + 1));
                assert(ops.skip(i as int)[0] == ops[i as int]);
                if args[i].span().contains(offset) {
                    assert(args@[i as int].kind_agrees());
                    return Some(LspNode::Expr(args[i]));
                }
                i = i + 1;
            }
            assert(ops.skip(n as int) =~= Seq::<Lexeme>::empty());
            Some(LspNode::Instr(*self))
        } else {
            None
        }
    }
}

impl<'a> InstrAst<'a> {
    /// The opcode: the first lexeme that is not white space or a line break.
    pub fn kind(&self) -> (r: &'a Lexeme)
        requires
            first_word(self.0.children@) is Some,
        ensures
            Some(*r) == first_word(self.0.children@),
    {
        let cs = &self.0.children;
        let n = cs.len();
        let mut i: usize = 0;
        assert(cs@.skip(0) =~= cs@);
        loop
            invariant
                cs@ == self.0.children@,
                n == cs@.len(),
                i <= n,
                first_word(cs@) == first_word(cs@.skip(i as int)),
                first_word(cs@) is Some,
            decreases n - i,
        {
            if i == n {
                assert(cs@.skip(i as int) =~= Seq::<Node>::empty());
            }
            assert(cs@.skip(i as int).drop_first() =~= cs@.skip(i + 1));
            assert(cs@.skip(i as int)[0] == cs@[i as int]);
            match &cs[i] {
                Node::Lexeme(lexeme) => {
                    if lexeme.kind != QbeToken::Ws && lexeme.kind != QbeToken::Newline {
                        return lexeme;
                    }
                },
                _ => {},
            }
            i = i + 1;
        }
    }

    /// Checks the instruction with its result expected to have type `expected` (see
    /// `instr_check`).
    pub fn check(&self, expected: &Type, state: &mut CheckState<'a>)
        requires
            instr_ok(*self.0),
        ensures
            final(state)@ == instr_check(*self.0, *expected, old(state)@),
    {
        let w = self.kind();
        if w.kind == QbeToken::Call {
            let ast = CallAst(self.0);
            match ast.args() {
                Some(args) => {
                    let ghost all = call_args_of(*self.0).unwrap();
                    proof {
                        lemma_call_args_readable(*self.0);
                    }
                    let n = args.len();
                    let mut i: usize = 0;
                    while i < n
                        invariant
                            n == args@.len(),
                            n == all.len(),
                            i <= n,
                            forall|j: int| 0 <= j < n ==> *(#[trigger] args@[j]).0 == all[j],
                            forall|j: int| 0 <= j < n ==> call_arg_ok(#[trigger] all[j]),
                            state@ == call_args_check(all, i as int, old(state)@),
                        decreases n - i,
                    {
                        assert(call_arg_ok(all[i as int]));
                        args[i].check(state);
                        i = i + 1;
                    }
                },
                None => {},
            }
            if ast.name().is_some() {
                let ghost before = state@;
                state.function_refs.push((ast, expected.duplicate()));
                assert(state@.function_refs =~= before.function_refs.push((*self.0, *expected)));
            }
            return;
        }
        if w.kind == QbeToken::Ret {
            let args = self.args();
            let ret = match &state.return_ty {
                Some(t) => Some(t.duplicate()),
                None => None,
            };
            match ret {
                Some(ret) => {
                    let n = args.len();
                    if n > 0 {
                        args[0].check(&ret, state);
                        let ghost first = state@;
                        let mut j: usize = 1;
                        while j < n
                            invariant
                                n == args@.len(),
                                1 <= j <= n,
                                forall|k: int|
                                    0 <= k < n ==> (#[trigger] args@[k]).lexeme_spec() == operands_of(*self.0)[k],
                                n == operands_of(*self.0).len(),
                                state@ == surplus_operands(operands_of(*self.0), j as int, first),
                            decreases n - j,
                        {
                            let span = args[j].span();
                            state.error(String::from_str("This argument is unexpected"), span);
                            j = j + 1;
                        }
                    } else {
                        state.error(String::from_str("Expected 1 argument"), w.span);
                    }
                },
                None => {
                    state.error(String::from_str("This function doesn't return anything"), w.span);
                },
            }
            return;
        }
        match get_function_type(w.kind) {
            Some(def) => {
                let ty = def.map(expected);
                let args = self.args();
                let n = args.len();
                let mut i: usize = 0;
                while i < n
                    invariant
                        n == args@.len(),
                        i <= n,
                        forall|k: int|
                            0 <= k < n ==> (#[trigger] args@[k]).lexeme_spec() == operands_of(*self.0)[k]
                                && args@[k].kind_agrees(),
                        n == operands_of(*self.0).len(),
                        state@ == operands_check(operands_of(*self.0), ty@.args, i as int, old(state)@),
                    decreases n - i,
                {
                    if i < ty.args.len() {
                        args[i].check(&ty.args[i], state);
                    } else {
                        let span = args[i].lexeme().span;
                        state.error(String::from_str("This argument is unexpected"), span);
                    }
                    i = i + 1;
                }
                if ty.args.len() > n {
                    state.error(arity_message_text(ty.args.len(), n), w.span);
                }
            },
            None => {
                state.warn(String::from_str("Instrution not implemented"), w.span);
            },
        }
    }

    /// The operands.
    pub fn args(&self) -> (r: Vec<ExprAst<'a>>)
        requires
            forall|i: int|
                0 <= i < self.0.groups_spec().len() ==> expr_shape_ok(#[trigger] self.0.groups_spec()[i]),
        ensures
            r@.len() == operands_of(*self.0).len(),
            forall|i: int|
                0 <= i < r@.len() ==> (#[trigger] r@[i]).lexeme_spec() == operands_of(*self.0)[i]
                    && r@[i].kind_agrees(),
    {
        let gs = self.0.groups();
        let ghost all = self.0.groups_spec();
        let mut r: Vec<ExprAst<'a>> = Vec::new();
        let n = gs.len();
        let mut i: usize = 0;
        while i < n
            invariant
                n == gs@.len(),
                n == all.len(),
                i <= n,
                forall|j: int| 0 <= j < n ==> *gs@[j] == #[trigger] all[j],
                forall|j: int| 0 <= j < n ==> expr_shape_ok(#[trigger] all[j]),
                r@.len() == operands_in(all, i as int).len(),
                forall|j: int|
                    0 <= j < r@.len() ==> (#[trigger] r@[j]).lexeme_spec() == operands_in(all, i as int)[j]
                        && r@[j].kind_agrees(),
            decreases n - i,
        {
            assert(expr_shape_ok(all[i as int]));
            match ExprAst::try_from(gs[i]) {
                Ok(e) => {
                    r.push(e);
                },
                Err(_) => {},
            }
            i = i + 1;
        }
        r
    }
}

/// Fixing the type parameter keeps the number of arguments.
pub proof fn lemma_map_keeps_arity(f: FunctionTypeView, return_ty: Type)
    ensures
        mapped(f, return_ty).args.len() == f.args.len(),
{
}

/// A signature whose return type is not the type parameter is left as it is.
pub proof fn lemma_map_fixed_signature(f: FunctionTypeView, return_ty: Type)
    requires
        !(f.return_ty is T),
    ensures
        mapped(f, return_ty) == f,
{
}

/// Once the parameter is fixed to a type that is not itself the parameter, the signature
/// no longer mentions the parameter, and fixing it again changes nothing.
pub proof fn lemma_map_removes_parameter(f: FunctionTypeView, return_ty: Type, again: Type)
    requires
        f.return_ty is T,
        !(return_ty is T),
    ensures
        !is_parameterized(mapped(f, return_ty)),
        mapped(mapped(f, return_ty), again) == mapped(f, return_ty),
{
}

/// The load that reads back what a store writes.
pub open spec fn load_for(store: QbeToken) -> Option<QbeToken> {
    match store {
        QbeToken::Storel => Some(QbeToken::Loadl),
        QbeToken::Storew => Some(QbeToken::Loadw),
        _ => None,
    }
}

/// A store and the load that reads its value back agree: the store returns nothing and
/// takes a value of the type the load returns and a long address; the load takes the same
/// long address.
pub proof fn lemma_store_load_agree(store: QbeToken)
    requires
        load_for(store) is Some,
    ensures
        ({
            let load = load_for(store).unwrap();
            &&& instruction_signature(store) is Some
            &&& instruction_signature(load) is Some
            &&& instruction_signature(store).unwrap().return_ty == Type::Unit
            &&& instruction_signature(store).unwrap().args == seq![
                instruction_signature(load).unwrap().return_ty,
                Type::Long,
            ]
            &&& instruction_signature(load).unwrap().args == seq![Type::Long]
        }),
{
}

} // verus!
