use vstd::prelude::*;

use crate::ast::common::ty::TypeAst;
use crate::ast::decl::arg::{arg_at, arg_ok, ArgAst};
use crate::ast::decl::block::{block_at, block_check, block_ok, block_view_ok, BlockAst};
use crate::ast::decl::data::{duplicate_message, duplicate_message_text};
use crate::ast::instr::call::arg_type;
use crate::ast::instr::{FunctionType, FunctionTypeView};
use crate::ast::tables::{data_contains, function_contains, function_insert, temp_insert};
use crate::ast::growth::{lemma_blocks_check_grows, lemma_params_check_grows, lemma_block_check_keeps_functions};
use crate::ast::{
    first_found, with_error, CheckErrorView, CheckModel, CheckState, LspItem, LspNode, NodeView, Severity,
};
use crate::semantic_analyze::{type_of_group, Type};
use crate::syntax::{Group, Lexeme, QbeSyntax, QbeToken};

verus! {

/// A function definition.
#[derive(Clone, Copy)]
pub struct FunctionAst<'a>(pub &'a Group);

/// The groups among the first `k` of `gs` that name a temporary, in order.
pub open spec fn named_params(gs: Seq<Group>, k: int) -> Seq<Group>
    decreases k,
{
    if k <= 0 || k > gs.len() {
        seq![]
    } else if gs[k - 1].lexeme_of(QbeToken::Temp) is Some {
        named_params(gs, k - 1).push(gs[k - 1])
    } else {
        named_params(gs, k - 1)
    }
}

/// The parameters of a function that name their temporary.
pub open spec fn function_params(g: Group) -> Seq<Group> {
    match g.group_of(QbeSyntax::FuncArgs) {
        Some(fa) => named_params(fa.groups_spec(), fa.groups_spec().len() as int),
        None => seq![],
    }
}

/// The blocks of a function's body.
pub open spec fn function_blocks(g: Group) -> Seq<Group> {
    match g.group_of(QbeSyntax::FuncBody) {
        Some(b) => b.groups_spec(),
        None => seq![],
    }
}

/// Every group of a parameter list is a parameter, and each that names its temporary can
/// be read.
pub open spec fn params_ok(fa: Group) -> bool {
    forall|i: int|
        0 <= i < fa.groups_spec().len() ==> (#[trigger] fa.groups_spec()[i]).kind == QbeSyntax::FuncArg
            && (fa.groups_spec()[i].lexeme_of(QbeToken::Temp) is Some ==> arg_ok(fa.groups_spec()[i]))
}

/// A function the checks can read: its parameters and blocks can be read.
pub open spec fn function_ok(g: Group) -> bool {
    &&& g.wf()
    &&& (g.group_of(QbeSyntax::FuncArgs) matches Some(fa) ==> params_ok(fa))
    &&& forall|i: int|
        0 <= i < function_blocks(g).len() ==> block_ok(#[trigger] function_blocks(g)[i])
}

/// A function's return type; a function without one returns nothing.
pub open spec fn return_type_of(g: Group) -> Type {
    match g.group_of(QbeSyntax::Ty) {
        Some(t) => type_of_group(t),
        None => Type::Unit,
    }
}

/// A function's signature: its return type and the types of its named parameters.
pub open spec fn signature_of(g: Group) -> FunctionTypeView {
    let ps = function_params(g);
    FunctionTypeView { return_ty: return_type_of(g), args: Seq::new(ps.len(), |i: int| arg_type(ps[i])) }
}

/// The state after defining the first `k` parameters as temporaries of their types.
pub open spec fn params_check(ps: Seq<Group>, k: int, s: CheckModel) -> CheckModel
    decreases k,
{
    if k <= 0 || k > ps.len() {
        s
    } else {
        let s1 = params_check(ps, k - 1, s);
        let n = ps[k - 1].lexeme_of(QbeToken::Temp).unwrap();
        CheckModel { temps: s1.temps.insert(n.text@, (arg_type(ps[k - 1]), n.span)), ..s1 }
    }
}

/// The state after the first `k` blocks, in order.
pub open spec fn blocks_check(bs: Seq<Group>, k: int, s: CheckModel) -> CheckModel
    decreases k,
{
    if k <= 0 || k > bs.len() {
        s
    } else {
        block_check(bs[k - 1], blocks_check(bs, k - 1, s))
    }
}

/// The state after a function: its return type becomes current, its parameters are defined,
/// its blocks are checked in order, and then a name already defined as data or as a
/// function is reported while any other name is defined with the function's signature.
pub open spec fn function_check(g: Group, s: CheckModel) -> CheckModel {
    let s1 = CheckModel { return_ty: Some(return_type_of(g)), ..s };
    let ps = function_params(g);
    let s2 = params_check(ps, ps.len() as int, s1);
    let bs = function_blocks(g);
    let s3 = blocks_check(bs, bs.len() as int, s2);
    match g.lexeme_of(QbeToken::Global) {
        Some(n) => if s3.data_defs.contains_key(n.text@) || s3.function_defs.contains_key(n.text@) {
            with_error(s3, duplicate_message(n.text@), n.span)
        } else {
            CheckModel {
                function_defs: s3.function_defs.insert(n.text@, (signature_of(g), Some(n.span))),
                ..s3
            }
        },
        None => s3,
    }
}

/// A function checked a second time is reported as a duplicate at its name, after the
/// diagnostics of its body, and its first signature stays in the table.
pub proof fn lemma_function_redefinition(g: Group, s: CheckModel)
    requires
        function_ok(g),
        g.lexeme_of(QbeToken::Global) is Some,
    ensures
        ({
            let n = g.lexeme_of(QbeToken::Global).unwrap();
            let s1 = function_check(g, s);
            let s2 = function_check(g, s1);
            &&& s2.errors.last() == (CheckErrorView {
                message: duplicate_message(n.text@),
                span: n.span,
                severity: Severity::Error,
            })
            &&& s2.function_defs == s1.function_defs
        }),
{
    let n = g.lexeme_of(QbeToken::Global).unwrap();
    let s1 = function_check(g, s);
    let t1 = CheckModel { return_ty: Some(return_type_of(g)), ..s1 };
    let ps = function_params(g);
    let t2 = params_check(ps, ps.len() as int, t1);
    let bs = function_blocks(g);
    let t3 = blocks_check(bs, bs.len() as int, t2);
    lemma_params_check_grows(ps, ps.len() as int, t1);
    lemma_blocks_check_grows(bs, bs.len() as int, t2);
    lemma_params_check_keeps_functions(ps, ps.len() as int, t1);
    lemma_blocks_check_keeps_functions(bs, bs.len() as int, t2);
    assert(s1.data_defs.contains_key(n.text@) || s1.function_defs.contains_key(n.text@));
    assert(t3.data_defs.contains_key(n.text@) || t3.function_defs.contains_key(n.text@));
}

/// Defining parameters leaves the function table alone.
pub proof fn lemma_params_check_keeps_functions(ps: Seq<Group>, k: int, s: CheckModel)
    ensures
        params_check(ps, k, s).function_defs == s.function_defs,
    decreases k,
{
    if k > 0 && k <= ps.len() {
        lemma_params_check_keeps_functions(ps, k - 1, s);
    }
}

/// Checking blocks leaves the function table alone.
pub proof fn lemma_blocks_check_keeps_functions(bs: Seq<Group>, k: int, s: CheckModel)
    requires
        forall|j: int| 0 <= j < bs.len() ==> block_ok(#[trigger] bs[j]),
    ensures
        blocks_check(bs, k, s).function_defs == s.function_defs,
    decreases k,
{
    if k > 0 && k <= bs.len() {
        lemma_blocks_check_keeps_functions(bs, k - 1, s);
        assert(block_ok(bs[k - 1]));
        lemma_block_check_keeps_functions(bs[k - 1], blocks_check(bs, k - 1, s));
    }
}

/// Each group that `named_params` keeps is one of the first `k` groups and names a temporary.
pub proof fn lemma_named_params_from(gs: Seq<Group>, k: int, j: int)
    requires
        0 <= j < named_params(gs, k).len(),
    ensures
        exists|i: int|
            0 <= i < k && i < gs.len() && gs[i] == named_params(gs, k)[j] && gs[i].lexeme_of(
                QbeToken::Temp,
            ) is Some,
    decreases k,
{
    if k <= 0 || k > gs.len() {
    } else if gs[k - 1].lexeme_of(QbeToken::Temp) is Some {
        if j < named_params(gs, k - 1).len() {
            lemma_named_params_from(gs, k - 1, j);
        } else {
            assert(gs[k - 1] == named_params(gs, k)[j]);
        }
    } else {
        lemma_named_params_from(gs, k - 1, j);
    }
}

/// The named parameters of a readable function can be read and name their temporary.
pub proof fn lemma_params_readable(g: Group)
    requires
        function_ok(g),
    ensures
        forall|j: int|
            0 <= j < function_params(g).len() ==> arg_ok(#[trigger] function_params(g)[j])
                && function_params(g)[j].lexeme_of(QbeToken::Temp) is Some,
{
    match g.group_of(QbeSyntax::FuncArgs) {
        Some(fa) => {
            let gs = fa.groups_spec();
            assert forall|j: int| 0 <= j < function_params(g).len() implies arg_ok(
                #[trigger] function_params(g)[j],
            ) && function_params(g)[j].lexeme_of(QbeToken::Temp) is Some by {
                lemma_named_params_from(gs, gs.len() as int, j);
                let i = choose|i: int|
                    0 <= i < gs.len() as int && i < gs.len() && gs[i] == named_params(gs, gs.len() as int)[j]
                        && gs[i].lexeme_of(QbeToken::Temp) is Some;
                assert(gs[i].kind == QbeSyntax::FuncArg);
            }
        },
        None => {},
    }
}

/// A function an editor query can read.
pub open spec fn function_view_ok(g: Group) -> bool {
    &&& g.wf()
    &&& (g.group_of(QbeSyntax::FuncArgs) matches Some(fa) ==> params_ok(fa))
    &&& forall|i: int|
        0 <= i < function_blocks(g).len() ==> block_view_ok(#[trigger] function_blocks(g)[i])
}

/// The node of a function at an offset inside it: the node of the first named parameter
/// that has one, else of the first block that has one, else the function itself.
pub open spec fn function_at(g: Group, offset: usize) -> Option<NodeView> {
    if g.span_spec().has(offset) {
        match first_found(function_params(g), |a: Group| arg_at(a, offset)) {
            Some(v) => Some(v),
            None => match first_found(function_blocks(g), |b: Group| block_at(b, offset)) {
                Some(v) => Some(v),
                None => Some(NodeView::Function(g)),
            },
        }
    } else {
        None
    }
}

/// The named parameters of a function an editor query can read can be read.
pub proof fn lemma_view_params_readable(g: Group)
    requires
        function_view_ok(g),
    ensures
        forall|j: int|
            0 <= j < function_params(g).len() ==> arg_ok(#[trigger] function_params(g)[j])
                && function_params(g)[j].lexeme_of(QbeToken::Temp) is Some,
{
    match g.group_of(QbeSyntax::FuncArgs) {
        Some(fa) => {
            let gs = fa.groups_spec();
            assert forall|j: int| 0 <= j < function_params(g).len() implies arg_ok(
                #[trigger] function_params(g)[j],
            ) && function_params(g)[j].lexeme_of(QbeToken::Temp) is Some by {
                lemma_named_params_from(gs, gs.len() as int, j);
                let i = choose|i: int|
                    0 <= i < gs.len() as int && i < gs.len() && gs[i] == named_params(gs, gs.len() as int)[j]
                        && gs[i].lexeme_of(QbeToken::Temp) is Some;
                assert(gs[i].kind == QbeSyntax::FuncArg);
            }
        },
        None => {},
    }
}

impl<'a> LspItem<'a> for FunctionAst<'a> {
    open spec fn item_ok(&self) -> bool {
        function_view_ok(*self.0)
    }

    open spec fn at_spec(&self, offset: usize) -> Option<NodeView> {
        function_at(*self.0, offset)
    }

    fn at(&self, offset: usize) -> (r: Option<LspNode<'a>>) {
        if !self.0.span().contains(offset) {
            return None;
        }
        let args = self.args();
        let ghost ps = function_params(*self.0);
        let ghost f = |a: Group| arg_at(a, offset);
        proof {
            lemma_view_params_readable(*self.0);
        }
        let n = args.len();
        let mut i: usize = 0;
        assert(ps.skip(0) =~= ps);
        while i < n
            invariant
                ps == function_params(*self.0),
                f == (|a: Group| arg_at(a, offset)),
                n == args@.len(),
                n == ps.len(),
                i <= n,
                forall|j: int| 0 <= j < n ==> *(#[trigger] args@[j]).0 == ps[j],
                forall|j: int|
                    0 <= j < n ==> arg_ok(#[trigger] ps[j]) && ps[j].lexeme_of(QbeToken::Temp) is Some,
                first_found(ps, f) == first_found(ps.skip(i as int), f),
                self.0.span_spec().has(offset),
            decreases n - i,
        {
            assert(ps.skip(i as int).drop_first() =~= ps.skip(i + 1));
            assert(ps.skip(i as int)[0] == ps[i as int]);
            assert(arg_ok(ps[i as int]));
            let res = args[i].at(offset);
            if res.is_some() {
                return res;
            }
            i = i + 1;
        }
        assert(ps.skip(n as int) =~= Seq::<Group>::empty());
        let body = self.body();
        let ghost bs = function_blocks(*self.0);
        let ghost h = |b: Group| block_at(b, offset);
        let m = body.len();
        let mut k: usize = 0;
        assert(bs.skip(0) =~= bs);
        while k < m
            invariant
                bs == function_blocks(*self.0),
                h == (|b: Group| block_at(b, offset)),
                m == body@.len(),
                m == bs.len(),
                k <= m,
                forall|j: int| 0 <= j < m ==> *(#[trigger] body@[j]).0 == bs[j],
                forall|j: int| 0 <= j < m ==> block_view_ok(#[trigger] bs[j]),
                first_found(bs, h) == first_found(bs.skip(k as int), h),
                first_found(function_params(*self.0), |a: Group| arg_at(a, offset)) is None,
                self.0.span_spec().has(offset),
            decreases m - k,
        {
            assert(bs.skip(k as int).drop_first() =~= bs.skip(k + 1));
            assert(bs.skip(k as int)[0] == bs[k as int]);
            assert(block_view_ok(bs[k as int]));
            let res = body[k].at(offset);
            if res.is_some() {
                return res;
            }
            k = k + 1;
        }
        assert(bs.skip(m as int) =~= Seq::<Group>::empty());
        Some(LspNode::Function(*self))
    }
}

impl<'a> FunctionAst<'a> {
    /// The function's name.
    pub fn name(&self) -> (r: Option<&'a Lexeme>)
        ensures
            match r {
                Some(l) => self.0.lexeme_of(QbeToken::Global) == Some(*l),
                None => self.0.lexeme_of(QbeToken::Global) is None,
            },
    {
        self.0.token_by_kind(QbeToken::Global)
    }

    /// The function's return type group, if it has one.
    pub fn return_ty(&self) -> (r: Option<TypeAst<'a>>)
        ensures
            match r {
                Some(t) => self.0.group_of(QbeSyntax::Ty) == Some(*t.0),
                None => self.0.group_of(QbeSyntax::Ty) is None,
            },
    {
        match self.0.group_by_kind(QbeSyntax::Ty) {
            Some(g) => Some(TypeAst(g)),
            None => None,
        }
    }

    /// The parameters that name their temporary.
    pub fn args(&self) -> (r: Vec<ArgAst<'a>>)
        requires
            self.0.group_of(QbeSyntax::FuncArgs) matches Some(fa) ==> forall|i: int|
                0 <= i < fa.groups_spec().len() ==> (#[trigger] fa.groups_spec()[i]).kind
                    == QbeSyntax::FuncArg,
        ensures
            r@.len() == function_params(*self.0).len(),
            forall|i: int| 0 <= i < r@.len() ==> *(#[trigger] r@[i]).0 == function_params(*self.0)[i],
    {
        let mut r: Vec<ArgAst<'a>> = Vec::new();
        match self.0.group_by_kind(QbeSyntax::FuncArgs) {
            Some(args) => {
                let gs = args.groups();
                let ghost all = args.groups_spec();
                let n = gs.len();
                let mut i: usize = 0;
                while i < n
                    invariant
                        n == gs@.len(),
                        n == all.len(),
                        i <= n,
                        forall|j: int| 0 <= j < n ==> *gs@[j] == #[trigger] all[j],
                        forall|j: int| 0 <= j < n ==> (#[trigger] all[j]).kind == QbeSyntax::FuncArg,
                        r@.len() == named_params(all, i as int).len(),
                        forall|j: int|
                            0 <= j < r@.len() ==> *(#[trigger] r@[j]).0 == named_params(all, i as int)[j],
                    decreases n - i,
                {
                    assert(all[i as int].kind == QbeSyntax::FuncArg);
                    match ArgAst::try_from(gs[i]) {
                        Ok(a) => {
                            r.push(a);
                        },
                        Err(_) => {},
                    }
                    i = i + 1;
                }
            },
            None => {},
        }
        r
    }

    /// The blocks of the function's body.
    pub fn body(&self) -> (r: Vec<BlockAst<'a>>)
        ensures
            r@.len() == function_blocks(*self.0).len(),
            forall|i: int| 0 <= i < r@.len() ==> *(#[trigger] r@[i]).0 == function_blocks(*self.0)[i],
    {
        let mut r: Vec<BlockAst<'a>> = Vec::new();
        match self.0.group_by_kind(QbeSyntax::FuncBody) {
            Some(body) => {
                let gs = body.groups();
                let n = gs.len();
                let mut i: usize = 0;
                while i < n
                    invariant
                        n == gs@.len(),
                        n == body.groups_spec().len(),
                        i <= n,
                        forall|j: int| 0 <= j < n ==> *gs@[j] == #[trigger] body.groups_spec()[j],
                        r@.len() == i,
                        forall|j: int| 0 <= j < i ==> *(#[trigger] r@[j]).0 == body.groups_spec()[j],
                    decreases n - i,
                {
                    r.push(BlockAst(gs[i]));
                    i = i + 1;
                }
            },
            None => {},
        }
        r
    }

    /// Checks the function (see `function_check`).
    pub fn check(&self, state: &mut CheckState<'a>)
        requires
            function_ok(*self.0),
        ensures
            final(state)@ == function_check(*self.0, old(state)@),
    {
        let ret = match self.return_ty() {
            Some(t) => Type::from_type_ast(&t),
            None => Type::Unit,
        };
        state.return_ty = Some(ret.duplicate());
        let ghost start = state@;
        let mut def = FunctionType { return_ty: ret, args: Vec::new() };
        let args = self.args();
        let ghost ps = function_params(*self.0);
        proof {
            lemma_params_readable(*self.0);
        }
        let n = args.len();
        let mut i: usize = 0;
        while i < n
            invariant
                n == args@.len(),
                n == ps.len(),
                i <= n,
                forall|j: int| 0 <= j < n ==> *(#[trigger] args@[j]).0 == ps[j],
                forall|j: int|
                    0 <= j < n ==> arg_ok(#[trigger] ps[j]) && ps[j].lexeme_of(QbeToken::Temp) is Some,
                def@.return_ty == return_type_of(*self.0),
                def@.args == Seq::new(i as nat, |j: int| arg_type(ps[j])),
                state@ == params_check(ps, i as int, start),
            decreases n - i,
        {
            let arg = args[i];
            assert(arg_ok(ps[i as int]));
            let ty = Type::from_type_ast(&arg.ty());
            def.args.push(ty.duplicate());
            let name = arg.name();
            temp_insert(&mut state.temps, name.text.clone(), (ty, name.span));
            i = i + 1;
            assert(def@.args =~= Seq::new(i as nat, |j: int| arg_type(ps[j])));
        }
        assert(def@ =~= signature_of(*self.0));
        let ghost after_params = state@;
        let body = self.body();
        let ghost bs = function_blocks(*self.0);
        let m = body.len();
        let mut k: usize = 0;
        while k < m
            invariant
                m == body@.len(),
                m == bs.len(),
                k <= m,
                forall|j: int| 0 <= j < m ==> *(#[trigger] body@[j]).0 == bs[j],
                forall|j: int| 0 <= j < m ==> block_ok(#[trigger] bs[j]),
                state@ == blocks_check(bs, k as int, after_params),
            decreases m - k,
        {
            assert(block_ok(bs[k as int]));
            body[k].check(state);
            k = k + 1;
        }
        if let Some(name) = self.name() {
            let name = name.duplicate();
            if data_contains(&state.data_defs, &name.text) || function_contains(
                &state.function_defs,
                &name.text,
            ) {
                state.error(duplicate_message_text(&name.text), name.span);
            } else {
                function_insert(&mut state.function_defs, name.text, (def, Some(name.span)));
            }
        }
    }
}

} // verus!
