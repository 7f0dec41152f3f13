use vstd::prelude::*;

use im_rc::HashMap;

use crate::ast::common::ty::TypeAst;
use crate::ast::expr::{expr_lexeme, operand_check, ExprAst};
use crate::ast::instr::{lemma_map_keeps_arity, mapped, FunctionType, FunctionTypeView};
use crate::ast::tables::{function_entries, function_get, function_insert, new_function_table};
use crate::ast::growth::prefix_of;
use crate::ast::{with_error, CheckErrorView, CheckModel, CheckState, Severity};
use crate::semantic_analyze::{name_of_type, sub_type, type_of_group, Type};
use crate::span::Span;
use crate::syntax::{Group, Lexeme, QbeSyntax, QbeToken};
use crate::text::{arity_message, arity_message_text, mismatch_message, mismatch_message_text};

verus! {

/// A call instruction.
#[derive(Clone, Copy)]
pub struct CallAst<'a>(pub &'a Group);

/// An argument of a call: a type and, usually, an operand.
#[derive(Clone, Copy)]
pub struct CallArgAst<'a>(pub &'a Group);

/// The first `k` groups of `gs` that hold no `...` lexeme, in order.
pub open spec fn non_variadic(gs: Seq<Group>, k: int) -> Seq<Group>
    decreases k,
{
    if k <= 0 || k > gs.len() {
        seq![]
    } else if gs[k - 1].lexeme_of(QbeToken::Ellipsis) is None {
        non_variadic(gs, k - 1).push(gs[k - 1])
    } else {
        non_variadic(gs, k - 1)
    }
}

/// The argument groups of a call, if it has an argument list.
pub open spec fn call_args_of(g: Group) -> Option<Seq<Group>> {
    match g.group_of(QbeSyntax::CallArgs) {
        Some(c) => Some(non_variadic(c.groups_spec(), c.groups_spec().len() as int)),
        None => None,
    }
}

/// An argument group the checks can read: it names a type, and its operand, if any, is one.
pub open spec fn call_arg_ok(a: Group) -> bool {
    &&& a.wf()
    &&& a.group_of(QbeSyntax::Ty) is Some
    &&& (a.group_of(QbeSyntax::Expr) matches Some(e) ==> expr_lexeme(e) is Some)
}

/// Every argument group of a call that holds no `...` can be read.
pub open spec fn call_args_ok(g: Group) -> bool {
    match g.group_of(QbeSyntax::CallArgs) {
        Some(c) => forall|i: int|
            0 <= i < c.groups_spec().len() && (#[trigger] c.groups_spec()[i]).lexeme_of(
                QbeToken::Ellipsis,
            ) is None ==> call_arg_ok(c.groups_spec()[i]),
        None => true,
    }
}

/// The declared type of an argument group.
pub open spec fn arg_type(a: Group) -> Type {
    type_of_group(a.group_of(QbeSyntax::Ty).unwrap())
}

/// The state after checking an argument's operand against the argument's declared type.
pub open spec fn call_arg_check(a: Group, s: CheckModel) -> CheckModel {
    match a.group_of(QbeSyntax::Expr) {
        Some(e) => operand_check(expr_lexeme(e).unwrap(), arg_type(a), s),
        None => s,
    }
}

/// The state after checking the operands of the first `k` arguments, in order.
pub open spec fn call_args_check(args: Seq<Group>, k: int, s: CheckModel) -> CheckModel
    decreases k,
{
    if k <= 0 || k > args.len() {
        s
    } else {
        call_arg_check(args[k - 1], call_args_check(args, k - 1, s))
    }
}

/// The state after checking the first `k` arguments of a call against the argument types
/// `tys` of the callee: a declared type that may not stand where the callee expects its
/// argument is reported, so is an argument beyond the callee's, and after each argument a
/// callee that wants more arguments than the call has is reported at the callee's name.
pub open spec fn call_ref_args_check(
    args: Seq<Group>,
    tys: Seq<Type>,
    name_span: Span,
    k: int,
    s: CheckModel,
) -> CheckModel
    decreases k,
{
    if k <= 0 || k > args.len() {
        s
    } else {
        let s1 = call_ref_args_check(args, tys, name_span, k - 1, s);
        let a = args[k - 1];
        let at = arg_type(a);
        let s2 = if k - 1 < tys.len() {
            if sub_type(at, tys[k - 1]) {
                s1
            } else {
                with_error(s1, mismatch_message(name_of_type(tys[k - 1]), name_of_type(at)), a.span_spec())
            }
        } else {
            with_error(s1, "This argument is unexpected"@, a.span_spec())
        };
        if tys.len() > args.len() {
            with_error(s2, arity_message(tys.len(), args.len()), name_span)
        } else {
            s2
        }
    }
}

/// The state after checking a call, once all functions are known: the callee must be
/// defined, and the call's arguments must fit its signature with the type parameter fixed
/// to `expected`.
pub open spec fn call_check(g: Group, expected: Type, s: CheckModel) -> CheckModel {
    let n = g.lexeme_of(QbeToken::Global).unwrap();
    if s.function_defs.contains_key(n.text@) {
        let ty = mapped(s.function_defs[n.text@].0, expected);
        match call_args_of(g) {
            Some(args) => call_ref_args_check(args, ty.args, n.span, args.len() as int, s),
            None => s,
        }
    } else {
        with_error(s, "Function not found"@, n.span)
    }
}

/// Each group that `non_variadic` keeps is one of the first `k` groups and holds no `...`.
pub proof fn lemma_non_variadic_from(gs: Seq<Group>, k: int, j: int)
    requires
        0 <= j < non_variadic(gs, k).len(),
    ensures
        exists|i: int|
            0 <= i < k && i < gs.len() && gs[i] == non_variadic(gs, k)[j] && gs[i].lexeme_of(
                QbeToken::Ellipsis,
            ) is None,
    decreases k,
{
    if k <= 0 || k > gs.len() {
    } else if gs[k - 1].lexeme_of(QbeToken::Ellipsis) is None {
        if j < non_variadic(gs, k - 1).len() {
            lemma_non_variadic_from(gs, k - 1, j);
        } else {
            assert(gs[k - 1] == non_variadic(gs, k)[j]);
        }
    } else {
        lemma_non_variadic_from(gs, k - 1, j);
    }
}

/// The arguments of a call whose argument groups can be read can each be read.
pub proof fn lemma_call_args_readable(g: Group)
    requires
        call_args_ok(g),
        call_args_of(g) is Some,
    ensures
        forall|j: int|
            0 <= j < call_args_of(g).unwrap().len() ==> call_arg_ok(
                #[trigger] call_args_of(g).unwrap()[j],
            ),
{
    let c = g.group_of(QbeSyntax::CallArgs).unwrap();
    let gs = c.groups_spec();
    assert forall|j: int|
        0 <= j < call_args_of(g).unwrap().len() implies call_arg_ok(
        #[trigger] call_args_of(g).unwrap()[j],
    ) by {
        lemma_non_variadic_from(gs, gs.len() as int, j);
        let i = choose|i: int|
            0 <= i < gs.len() as int && i < gs.len() && gs[i] == non_variadic(gs, gs.len() as int)[j]
                && gs[i].lexeme_of(QbeToken::Ellipsis) is None;
        assert(call_arg_ok(gs[i]));
    }
}

/// The functions every program may call without defining them.
pub open spec fn default_function_table() -> Map<Seq<char>, (FunctionTypeView, Option<Span>)> {
    Map::empty().insert(
        "$memcpy"@,
        (FunctionTypeView { return_ty: Type::Long, args: seq![Type::Long, Type::Long, Type::Long] }, None),
    ).insert(
        "$free"@,
        (FunctionTypeView { return_ty: Type::Unit, args: seq![Type::Long] }, None),
    ).insert("$malloc"@, (FunctionTypeView { return_ty: Type::Unit, args: seq![Type::Long] }, None))
}

/// A table of the functions every program may call without defining them (see
/// `default_function_table`).
pub fn default_functions() -> (r: HashMap<String, (FunctionType, Option<Span>)>)
    ensures
        function_entries(r) == default_function_table(),
{
    let mut res = new_function_table();
    let memcpy = FunctionType { return_ty: Type::Long, args: vec![Type::Long, Type::Long, Type::Long] };
    assert(memcpy@.args =~= seq![Type::Long, Type::Long, Type::Long]);
    function_insert(&mut res, String::from_str("$memcpy"), (memcpy, None));
    let free = FunctionType { return_ty: Type::Unit, args: vec![Type::Long] };
    assert(free@.args =~= seq![Type::Long]);
    function_insert(&mut res, String::from_str("$free"), (free, None));
    let malloc = FunctionType { return_ty: Type::Unit, args: vec![Type::Long] };
    assert(malloc@.args =~= seq![Type::Long]);
    function_insert(&mut res, String::from_str("$malloc"), (malloc, None));
    assert(function_entries(res) =~= default_function_table());
    res
}

impl<'a> CallAst<'a> {
    /// Checks the call once all functions are known (see `call_check`).
    pub fn check(&self, expected: &Type, state: &mut CheckState)
        requires
            self.0.lexeme_of(QbeToken::Global) is Some,
            call_args_ok(*self.0),
        ensures
            final(state)@ == call_check(*self.0, *expected, old(state)@),
    {
        let name = self.name().unwrap();
        let ty = match function_get(&state.function_defs, &name.text) {
            Some(entry) => entry.0.map(expected),
            None => {
                state.error(String::from_str("Function not found"), name.span);
                return;
            },
        };
        match self.args() {
            Some(args) => {
                let ghost all = call_args_of(*self.0).unwrap();
                proof {
                    lemma_call_args_readable(*self.0);
                }
                let n = args.len();
                let mut i: usize = 0;
                while i < n
                    invariant
                        n == args@.len(),
                        n == all.len(),
                        i <= n,
                        forall|j: int| 0 <= j < n ==> *(#[trigger] args@[j]).0 == all[j],
                        forall|j: int| 0 <= j < n ==> call_arg_ok(#[trigger] all[j]),
                        state@ == call_ref_args_check(all, ty@.args, name.span, i as int, old(state)@),
                    decreases n - i,
                {
                    let arg = args[i];
                    assert(call_arg_ok(all[i as int]));
                    let arg_ty = Type::from_type_ast(&arg.ty());
                    if i < ty.args.len() {
                        if !arg_ty.is_sub_type_of(&ty.args[i]) {
                            let message = mismatch_message_text(&ty.args[i].name(), &arg_ty.name());
                            state.error(message, arg.0.span());
                        }
                    } else {
                        state.error(String::from_str("This argument is unexpected"), arg.0.span());
                    }
                    if ty.args.len() > n {
                        state.error(arity_message_text(ty.args.len(), n), name.span);
                    }
                    i = i + 1;
                }
            },
            None => {},
        }
    }


    /// The callee's name.
    pub fn name(&self) -> (r: Option<&'a Lexeme>)
        ensures
            match r {
                Some(l) => self.0.lexeme_of(QbeToken::Global) == Some(*l),
                None => self.0.lexeme_of(QbeToken::Global) is None,
            },
    {
        self.0.token_by_kind(QbeToken::Global)
    }

    /// The arguments without a `...`, if the call has an argument list.
    pub fn args(&self) -> (r: Option<Vec<CallArgAst<'a>>>)
        ensures
            match r {
                Some(v) => call_args_of(*self.0) matches Some(args) && v@.len() == args.len()
                    && forall|i: int| 0 <= i < v@.len() ==> *(#[trigger] v@[i]).0 == args[i],
                None => call_args_of(*self.0) is None,
            },
    {
        match self.0.group_by_kind(QbeSyntax::CallArgs) {
            Some(args) => {
                let gs = args.groups();
                let ghost all = args.groups_spec();
                let mut r: Vec<CallArgAst<'a>> = Vec::new();
                let n = gs.len();
                let mut i: usize = 0;
                while i < n
                    invariant
                        n == gs@.len(),
                        n == all.len(),
                        i <= n,
                        forall|j: int| 0 <= j < n ==> *gs@[j] == #[trigger] all[j],
                        r@.len() == non_variadic(all, i as int).len(),
                        forall|j: int|
                            0 <= j < r@.len() ==> *(#[trigger] r@[j]).0 == non_variadic(all, i as int)[j],
                    decreases n - i,
                {
                    let a = gs[i];
                    if a.token_by_kind(QbeToken::Ellipsis).is_none() {
                        r.push(CallArgAst(a));
                    }
                    i = i + 1;
                }
                Some(r)
            },
            None => None,
        }
    }
}

impl<'a> CallArgAst<'a> {
    /// The argument's type group.
    pub fn ty(&self) -> (r: TypeAst<'a>)
        requires
            self.0.group_of(QbeSyntax::Ty) is Some,
        ensures
            Some(*r.0) == self.0.group_of(QbeSyntax::Ty),
    {
        TypeAst(self.0.group_by_kind(QbeSyntax::Ty).unwrap())
    }

    /// The argument's operand, if it has one.
    pub fn expr(&self) -> (r: Option<ExprAst<'a>>)
        requires
            self.0.group_of(QbeSyntax::Expr) matches Some(e) ==> expr_lexeme(e) is Some,
        ensures
            match r {
                Some(e) => self.0.group_of(QbeSyntax::Expr) matches Some(g) && expr_lexeme(g) == Some(
                    e.lexeme_spec(),
                ) && e.kind_agrees(),
                None => self.0.group_of(QbeSyntax::Expr) is None,
            },
    {
        match self.0.group_by_kind(QbeSyntax::Expr) {
            Some(g) => match ExprAst::try_from(g) {
                Ok(e) => Some(e),
                Err(_) => None,
            },
            None => None,
        }
    }

    /// Checks the argument's operand against the argument's declared type.
    pub fn check(&self, state: &mut CheckState)
        requires
            call_arg_ok(*self.0),
        ensures
            final(state)@ == call_arg_check(*self.0, old(state)@),
    {
        let ty = Type::from_type_ast(&self.ty());
        if let Some(expr) = self.expr() {
            expr.check(&ty, state);
        }
    }
}

/// The error that reports an argument beyond those the callee takes.
pub open spec fn unexpected_argument(a: Group) -> CheckErrorView {
    CheckErrorView { message: "This argument is unexpected"@, span: a.span_spec(), severity: Severity::Error }
}

proof fn lemma_surplus_arguments_reported_upto(
    args: Seq<Group>,
    tys: Seq<Type>,
    name_span: Span,
    k: int,
    s: CheckModel,
)
    requires
        0 <= k <= args.len(),
    ensures
        ({
            let r = call_ref_args_check(args, tys, name_span, k, s);
            &&& prefix_of(s.errors, r.errors)
            &&& forall|j: int|
                #![trigger args[j]]
                tys.len() <= j < k ==> exists|i: int|
                    s.errors.len() <= i < r.errors.len() && #[trigger] r.errors[i] == unexpected_argument(
                        args[j],
                    )
            &&& r.errors.len() >= s.errors.len() + (k - tys.len())
        }),
    decreases k,
{
    if k > 0 {
        lemma_surplus_arguments_reported_upto(args, tys, name_span, k - 1, s);
        let s1 = call_ref_args_check(args, tys, name_span, k - 1, s);
        let r = call_ref_args_check(args, tys, name_span, k, s);
        assert(prefix_of(s1.errors, r.errors));
        assert forall|j: int| #![trigger args[j]] tys.len() <= j < k implies exists|i: int|
            s.errors.len() <= i < r.errors.len() && #[trigger] r.errors[i] == unexpected_argument(
                args[j],
            ) by {
            if j < k - 1 {
                let i = choose|i: int|
                    s.errors.len() <= i < s1.errors.len() && #[trigger] s1.errors[i] == unexpected_argument(
                        args[j],
                    );
                assert(r.errors[i] == s1.errors[i]);
            } else {
                assert(r.errors[s1.errors.len() as int] == unexpected_argument(args[j]));
            }
        }
    }
}

/// A call with more arguments than its callee takes is reported once for each argument
/// beyond the callee's, at that argument; the diagnostics made before stay in front.
pub proof fn lemma_call_reports_surplus_arguments(g: Group, expected: Type, s: CheckModel)
    requires
        g.lexeme_of(QbeToken::Global) is Some,
        s.function_defs.contains_key(g.lexeme_of(QbeToken::Global).unwrap().text@),
        call_args_of(g) is Some,
    ensures
        ({
            let args = call_args_of(g).unwrap();
            let takes = s.function_defs[g.lexeme_of(QbeToken::Global).unwrap().text@].0.args.len();
            let t = call_check(g, expected, s);
            &&& prefix_of(s.errors, t.errors)
            &&& forall|j: int|
                #![trigger args[j]]
                takes <= j < args.len() ==> exists|i: int|
                    s.errors.len() <= i < t.errors.len() && #[trigger] t.errors[i] == unexpected_argument(
                        args[j],
                    )
            &&& t.errors.len() >= s.errors.len() + (args.len() - takes)
        }),
{
    let n = g.lexeme_of(QbeToken::Global).unwrap();
    let f = s.function_defs[n.text@].0;
    lemma_map_keeps_arity(f, expected);
    let args = call_args_of(g).unwrap();
    lemma_surplus_arguments_reported_upto(args, mapped(f, expected).args, n.span, args.len() as int, s);
}

} // verus!
