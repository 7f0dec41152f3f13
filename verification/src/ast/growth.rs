//! Checking only ever adds: diagnostics and recorded calls are appended, definitions of
//! globals are never removed.
use vstd::prelude::*;

use crate::ast::decl::block::{block_check, block_ok, stmts_check};
use crate::ast::decl::data::data_check;
use crate::ast::decl::function::{blocks_check, function_check, function_ok, params_check, function_params, function_blocks};
use crate::ast::decl::{decl_check, decl_ok};
use crate::ast::expr::{operand_check, operand_type};
use crate::ast::instr::call::{call_arg_check, call_args_check, call_args_ok, call_check, call_ref_args_check};
use crate::ast::instr::{first_word, instr_check, instr_ok, operands_check, operands_of, surplus_operands};
use crate::ast::stmt::assign::{assign_check, assign_ok};
use crate::ast::stmt::{stmt_check, stmt_ok};
use crate::ast::{cleared_locals, CheckModel};
use crate::semantic_analyze::Type;
use crate::span::Span;
use crate::syntax::{Group, Lexeme, QbeSyntax, QbeToken};

verus! {

/// `a` is the start of `b`.
pub open spec fn prefix_of<A>(a: Seq<A>, b: Seq<A>) -> bool {
    a.len() <= b.len() && forall|i: int| 0 <= i < a.len() ==> #[trigger] a[i] == b[i]
}

/// A call recorded for a later check names its callee and its arguments can be read.
pub open spec fn call_ref_ok(g: Group) -> bool {
    g.lexeme_of(QbeToken::Global) is Some && call_args_ok(g)
}

/// Every recorded call can be checked later.
pub open spec fn refs_ok(refs: Seq<(Group, Type)>) -> bool {
    forall|i: int| 0 <= i < refs.len() ==> call_ref_ok(#[trigger] refs[i].0)
}

/// `t` extends `s`: the diagnostics and recorded calls of `s` start those of `t`, each call
/// recorded since can be checked, and every global name defined in `s` is defined in `t`.
pub open spec fn grows(s: CheckModel, t: CheckModel) -> bool {
    &&& prefix_of(s.errors, t.errors)
    &&& prefix_of(s.function_refs, t.function_refs)
    &&& forall|i: int|
        s.function_refs.len() <= i < t.function_refs.len() ==> call_ref_ok(
            #[trigger] t.function_refs[i].0,
        )
    &&& s.function_defs.dom().subset_of(t.function_defs.dom())
    &&& s.data_defs.dom().subset_of(t.data_defs.dom())
}

pub proof fn lemma_grows_trans(a: CheckModel, b: CheckModel, c: CheckModel)
    requires
        grows(a, b),
        grows(b, c),
    ensures
        grows(a, c),
{
    assert forall|i: int|
        a.function_refs.len() <= i < c.function_refs.len() implies call_ref_ok(
        #[trigger] c.function_refs[i].0,
    ) by {
        if i < b.function_refs.len() {
            assert(b.function_refs[i] == c.function_refs[i]);
        }
    }
    assert forall|i: int| 0 <= i < a.errors.len() implies #[trigger] a.errors[i] == c.errors[i] by {
        assert(a.errors[i] == b.errors[i]);
    }
    assert forall|i: int| 0 <= i < a.function_refs.len() implies #[trigger] a.function_refs[i]
        == c.function_refs[i] by {
        assert(a.function_refs[i] == b.function_refs[i]);
    }
}

/// Recorded calls that could be checked still can.
pub proof fn lemma_grows_refs_ok(s: CheckModel, t: CheckModel)
    requires
        grows(s, t),
        refs_ok(s.function_refs),
    ensures
        refs_ok(t.function_refs),
{
    assert forall|i: int| 0 <= i < t.function_refs.len() implies call_ref_ok(
        #[trigger] t.function_refs[i].0,
    ) by {
        if i < s.function_refs.len() {
            assert(s.function_refs[i] == t.function_refs[i]);
        }
    }
}

pub proof fn lemma_operand_check_grows(l: Lexeme, expected: Type, s: CheckModel)
    ensures
        grows(s, operand_type(l, s).1),
        grows(s, operand_check(l, expected, s)),
{
}

pub proof fn lemma_call_args_check_grows(args: Seq<Group>, k: int, s: CheckModel)
    ensures
        grows(s, call_args_check(args, k, s)),
    decreases k,
{
    if k <= 0 || k > args.len() {
    } else {
        let s1 = call_args_check(args, k - 1, s);
        lemma_call_args_check_grows(args, k - 1, s);
        let a = args[k - 1];
        match a.group_of(QbeSyntax::Expr) {
            Some(e) => {
                lemma_operand_check_grows(crate::ast::expr::expr_lexeme(e).unwrap(), crate::ast::instr::call::arg_type(a), s1);
            },
            None => {},
        }
        lemma_grows_trans(s, s1, call_args_check(args, k, s));
    }
}

pub proof fn lemma_operands_check_grows(ops: Seq<Lexeme>, tys: Seq<Type>, k: int, s: CheckModel)
    ensures
        grows(s, operands_check(ops, tys, k, s)),
    decreases k,
{
    if k <= 0 || k > ops.len() {
    } else {
        let s1 = operands_check(ops, tys, k - 1, s);
        lemma_operands_check_grows(ops, tys, k - 1, s);
        if k - 1 < tys.len() {
            lemma_operand_check_grows(ops[k - 1], tys[k - 1], s1);
        }
        lemma_grows_trans(s, s1, operands_check(ops, tys, k, s));
    }
}

pub proof fn lemma_surplus_operands_grows(ops: Seq<Lexeme>, k: int, s: CheckModel)
    ensures
        grows(s, surplus_operands(ops, k, s)),
    decreases k,
{
    if k <= 1 || k > ops.len() {
    } else {
        lemma_surplus_operands_grows(ops, k - 1, s);
        lemma_grows_trans(s, surplus_operands(ops, k - 1, s), surplus_operands(ops, k, s));
    }
}

pub proof fn lemma_instr_check_grows(g: Group, expected: Type, s: CheckModel)
    requires
        instr_ok(g),
    ensures
        grows(s, instr_check(g, expected, s)),
{
    let w = first_word(g.children@).unwrap();
    let t = instr_check(g, expected, s);
    if w.kind == QbeToken::Call {
        let s1 = match crate::ast::instr::call::call_args_of(g) {
            Some(args) => call_args_check(args, args.len() as int, s),
            None => s,
        };
        match crate::ast::instr::call::call_args_of(g) {
            Some(args) => lemma_call_args_check_grows(args, args.len() as int, s),
            None => {},
        }
        if g.lexeme_of(QbeToken::Global) is Some {
            assert(grows(s1, t));
        }
        lemma_grows_trans(s, s1, t);
    } else if w.kind == QbeToken::Ret {
        let ops = operands_of(g);
        match s.return_ty {
            Some(ret) => if ops.len() > 0 {
                lemma_operand_check_grows(ops[0], ret, s);
                lemma_surplus_operands_grows(ops, ops.len() as int, operand_check(ops[0], ret, s));
                lemma_grows_trans(s, operand_check(ops[0], ret, s), t);
            },
            None => {},
        }
    } else {
        match crate::ast::instr::instruction_signature(w.kind) {
            Some(def) => {
                let ty = crate::ast::instr::mapped(def, expected);
                let ops = operands_of(g);
                let s1 = operands_check(ops, ty.args, ops.len() as int, s);
                lemma_operands_check_grows(ops, ty.args, ops.len() as int, s);
                lemma_grows_trans(s, s1, t);
            },
            None => {},
        }
    }
}

pub proof fn lemma_assign_check_grows(g: Group, s: CheckModel)
    requires
        assign_ok(g),
    ensures
        grows(s, assign_check(g, s)),
{
    let ty = crate::semantic_analyze::assigned_type(crate::ast::stmt::assign::assign_type_lexeme(g));
    let n = g.lexeme_of(QbeToken::Temp).unwrap();
    let s1 = CheckModel { temps: s.temps.insert(n.text@, (ty, g.span_spec())), ..s };
    match g.group_of(QbeSyntax::Instr) {
        Some(i) => {
            lemma_instr_check_grows(i, ty, s1);
            lemma_grows_trans(s, s1, assign_check(g, s));
        },
        None => {},
    }
}

pub proof fn lemma_stmts_check_grows(stmts: Seq<Group>, k: int, s: CheckModel)
    requires
        forall|j: int| 0 <= j < stmts.len() ==> stmt_ok(#[trigger] stmts[j]),
    ensures
        grows(s, stmts_check(stmts, k, s)),
    decreases k,
{
    if k <= 0 || k > stmts.len() {
    } else {
        let s1 = stmts_check(stmts, k - 1, s);
        lemma_stmts_check_grows(stmts, k - 1, s);
        let g = stmts[k - 1];
        assert(stmt_ok(g));
        if g.kind == QbeSyntax::Assignment {
            lemma_assign_check_grows(g, s1);
        } else {
            lemma_instr_check_grows(g, Type::Unknown, s1);
        }
        lemma_grows_trans(s, s1, stmts_check(stmts, k, s));
    }
}

pub proof fn lemma_block_check_grows(g: Group, s: CheckModel)
    requires
        block_ok(g),
    ensures
        grows(s, block_check(g, s)),
{
    let l = g.lexeme_of(QbeToken::Label).unwrap();
    let s1 = if s.labels.contains_key(l.text@) {
        crate::ast::with_error(s, "Duplicate label name"@, l.span)
    } else {
        CheckModel { labels: s.labels.insert(l.text@, l.span), ..s }
    };
    lemma_stmts_check_grows(g.groups_spec(), g.groups_spec().len() as int, s1);
    lemma_grows_trans(s, s1, block_check(g, s));
}

pub proof fn lemma_blocks_check_grows(bs: Seq<Group>, k: int, s: CheckModel)
    requires
        forall|j: int| 0 <= j < bs.len() ==> block_ok(#[trigger] bs[j]),
    ensures
        grows(s, blocks_check(bs, k, s)),
    decreases k,
{
    if k <= 0 || k > bs.len() {
    } else {
        let s1 = blocks_check(bs, k - 1, s);
        lemma_blocks_check_grows(bs, k - 1, s);
        assert(block_ok(bs[k - 1]));
        lemma_block_check_grows(bs[k - 1], s1);
        lemma_grows_trans(s, s1, blocks_check(bs, k, s));
    }
}

pub proof fn lemma_params_check_grows(ps: Seq<Group>, k: int, s: CheckModel)
    ensures
        grows(s, params_check(ps, k, s)),
    decreases k,
{
    if k <= 0 || k > ps.len() {
    } else {
        lemma_params_check_grows(ps, k - 1, s);
        lemma_grows_trans(s, params_check(ps, k - 1, s), params_check(ps, k, s));
    }
}

pub proof fn lemma_function_check_grows(g: Group, s: CheckModel)
    requires
        function_ok(g),
    ensures
        grows(s, function_check(g, s)),
{
    let s1 = CheckModel { return_ty: Some(crate::ast::decl::function::return_type_of(g)), ..s };
    let ps = function_params(g);
    let s2 = params_check(ps, ps.len() as int, s1);
    let bs = function_blocks(g);
    let s3 = blocks_check(bs, bs.len() as int, s2);
    lemma_params_check_grows(ps, ps.len() as int, s1);
    lemma_grows_trans(s, s1, s2);
    lemma_blocks_check_grows(bs, bs.len() as int, s2);
    lemma_grows_trans(s, s2, s3);
    lemma_grows_trans(s, s3, function_check(g, s));
}

pub proof fn lemma_decl_check_grows(g: Group, s: CheckModel)
    requires
        decl_ok(g),
    ensures
        grows(s, decl_check(g, s)),
        grows(s, cleared_locals(decl_check(g, s))),
{
    if g.kind == QbeSyntax::FunctionDef {
        lemma_function_check_grows(g, s);
    }
    let t = decl_check(g, s);
    assert(grows(t, cleared_locals(t)));
    lemma_grows_trans(s, t, cleared_locals(t));
}

pub proof fn lemma_call_args_keeps_functions(args: Seq<Group>, k: int, s: CheckModel)
    ensures
        call_args_check(args, k, s).function_defs == s.function_defs,
        call_args_check(args, k, s).temps == s.temps,
    decreases k,
{
    if k > 0 && k <= args.len() {
        lemma_call_args_keeps_functions(args, k - 1, s);
    }
}

pub proof fn lemma_operands_keeps_functions(ops: Seq<Lexeme>, tys: Seq<Type>, k: int, s: CheckModel)
    ensures
        operands_check(ops, tys, k, s).function_defs == s.function_defs,
        operands_check(ops, tys, k, s).temps == s.temps,
    decreases k,
{
    if k > 0 && k <= ops.len() {
        lemma_operands_keeps_functions(ops, tys, k - 1, s);
    }
}

pub proof fn lemma_surplus_keeps_functions(ops: Seq<Lexeme>, k: int, s: CheckModel)
    ensures
        surplus_operands(ops, k, s).function_defs == s.function_defs,
        surplus_operands(ops, k, s).temps == s.temps,
    decreases k,
{
    if k > 1 && k <= ops.len() {
        lemma_surplus_keeps_functions(ops, k - 1, s);
    }
}

/// An instruction leaves the function table alone.
pub proof fn lemma_instr_keeps_functions(g: Group, expected: Type, s: CheckModel)
    ensures
        instr_check(g, expected, s).function_defs == s.function_defs,
        instr_check(g, expected, s).temps == s.temps,
{
    let w = first_word(g.children@).unwrap();
    if w.kind == QbeToken::Call {
        match crate::ast::instr::call::call_args_of(g) {
            Some(args) => lemma_call_args_keeps_functions(args, args.len() as int, s),
            None => {},
        }
    } else if w.kind == QbeToken::Ret {
        let ops = operands_of(g);
        match s.return_ty {
            Some(ret) => if ops.len() > 0 {
                lemma_surplus_keeps_functions(ops, ops.len() as int, operand_check(ops[0], ret, s));
            },
            None => {},
        }
    } else {
        match crate::ast::instr::instruction_signature(w.kind) {
            Some(def) => {
                let ty = crate::ast::instr::mapped(def, expected);
                let ops = operands_of(g);
                lemma_operands_keeps_functions(ops, ty.args, ops.len() as int, s);
            },
            None => {},
        }
    }
}

pub proof fn lemma_stmts_keeps_functions(stmts: Seq<Group>, k: int, s: CheckModel)
    ensures
        stmts_check(stmts, k, s).function_defs == s.function_defs,
    decreases k,
{
    if k > 0 && k <= stmts.len() {
        lemma_stmts_keeps_functions(stmts, k - 1, s);
        let g = stmts[k - 1];
        let s1 = stmts_check(stmts, k - 1, s);
        if g.kind == QbeSyntax::Assignment {
            let ty = crate::semantic_analyze::assigned_type(crate::ast::stmt::assign::assign_type_lexeme(g));
            let n = g.lexeme_of(QbeToken::Temp).unwrap();
            let t = CheckModel { temps: s1.temps.insert(n.text@, (ty, g.span_spec())), ..s1 };
            match g.group_of(QbeSyntax::Instr) {
                Some(i) => lemma_instr_keeps_functions(i, ty, t),
                None => {},
            }
        } else {
            lemma_instr_keeps_functions(g, Type::Unknown, s1);
        }
    }
}

/// A block leaves the function table alone.
pub proof fn lemma_block_check_keeps_functions(g: Group, s: CheckModel)
    ensures
        block_check(g, s).function_defs == s.function_defs,
{
    let l = g.lexeme_of(QbeToken::Label).unwrap();
    let s1 = if s.labels.contains_key(l.text@) {
        crate::ast::with_error(s, "Duplicate label name"@, l.span)
    } else {
        CheckModel { labels: s.labels.insert(l.text@, l.span), ..s }
    };
    lemma_stmts_keeps_functions(g.groups_spec(), g.groups_spec().len() as int, s1);
}

pub proof fn lemma_call_check_grows(g: Group, expected: Type, s: CheckModel)
    ensures
        grows(s, call_check(g, expected, s)),
{
    let n = g.lexeme_of(QbeToken::Global).unwrap();
    if s.function_defs.contains_key(n.text@) {
        let ty = crate::ast::instr::mapped(s.function_defs[n.text@].0, expected);
        match crate::ast::instr::call::call_args_of(g) {
            Some(args) => lemma_call_ref_args_check_grows(args, ty.args, n.span, args.len() as int, s),
            None => {},
        }
    }
}

pub proof fn lemma_call_ref_args_check_grows(
    args: Seq<Group>,
    tys: Seq<Type>,
    name_span: Span,
    k: int,
    s: CheckModel,
)
    ensures
        grows(s, call_ref_args_check(args, tys, name_span, k, s)),
    decreases k,
{
    if k <= 0 || k > args.len() {
    } else {
        let s1 = call_ref_args_check(args, tys, name_span, k - 1, s);
        lemma_call_ref_args_check_grows(args, tys, name_span, k - 1, s);
        let t = call_ref_args_check(args, tys, name_span, k, s);
        assert(grows(s1, t));
        lemma_grows_trans(s, s1, t);
    }
}

} // verus!
