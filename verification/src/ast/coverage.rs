//! The node that an editor query finds at an offset covers that offset.
use vstd::prelude::*;

use crate::ast::common::ty::type_at;
use crate::ast::decl::arg::arg_at;
use crate::ast::decl::block::block_at;
use crate::ast::decl::decl_at;
use crate::ast::decl::function::{function_at, function_blocks, function_params};
use crate::ast::instr::{first_operand_at, instr_at, operands_of};
use crate::ast::stmt::assign::assign_at;
use crate::ast::stmt::stmt_at;
use crate::ast::{decls_of, first_found, program_at, NodeView};
use crate::syntax::{Group, Lexeme, QbeSyntax, QbeToken};

verus! {

/// The node covers the offset: the group's or lexeme's range holds it. The root covers
/// every offset.
pub open spec fn covers(v: NodeView, offset: usize) -> bool {
    match v {
        NodeView::Root(_) => true,
        NodeView::Function(g) => g.span_spec().has(offset),
        NodeView::FunctionParam(l) => l.span.has(offset),
        NodeView::Instr(g) => g.span_spec().has(offset),
        NodeView::Assign(g) => g.span_spec().has(offset),
        NodeView::Arg(g) => g.span_spec().has(offset),
        NodeView::Expr(_, l) => l.span.has(offset),
        NodeView::Type(g) => g.span_spec().has(offset),
        NodeView::Block(g) => g.span_spec().has(offset),
        NodeView::Label(l) => l.span.has(offset),
    }
}

/// Nothing was found, or what was found covers the offset.
pub open spec fn found_covers(r: Option<NodeView>, offset: usize) -> bool {
    match r {
        Some(v) => covers(v, offset),
        None => true,
    }
}

/// What `first_found` finds is something `f` found.
pub proof fn lemma_first_found_covers(gs: Seq<Group>, f: spec_fn(Group) -> Option<NodeView>, offset: usize)
    requires
        forall|i: int| 0 <= i < gs.len() ==> found_covers(#[trigger] f(gs[i]), offset),
    ensures
        found_covers(first_found(gs, f), offset),
    decreases gs.len(),
{
    if gs.len() > 0 {
        assert(found_covers(f(gs[0]), offset));
        assert forall|i: int| 0 <= i < gs.drop_first().len() implies found_covers(#[trigger] f(gs.drop_first()[i]), offset) by {
            assert(gs.drop_first()[i] == gs[i + 1]);
        }
        lemma_first_found_covers(gs.drop_first(), f, offset);
    }
}

proof fn lemma_first_operand_covers(ops: Seq<Lexeme>, offset: usize)
    ensures
        first_operand_at(ops, offset) matches Some(l) ==> l.span.has(offset),
    decreases ops.len(),
{
    if ops.len() > 0 {
        lemma_first_operand_covers(ops.drop_first(), offset);
    }
}

pub proof fn lemma_instr_at_covers(g: Group, offset: usize)
    ensures
        found_covers(instr_at(g, offset), offset),
{
    lemma_first_operand_covers(operands_of(g), offset);
}

pub proof fn lemma_stmt_at_covers(g: Group, offset: usize)
    ensures
        found_covers(stmt_at(g, offset), offset),
{
    if g.kind == QbeSyntax::Assignment {
        match g.group_of(QbeSyntax::Instr) {
            Some(i) => lemma_instr_at_covers(i, offset),
            None => {},
        }
        assert(found_covers(assign_at(g, offset), offset));
    } else {
        lemma_instr_at_covers(g, offset);
    }
}

pub proof fn lemma_block_at_covers(g: Group, offset: usize)
    ensures
        found_covers(block_at(g, offset), offset),
{
    let gs = g.groups_spec();
    let f = |c: Group| stmt_at(c, offset);
    assert forall|i: int| 0 <= i < gs.len() implies found_covers(#[trigger] f(gs[i]), offset) by {
        lemma_stmt_at_covers(gs[i], offset);
    }
    lemma_first_found_covers(gs, f, offset);
}

/// The node that a query on a function finds at an offset covers the offset: it is the
/// function itself, a parameter, a type, a label, a block, a statement or an operand, and
/// its range holds the offset.
pub proof fn lemma_function_at_covers(g: Group, offset: usize)
    ensures
        found_covers(function_at(g, offset), offset),
{
    let ps = function_params(g);
    let f = |a: Group| arg_at(a, offset);
    assert forall|i: int| 0 <= i < ps.len() implies found_covers(#[trigger] f(ps[i]), offset) by {
        let a = ps[i];
        assert(found_covers(type_at(a.group_of(QbeSyntax::Ty).unwrap(), offset), offset));
    }
    lemma_first_found_covers(ps, f, offset);
    let bs = function_blocks(g);
    let h = |b: Group| block_at(b, offset);
    assert forall|i: int| 0 <= i < bs.len() implies found_covers(#[trigger] h(bs[i]), offset) by {
        lemma_block_at_covers(bs[i], offset);
    }
    lemma_first_found_covers(bs, h, offset);
}

/// The node that a query on a program finds at an offset covers the offset; only the root,
/// found where no declaration has a node, may lie elsewhere.
pub proof fn lemma_program_at_covers(root: Group, offset: usize)
    ensures
        found_covers(program_at(root, offset), offset),
        program_at(root, offset) is Some,
{
    let ds = decls_of(root);
    let f = |d: Group| decl_at(d, offset);
    assert forall|i: int| 0 <= i < ds.len() implies found_covers(#[trigger] f(ds[i]), offset) by {
        lemma_function_at_covers(ds[i], offset);
    }
    lemma_first_found_covers(ds, f, offset);
}

} // verus!
