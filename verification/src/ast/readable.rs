use vstd::prelude::*;

use crate::ast::decl::arg::arg_ok;
use crate::ast::decl::block::{block_ok, block_view_ok};
use crate::ast::decl::function::{function_blocks, function_ok, function_view_ok, params_ok};
use crate::ast::decl::{decl_ok, decl_view_ok, DeclAst};
use crate::ast::expr::{expr_lexeme, expr_shape_ok};
use crate::ast::instr::call::{call_arg_ok, call_args_ok};
use crate::ast::instr::{first_word, instr_ok, instr_view_ok};
use crate::ast::stmt::assign::{assign_ok, assign_view_ok};
use crate::ast::stmt::{stmt_ok, stmt_view_ok};
use crate::ast::{decls_of, program_ok, program_view_ok, QbeAst};
use crate::syntax::{Group, Lexeme, Node, QbeSyntax, QbeToken};

verus! {

/// What a statement must be for the checks (`query` false) or for an editor query
/// (`query` true) to read it.
pub open spec fn stmt_readable(g: Group, query: bool) -> bool {
    if query {
        stmt_view_ok(g)
    } else {
        stmt_ok(g)
    }
}

/// What a block must be for the checks or for an editor query to read it.
pub open spec fn block_readable(g: Group, query: bool) -> bool {
    if query {
        block_view_ok(g)
    } else {
        block_ok(g)
    }
}

/// What a declaration must be for the checks or for an editor query to read it.
pub open spec fn decl_readable(g: Group, query: bool) -> bool {
    if query {
        decl_view_ok(g)
    } else {
        decl_ok(g)
    }
}

/// The opcode of an instruction group, if it has one (see `first_word`).
fn first_word_of(g: &Group) -> (r: Option<&Lexeme>)
    ensures
        match r {
            Some(l) => first_word(g.children@) == Some(*l),
            None => first_word(g.children@) is None,
        },
{
    let cs = &g.children;
    let n = cs.len();
    let mut i: usize = 0;
    assert(cs@.skip(0) =~= cs@);
    while i < n
        invariant
            cs@ == g.children@,
            n == cs@.len(),
            i <= n,
            first_word(cs@) == first_word(cs@.skip(i as int)),
        decreases n - i,
    {
        assert(cs@.skip(i as int).drop_first() =~= cs@.skip(i + 1));
        assert(cs@.skip(i as int)[0] == cs@[i as int]);
        match &cs[i] {
            Node::Lexeme(l) => {
                if l.kind != QbeToken::Ws && l.kind != QbeToken::Newline {
                    return Some(l);
                }
            },
            _ => {},
        }
        i = i + 1;
    }
    assert(cs@.skip(n as int) =~= Seq::<Node>::empty());
    None
}

/// Whether a group that is an operand group starts with a lexeme.
fn expr_shape_fits(g: &Group) -> (r: bool)
    ensures
        r == expr_shape_ok(*g),
{
    if g.kind != QbeSyntax::Expr {
        true
    } else if g.children.len() == 0 {
        false
    } else {
        match &g.children[0] {
            Node::Lexeme(_) => true,
            _ => false,
        }
    }
}

/// Whether every operand group among the child groups starts with a lexeme.
fn operand_groups_fit(g: &Group) -> (r: bool)
    ensures
        r == forall|i: int| 0 <= i < g.groups_spec().len() ==> expr_shape_ok(#[trigger] g.groups_spec()[i]),
{
    let gs = g.groups();
    let n = gs.len();
    let mut i: usize = 0;
    while i < n
        invariant
            n == gs@.len(),
            n == g.groups_spec().len(),
            i <= n,
            forall|j: int| 0 <= j < n ==> *gs@[j] == #[trigger] g.groups_spec()[j],
            forall|j: int| 0 <= j < i ==> expr_shape_ok(#[trigger] g.groups_spec()[j]),
        decreases n - i,
    {
        if !expr_shape_fits(gs[i]) {
            assert(!expr_shape_ok(g.groups_spec()[i as int]));
            return false;
        }
        i = i + 1;
    }
    true
}

/// Whether a group is an operand group whose first lexeme is an operand.
fn has_operand(g: &Group) -> (r: bool)
    ensures
        r == (expr_lexeme(*g) is Some),
{
    if g.kind != QbeSyntax::Expr || g.children.len() == 0 {
        false
    } else {
        match &g.children[0] {
            Node::Lexeme(l) => match l.kind {
                QbeToken::Int | QbeToken::Temp | QbeToken::Global | QbeToken::Label => true,
                _ => false,
            },
            _ => false,
        }
    }
}

/// Whether the checks can read a call argument (see `call_arg_ok`).
fn call_arg_fits(a: &Group) -> (r: bool)
    ensures
        r == call_arg_ok(*a),
{
    if !a.is_wf() || a.group_by_kind(QbeSyntax::Ty).is_none() {
        false
    } else {
        match a.group_by_kind(QbeSyntax::Expr) {
            Some(e) => has_operand(e),
            None => true,
        }
    }
}

/// Whether the checks can read the arguments of a call (see `call_args_ok`).
fn call_args_fit(g: &Group) -> (r: bool)
    ensures
        r == call_args_ok(*g),
{
    match g.group_by_kind(QbeSyntax::CallArgs) {
        Some(c) => {
            let gs = c.groups();
            let n = gs.len();
            let mut i: usize = 0;
            while i < n
                invariant
                    g.group_of(QbeSyntax::CallArgs) == Some(*c),
                    n == gs@.len(),
                    n == c.groups_spec().len(),
                    i <= n,
                    forall|j: int| 0 <= j < n ==> *gs@[j] == #[trigger] c.groups_spec()[j],
                    forall|j: int|
                        0 <= j < i && (#[trigger] c.groups_spec()[j]).lexeme_of(QbeToken::Ellipsis) is None
                            ==> call_arg_ok(c.groups_spec()[j]),
                decreases n - i,
            {
                if gs[i].token_by_kind(QbeToken::Ellipsis).is_none() && !call_arg_fits(gs[i]) {
                    assert(c.groups_spec()[i as int].lexeme_of(QbeToken::Ellipsis) is None);
                    assert(!call_arg_ok(c.groups_spec()[i as int]));
                    return false;
                }
                i = i + 1;
            }
            true
        },
        None => true,
    }
}

/// Whether the checks (`query` false) or an editor query (`query` true) can read an
/// instruction.
fn instr_fits(g: &Group, query: bool) -> (r: bool)
    ensures
        r == if query {
            instr_view_ok(*g)
        } else {
            instr_ok(*g)
        },
{
    if !g.is_wf() || !operand_groups_fit(g) {
        return false;
    }
    if query {
        return true;
    }
    match first_word_of(g) {
        Some(w) => w.kind != QbeToken::Call || call_args_fit(g),
        None => false,
    }
}

/// Whether the checks or an editor query can read an assignment.
fn assign_fits(g: &Group, query: bool) -> (r: bool)
    ensures
        r == if query {
            assign_view_ok(*g)
        } else {
            assign_ok(*g)
        },
{
    if !g.is_wf() || g.token_by_kind(QbeToken::Temp).is_none() {
        false
    } else {
        match g.group_by_kind(QbeSyntax::Instr) {
            Some(i) => instr_fits(i, query),
            None => true,
        }
    }
}

/// Whether the checks or an editor query can read a statement.
fn stmt_fits(g: &Group, query: bool) -> (r: bool)
    ensures
        r == stmt_readable(*g, query),
{
    if g.kind == QbeSyntax::Assignment {
        assign_fits(g, query)
    } else {
        instr_fits(g, query)
    }
}

/// Whether the checks or an editor query can read a block.
fn block_fits(g: &Group, query: bool) -> (r: bool)
    ensures
        r == block_readable(*g, query),
{
    if !g.is_wf() || g.token_by_kind(QbeToken::Label).is_none() {
        return false;
    }
    let gs = g.groups();
    let n = gs.len();
    let mut i: usize = 0;
    while i < n
        invariant
            n == gs@.len(),
            n == g.groups_spec().len(),
            i <= n,
            forall|j: int| 0 <= j < n ==> *gs@[j] == #[trigger] g.groups_spec()[j],
            forall|j: int| 0 <= j < i ==> stmt_readable(#[trigger] g.groups_spec()[j], query),
        decreases n - i,
    {
        if !stmt_fits(gs[i], query) {
            assert(!stmt_readable(g.groups_spec()[i as int], query));
            return false;
        }
        i = i + 1;
    }
    true
}

/// Whether every group of a parameter list is a parameter and each that names its
/// temporary names its type (see `params_ok`).
fn params_fit(fa: &Group) -> (r: bool)
    ensures
        r == params_ok(*fa),
{
    let gs = fa.groups();
    let n = gs.len();
    let mut i: usize = 0;
    while i < n
        invariant
            n == gs@.len(),
            n == fa.groups_spec().len(),
            i <= n,
            forall|j: int| 0 <= j < n ==> *gs@[j] == #[trigger] fa.groups_spec()[j],
            forall|j: int|
                0 <= j < i ==> (#[trigger] fa.groups_spec()[j]).kind == QbeSyntax::FuncArg && (
                fa.groups_spec()[j].lexeme_of(QbeToken::Temp) is Some ==> fa.groups_spec()[j].wf()
                    && fa.groups_spec()[j].group_of(QbeSyntax::Ty) is Some),
        decreases n - i,
    {
        let a = gs[i];
        if a.kind != QbeSyntax::FuncArg {
            assert(fa.groups_spec()[i as int].kind != QbeSyntax::FuncArg);
            return false;
        }
        if a.token_by_kind(QbeToken::Temp).is_some() && (!a.is_wf() || a.group_by_kind(
            QbeSyntax::Ty,
        ).is_none()) {
            assert(fa.groups_spec()[i as int].lexeme_of(QbeToken::Temp) is Some);
            assert(!arg_ok(fa.groups_spec()[i as int]));
            return false;
        }
        i = i + 1;
    }
    true
}

/// Whether the checks or an editor query can read a function.
fn function_fits(g: &Group, query: bool) -> (r: bool)
    ensures
        r == if query {
            function_view_ok(*g)
        } else {
            function_ok(*g)
        },
{
    if !g.is_wf() {
        return false;
    }
    match g.group_by_kind(QbeSyntax::FuncArgs) {
        Some(fa) => {
            if !params_fit(fa) {
                return false;
            }
        },
        None => {},
    }
    match g.group_by_kind(QbeSyntax::FuncBody) {
        Some(body) => {
            let gs = body.groups();
            let n = gs.len();
            let mut i: usize = 0;
            while i < n
                invariant
                    function_blocks(*g) == body.groups_spec(),
                    n == gs@.len(),
                    n == body.groups_spec().len(),
                    i <= n,
                    forall|j: int| 0 <= j < n ==> *gs@[j] == #[trigger] body.groups_spec()[j],
                    forall|j: int| 0 <= j < i ==> block_readable(#[trigger] body.groups_spec()[j], query),
                decreases n - i,
            {
                if !block_fits(gs[i], query) {
                    assert(!block_readable(body.groups_spec()[i as int], query));
                    assert(!block_readable(function_blocks(*g)[i as int], query));
                    return false;
                }
                i = i + 1;
            }
            true
        },
        None => true,
    }
}

/// Whether the checks or an editor query can read a declaration.
fn decl_fits(g: &Group, query: bool) -> (r: bool)
    ensures
        r == decl_readable(*g, query),
{
    if g.kind == QbeSyntax::FunctionDef {
        function_fits(g, query)
    } else {
        true
    }
}

impl<'a> QbeAst<'a> {
    fn decls_fit(&self, query: bool) -> (r: bool)
        ensures
            r == forall|i: int|
                0 <= i < decls_of(*self.0).len() ==> decl_readable(#[trigger] decls_of(*self.0)[i], query),
    {
        let decls = self.decls();
        let ghost ds = decls_of(*self.0);
        let n = decls.len();
        let mut i: usize = 0;
        while i < n
            invariant
                ds == decls_of(*self.0),
                n == decls@.len(),
                n == ds.len(),
                i <= n,
                forall|j: int| 0 <= j < n ==> (#[trigger] decls@[j]).group_spec() == ds[j],
                forall|j: int| 0 <= j < i ==> decl_readable(#[trigger] ds[j], query),
            decreases n - i,
        {
            let g: &Group = match &decls[i] {
                DeclAst::Function(f) => f.0,
                DeclAst::Data(d) => d.0,
                DeclAst::Type(t) => t.0,
            };
            assert(*g == ds[i as int]);
            if !decl_fits(g, query) {
                return false;
            }
            i = i + 1;
        }
        true
    }

    /// Whether the checks can read the program (see `program_ok`); `check` may only be
    /// called on a program they can read.
    pub fn can_check(&self) -> (r: bool)
        ensures
            r == program_ok(*self.0),
    {
        self.decls_fit(false)
    }

    /// Whether an editor query can read the program (see `program_view_ok`); `at` may only
    /// be called on a program it can read.
    pub fn can_query(&self) -> (r: bool)
        ensures
            r == program_view_ok(*self.0),
    {
        self.decls_fit(true)
    }
}

/// A statement the checks can read can also be queried.
proof fn lemma_stmt_checkable_is_queryable(g: Group)
    requires
        stmt_ok(g),
    ensures
        stmt_view_ok(g),
{
}

/// A block the checks can read can also be queried.
proof fn lemma_block_checkable_is_queryable(g: Group)
    requires
        block_ok(g),
    ensures
        block_view_ok(g),
{
    assert forall|i: int| 0 <= i < g.groups_spec().len() implies stmt_view_ok(#[trigger] g.groups_spec()[i]) by {
        lemma_stmt_checkable_is_queryable(g.groups_spec()[i]);
    }
}

/// A program the checks can read can also be queried: `can_check` implies `can_query`.
pub proof fn lemma_checkable_is_queryable(root: Group)
    requires
        program_ok(root),
    ensures
        program_view_ok(root),
{
    assert forall|i: int| 0 <= i < decls_of(root).len() implies decl_view_ok(#[trigger] decls_of(root)[i]) by {
        let d = decls_of(root)[i];
        assert(decl_ok(d));
        if d.kind == QbeSyntax::FunctionDef {
            let bs = function_blocks(d);
            assert forall|j: int| 0 <= j < bs.len() implies block_view_ok(#[trigger] bs[j]) by {
                lemma_block_checkable_is_queryable(bs[j]);
            }
        }
    }
}

} // verus!
