use vstd::prelude::*;

use crate::ast::instr::{instr_at, instr_check, instr_ok, instr_view_ok, InstrAst};
use crate::ast::stmt::assign::{assign_at, assign_check, assign_ok, assign_view_ok, AssignAst};
use crate::ast::{CheckModel, CheckState, LspItem, LspNode, NodeView};
use crate::semantic_analyze::Type;
use crate::syntax::{Group, QbeSyntax};

pub mod assign;

verus! {

/// A statement of a block: an assignment or an instruction.
pub enum StmtAst<'a> {
    Assign(AssignAst<'a>),
    Instr(InstrAst<'a>),
}

/// A statement the checks can read.
pub open spec fn stmt_ok(g: Group) -> bool {
    if g.kind == QbeSyntax::Assignment {
        assign_ok(g)
    } else {
        instr_ok(g)
    }
}

/// The state after a statement; an instruction on its own has no expected type.
pub open spec fn stmt_check(g: Group, s: CheckModel) -> CheckModel {
    if g.kind == QbeSyntax::Assignment {
        assign_check(g, s)
    } else {
        instr_check(g, Type::Unknown, s)
    }
}

/// A statement an editor query can read.
pub open spec fn stmt_view_ok(g: Group) -> bool {
    if g.kind == QbeSyntax::Assignment {
        assign_view_ok(g)
    } else {
        instr_view_ok(g)
    }
}

/// The node of a statement at an offset.
pub open spec fn stmt_at(g: Group, offset: usize) -> Option<NodeView> {
    if g.kind == QbeSyntax::Assignment {
        assign_at(g, offset)
    } else {
        instr_at(g, offset)
    }
}

impl<'a> LspItem<'a> for StmtAst<'a> {
    open spec fn item_ok(&self) -> bool {
        match self {
            StmtAst::Assign(a) => assign_view_ok(*a.0),
            StmtAst::Instr(i) => instr_view_ok(*i.0),
        }
    }

    open spec fn at_spec(&self, offset: usize) -> Option<NodeView> {
        match self {
            StmtAst::Assign(a) => assign_at(*a.0, offset),
            StmtAst::Instr(i) => instr_at(*i.0, offset),
        }
    }

    fn at(&self, offset: usize) -> (r: Option<LspNode<'a>>) {
        match self {
            StmtAst::Assign(assign_ast) => assign_ast.at(offset),
            StmtAst::Instr(instr_ast) => instr_ast.at(offset),
        }
    }
}

impl<'a> StmtAst<'a> {
    pub open spec fn group_spec(self) -> Group {
        match self {
            StmtAst::Assign(a) => *a.0,
            StmtAst::Instr(i) => *i.0,
        }
    }

    /// The statement can be read.
    pub open spec fn ok_spec(self) -> bool {
        match self {
            StmtAst::Assign(a) => assign_ok(*a.0),
            StmtAst::Instr(i) => instr_ok(*i.0),
        }
    }

    /// The state after the statement.
    pub open spec fn check_spec(self, s: CheckModel) -> CheckModel {
        match self {
            StmtAst::Assign(a) => assign_check(*a.0, s),
            StmtAst::Instr(i) => instr_check(*i.0, Type::Unknown, s),
        }
    }

    /// An assignment group is an assignment; any other group is an instruction.
    pub fn from(value: &'a Group) -> (r: StmtAst<'a>)
        ensures
            r.group_spec() == *value,
            r is Assign <==> value.kind == QbeSyntax::Assignment,
    {
        if value.kind == QbeSyntax::Assignment {
            StmtAst::Assign(AssignAst(value))
        } else {
            StmtAst::Instr(InstrAst(value))
        }
    }

    /// Checks the statement (see `stmt_check`).
    pub fn check(&self, state: &mut CheckState<'a>)
        requires
            self.ok_spec(),
        ensures
            final(state)@ == self.check_spec(old(state)@),
    {
        match self {
            StmtAst::Assign(assign) => assign.check(state),
            StmtAst::Instr(instr) => instr.check(&Type::Unknown, state),
        }
    }
}

} // verus!
