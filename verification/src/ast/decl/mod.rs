use vstd::prelude::*;

use crate::ast::decl::data::{data_check, DataAst};
use crate::ast::decl::function::{function_at, function_check, function_ok, function_view_ok, FunctionAst};
use crate::ast::decl::ty::TypeDefAst;
use crate::ast::{CheckModel, CheckState, LspItem, LspNode, NodeView};
use crate::syntax::{Group, QbeSyntax, QbeToken};

pub mod arg;
pub mod block;
pub mod data;
pub mod function;
pub mod ty;

verus! {

/// A top-level declaration.
pub enum DeclAst<'a> {
    Function(FunctionAst<'a>),
    Data(DataAst<'a>),
    Type(TypeDefAst<'a>),
}

/// Why a top-level group is not a declaration.
#[derive(Clone, Copy, PartialEq, Eq, Structural, Debug)]
pub enum ParseDeclError {
    Unmatched,
    MissingName,
    Unexpected(QbeSyntax),
}

/// Whether a top-level group is a declaration: a named function or data definition, or a
/// type definition.
pub open spec fn is_decl(g: Group) -> bool {
    ||| g.kind == QbeSyntax::FunctionDef && g.lexeme_of(QbeToken::Global) is Some
    ||| g.kind == QbeSyntax::DataDef && g.lexeme_of(QbeToken::Global) is Some
    ||| g.kind == QbeSyntax::TypeDef
}

/// A declaration the checks can read.
pub open spec fn decl_ok(g: Group) -> bool {
    g.kind == QbeSyntax::FunctionDef ==> function_ok(g)
}

/// The state after a declaration: functions and data are checked, type definitions change
/// nothing.
pub open spec fn decl_check(g: Group, s: CheckModel) -> CheckModel {
    if g.kind == QbeSyntax::FunctionDef {
        function_check(g, s)
    } else if g.kind == QbeSyntax::DataDef {
        data_check(g, s)
    } else {
        s
    }
}

/// A declaration an editor query can read.
pub open spec fn decl_view_ok(g: Group) -> bool {
    g.kind == QbeSyntax::FunctionDef ==> function_view_ok(g)
}

/// The node of a declaration at an offset: functions have nodes, other declarations none.
pub open spec fn decl_at(g: Group, offset: usize) -> Option<NodeView> {
    if g.kind == QbeSyntax::FunctionDef {
        function_at(g, offset)
    } else {
        None
    }
}

impl<'a> LspItem<'a> for DeclAst<'a> {
    open spec fn item_ok(&self) -> bool {
        match self {
            DeclAst::Function(f) => function_view_ok(*f.0),
            _ => true,
        }
    }

    open spec fn at_spec(&self, offset: usize) -> Option<NodeView> {
        match self {
            DeclAst::Function(f) => function_at(*f.0, offset),
            _ => None,
        }
    }

    fn at(&self, offset: usize) -> (r: Option<LspNode<'a>>) {
        match self {
            DeclAst::Function(f) => f.at(offset),
            _ => None,
        }
    }
}

impl<'a> DeclAst<'a> {
    pub open spec fn group_spec(self) -> Group {
        match self {
            DeclAst::Function(f) => *f.0,
            DeclAst::Data(d) => *d.0,
            DeclAst::Type(t) => *t.0,
        }
    }

    /// The declaration can be read.
    pub open spec fn ok_spec(self) -> bool {
        match self {
            DeclAst::Function(f) => function_ok(*f.0),
            _ => true,
        }
    }

    /// The state after the declaration.
    pub open spec fn check_spec(self, s: CheckModel) -> CheckModel {
        match self {
            DeclAst::Function(f) => function_check(*f.0, s),
            DeclAst::Data(d) => data_check(*d.0, s),
            DeclAst::Type(_) => s,
        }
    }

    /// The variant agrees with the group's kind.
    pub open spec fn agrees(self) -> bool {
        match self {
            DeclAst::Function(f) => f.0.kind == QbeSyntax::FunctionDef,
            DeclAst::Data(d) => d.0.kind == QbeSyntax::DataDef,
            DeclAst::Type(t) => t.0.kind == QbeSyntax::TypeDef,
        }
    }

    /// The declaration a top-level group stands for; a function or data definition without
    /// a name is `MissingName`, an unparsed stretch `Unmatched`, any other group `Unexpected`.
    pub fn try_from(value: &'a Group) -> (r: Result<DeclAst<'a>, ParseDeclError>)
        ensures
            r is Ok <==> is_decl(*value),
            r matches Ok(d) ==> d.group_spec() == *value && d.agrees(),
            r matches Err(e) ==> e == (if value.kind == QbeSyntax::FunctionDef || value.kind
                == QbeSyntax::DataDef {
                ParseDeclError::MissingName
            } else if value.kind == QbeSyntax::Unmatched {
                ParseDeclError::Unmatched
            } else {
                ParseDeclError::Unexpected(value.kind)
            }),
    {
        match value.kind {
            QbeSyntax::FunctionDef => {
                if value.token_by_kind(QbeToken::Global).is_some() {
                    Ok(DeclAst::Function(FunctionAst(value)))
                } else {
                    Err(ParseDeclError::MissingName)
                }
            },
            QbeSyntax::DataDef => {
                if value.token_by_kind(QbeToken::Global).is_some() {
                    Ok(DeclAst::Data(DataAst(value)))
                } else {
                    Err(ParseDeclError::MissingName)
                }
            },
            QbeSyntax::TypeDef => Ok(DeclAst::Type(TypeDefAst(value))),
            QbeSyntax::Unmatched => Err(ParseDeclError::Unmatched),
            other => Err(ParseDeclError::Unexpected(other)),
        }
    }

    /// Checks the declaration: a function or data definition is checked, a type definition
    /// changes nothing.
    pub fn check(&self, state: &mut CheckState<'a>)
        requires
            self.ok_spec(),
        ensures
            final(state)@ == self.check_spec(old(state)@),
    {
        match self {
            DeclAst::Function(f) => f.check(state),
            DeclAst::Data(d) => d.check(state),
            DeclAst::Type(_) => {},
        }
    }
}

} // verus!
