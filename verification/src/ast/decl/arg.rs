use vstd::prelude::*;

use crate::ast::common::ty::{type_at, TypeAst};
use crate::ast::{LspItem, LspNode, NodeView};
use crate::syntax::{lemma_subgroups_wf, Group, Lexeme, QbeSyntax, QbeToken};

verus! {

/// A parameter of a function.
#[derive(Clone, Copy)]
pub struct ArgAst<'a>(pub &'a Group);

/// A parameter the checks can read: it names its type.
pub open spec fn arg_ok(g: Group) -> bool {
    g.wf() && g.group_of(QbeSyntax::Ty) is Some
}

/// The node of a parameter at an offset inside it: the type, else the temporary, else the
/// parameter itself.
pub open spec fn arg_at(a: Group, offset: usize) -> Option<NodeView> {
    if a.span_spec().has(offset) {
        match type_at(a.group_of(QbeSyntax::Ty).unwrap(), offset) {
            Some(v) => Some(v),
            None => {
                let n = a.lexeme_of(QbeToken::Temp).unwrap();
                if n.span.has(offset) {
                    Some(NodeView::FunctionParam(n))
                } else {
                    Some(NodeView::Arg(a))
                }
            },
        }
    } else {
        None
    }
}

impl<'a> LspItem<'a> for ArgAst<'a> {
    open spec fn item_ok(&self) -> bool {
        arg_ok(*self.0) && self.0.lexeme_of(QbeToken::Temp) is Some
    }

    open spec fn at_spec(&self, offset: usize) -> Option<NodeView> {
        arg_at(*self.0, offset)
    }

    fn at(&self, offset: usize) -> (r: Option<LspNode<'a>>) {
        if self.0.span().contains(offset) {
            proof {
                lemma_subgroups_wf(*self.0);
            }
            let res = if let Some(ty) = self.ty().at(offset) {
                ty
            } else if self.name().span.contains(offset) {
                LspNode::FunctionParam(self.name())
            } else {
                LspNode::Arg(*self)
            };
            Some(res)
        } else {
            None
        }
    }
}

impl<'a> ArgAst<'a> {
    /// The parameter of a parameter group, if the group names its temporary.
    pub fn try_from(value: &'a Group) -> (r: Result<ArgAst<'a>, ()>)
        requires
            value.kind == QbeSyntax::FuncArg,
        ensures
            r is Ok <==> value.lexeme_of(QbeToken::Temp) is Some,
            r matches Ok(a) ==> *a.0 == *value,
    {
        if value.token_by_kind(QbeToken::Temp).is_some() {
            Ok(ArgAst(value))
        } else {
            Err(())
        }
    }

    /// The parameter's type group.
    pub fn ty(&self) -> (r: TypeAst<'a>)
        requires
            self.0.group_of(QbeSyntax::Ty) is Some,
        ensures
            Some(*r.0) == self.0.group_of(QbeSyntax::Ty),
    {
        TypeAst(self.0.group_by_kind(QbeSyntax::Ty).unwrap())
    }

    /// The parameter's temporary.
    pub fn name(&self) -> (r: &'a Lexeme)
        requires
            self.0.lexeme_of(QbeToken::Temp) is Some,
        ensures
            Some(*r) == self.0.lexeme_of(QbeToken::Temp),
    {
        self.0.token_by_kind(QbeToken::Temp).unwrap()
    }
}

} // verus!
