use vstd::prelude::*;

use crate::ast::expr::ExprAst;
use crate::ast::instr::{instr_at, instr_check, instr_ok, instr_view_ok, InstrAst};
use crate::ast::tables::temp_insert;
use crate::ast::growth::lemma_instr_keeps_functions;
use crate::ast::{definition_of, CheckModel, CheckState, LspItem, LspNode, NodeView, OperandKind};
use crate::semantic_analyze::{assigned_type, is_assign_type_kind, Type};
use crate::syntax::{lemma_first_lexeme_kind, lemma_subgroups_wf, Group, Lexeme, QbeSyntax, QbeToken};

verus! {

/// An assignment of an instruction's result to a temporary.
#[derive(Clone, Copy)]
pub struct AssignAst<'a>(pub &'a Group);

/// The lexeme that gives the assigned type: the first `=b`, else `=w`, else `=l`, else `:name`.
pub open spec fn assign_type_lexeme(g: Group) -> Option<Lexeme> {
    match g.lexeme_of(QbeToken::Eqb) {
        Some(l) => Some(l),
        None => match g.lexeme_of(QbeToken::Eqw) {
            Some(l) => Some(l),
            None => match g.lexeme_of(QbeToken::Eql) {
                Some(l) => Some(l),
                None => g.lexeme_of(QbeToken::TypeName),
            },
        },
    }
}

/// An assignment the checks can read: it names its temporary and its instruction can be read.
pub open spec fn assign_ok(g: Group) -> bool {
    &&& g.wf()
    &&& g.lexeme_of(QbeToken::Temp) is Some
    &&& (g.group_of(QbeSyntax::Instr) matches Some(i) ==> instr_ok(i))
}

/// The state after an assignment: the temporary is defined with the assigned type at the
/// assignment, then the instruction is checked with that type expected.
pub open spec fn assign_check(g: Group, s: CheckModel) -> CheckModel {
    let ty = assigned_type(assign_type_lexeme(g));
    let n = g.lexeme_of(QbeToken::Temp).unwrap();
    let s1 = CheckModel { temps: s.temps.insert(n.text@, (ty, g.span_spec())), ..s };
    match g.group_of(QbeSyntax::Instr) {
        Some(i) => instr_check(i, ty, s1),
        None => s1,
    }
}

/// After an assignment, asking where its temporary is defined finds the assignment.
pub proof fn lemma_assign_defines_temp(g: Group, s: CheckModel, use_site: Lexeme)
    requires
        g.lexeme_of(QbeToken::Temp) is Some,
        use_site.text@ == g.lexeme_of(QbeToken::Temp).unwrap().text@,
    ensures
        definition_of(NodeView::Expr(OperandKind::Temp, use_site), assign_check(g, s)) == Some(g.span_spec()),
{
    let ty = assigned_type(assign_type_lexeme(g));
    let n = g.lexeme_of(QbeToken::Temp).unwrap();
    let s1 = CheckModel { temps: s.temps.insert(n.text@, (ty, g.span_spec())), ..s };
    match g.group_of(QbeSyntax::Instr) {
        Some(i) => lemma_instr_keeps_functions(i, ty, s1),
        None => {},
    }
}

/// An assignment an editor query can read.
pub open spec fn assign_view_ok(g: Group) -> bool {
    &&& g.wf()
    &&& g.lexeme_of(QbeToken::Temp) is Some
    &&& (g.group_of(QbeSyntax::Instr) matches Some(i) ==> instr_view_ok(i))
}

/// The node of an assignment at an offset inside it: the assigned temporary, else the node
/// of the instruction, else the assignment itself.
pub open spec fn assign_at(g: Group, offset: usize) -> Option<NodeView> {
    if g.span_spec().has(offset) {
        let n = g.lexeme_of(QbeToken::Temp).unwrap();
        if n.span.has(offset) {
            Some(NodeView::Expr(OperandKind::Temp, n))
        } else {
            match g.group_of(QbeSyntax::Instr) {
                Some(i) => match instr_at(i, offset) {
                    Some(v) => Some(v),
                    None => Some(NodeView::Assign(g)),
                },
                None => Some(NodeView::Assign(g)),
            }
        }
    } else {
        None
    }
}

impl<'a> LspItem<'a> for AssignAst<'a> {
    open spec fn item_ok(&self) -> bool {
        assign_view_ok(*self.0)
    }

    open spec fn at_spec(&self, offset: usize) -> Option<NodeView> {
        assign_at(*self.0, offset)
    }

    fn at(&self, offset: usize) -> (r: Option<LspNode<'a>>) {
        if self.0.span().contains(offset) {
            if self.name().span.contains(offset) {
                return Some(LspNode::Expr(ExprAst::Temp(self.name())));
            }
            match self.instr() {
                Some(instr) => match instr.at(offset) {
                    Some(node) => {
                        return Some(node);
                    },
                    None => {},
                },
                None => {},
            }
            Some(LspNode::Assign(*self))
        } else {
            None
        }
    }
}

impl<'a> AssignAst<'a> {
    /// The assigned temporary.
    pub fn name(&self) -> (r: &'a Lexeme)
        requires
            self.0.lexeme_of(QbeToken::Temp) is Some,
        ensures
            Some(*r) == self.0.lexeme_of(QbeToken::Temp),
    {
        self.0.token_by_kind(QbeToken::Temp).unwrap()
    }

    /// The lexeme that gives the assigned type (see `assign_type_lexeme`).
    pub fn ty(&self) -> (r: Option<&'a Lexeme>)
        ensures
            match r {
                Some(l) => assign_type_lexeme(*self.0) == Some(*l) && is_assign_type_kind(l.kind),
                None => assign_type_lexeme(*self.0) is None,
            },
    {
        proof {
            lemma_first_lexeme_kind(self.0.children@, QbeToken::Eqb);
            lemma_first_lexeme_kind(self.0.children@, QbeToken::Eqw);
            lemma_first_lexeme_kind(self.0.children@, QbeToken::Eql);
            lemma_first_lexeme_kind(self.0.children@, QbeToken::TypeName);
        }
        match self.0.token_by_kind(QbeToken::Eqb) {
            Some(l) => Some(l),
            None => match self.0.token_by_kind(QbeToken::Eqw) {
                Some(l) => Some(l),
                None => match self.0.token_by_kind(QbeToken::Eql) {
                    Some(l) => Some(l),
                    None => self.0.token_by_kind(QbeToken::TypeName),
                },
            },
        }
    }

    /// The instruction whose result is assigned.
    pub fn instr(&self) -> (r: Option<InstrAst<'a>>)
        ensures
            match r {
                Some(i) => self.0.group_of(QbeSyntax::Instr) == Some(*i.0),
                None => self.0.group_of(QbeSyntax::Instr) is None,
            },
    {
        match self.0.group_by_kind(QbeSyntax::Instr) {
            Some(g) => Some(InstrAst(g)),
            None => None,
        }
    }

    /// Checks the assignment (see `assign_check`).
    pub fn check(&self, state: &mut CheckState<'a>)
        requires
            assign_ok(*self.0),
        ensures
            final(state)@ == assign_check(*self.0, old(state)@),
    {
        let ty = Type::from_assign(self.ty());
        let name = self.name();
        temp_insert(&mut state.temps, name.text.clone(), (ty.duplicate(), self.0.span()));
        if let Some(instr) = self.instr() {
            instr.check(&ty, state);
        }
    }
}

} // verus!
