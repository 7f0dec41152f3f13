use vstd::prelude::*;

use crate::ast::tables::temp_get;
use crate::ast::{with_error, CheckModel, CheckState, OperandKind};
use crate::semantic_analyze::{name_of_type, sub_type, Type};
use crate::span::Span;
use crate::syntax::{Group, Lexeme, Node, QbeSyntax, QbeToken};
use crate::text::{mismatch_message, mismatch_message_text};

verus! {

/// An operand: an integer literal, a temporary, a global or a label.
#[derive(Clone, Copy)]
pub enum ExprAst<'a> {
    Immediate(&'a Lexeme),
    Temp(&'a Lexeme),
    Global(&'a Lexeme),
    Label(&'a Lexeme),
}

/// The lexeme kinds an operand can have.
pub open spec fn is_operand_kind(k: QbeToken) -> bool {
    k == QbeToken::Int || k == QbeToken::Temp || k == QbeToken::Global || k == QbeToken::Label
}

/// An operand group starts with a lexeme; any other group may have any shape.
pub open spec fn expr_shape_ok(g: Group) -> bool {
    g.kind == QbeSyntax::Expr ==> g.children@.len() > 0 && g.children@[0] is Lexeme
}

/// The lexeme of an operand group whose first child is a lexeme of an operand kind.
pub open spec fn expr_lexeme(g: Group) -> Option<Lexeme> {
    if g.kind == QbeSyntax::Expr && g.children@.len() > 0 {
        match g.children@[0] {
            Node::Lexeme(l) => if is_operand_kind(l.kind) {
                Some(l)
            } else {
                None
            },
            _ => None,
        }
    } else {
        None
    }
}

/// The message for a use of an undefined temporary.
pub open spec fn undefined_temp_message(name: Seq<char>) -> Seq<char> {
    "Temp not defined '"@ + name + "'"@
}

/// The type of an operand, and the state after looking it up: an undefined temporary is
/// reported and has an unknown type; a label use is recorded for resolution.
pub open spec fn operand_type(l: Lexeme, s: CheckModel) -> (Type, CheckModel) {
    match l.kind {
        QbeToken::Int => (Type::AnyInt, s),
        QbeToken::Temp => if s.temps.contains_key(l.text@) {
            (s.temps[l.text@].0, s)
        } else {
            (Type::Unknown, with_error(s, undefined_temp_message(l.text@), l.span))
        },
        QbeToken::Global => (Type::Long, s),
        _ => (Type::Label, CheckModel { label_refs: s.label_refs.push(l), ..s }),
    }
}

/// The state after checking that an operand has a type that may stand where `expected` is
/// expected; a mismatch is reported at the operand.
pub open spec fn operand_check(l: Lexeme, expected: Type, s: CheckModel) -> CheckModel {
    let (t, s1) = operand_type(l, s);
    if sub_type(t, expected) {
        s1
    } else {
        with_error(s1, mismatch_message(name_of_type(expected), name_of_type(t)), l.span)
    }
}

impl<'a> ExprAst<'a> {
    pub open spec fn lexeme_spec(self) -> Lexeme {
        match self {
            ExprAst::Immediate(l) => *l,
            ExprAst::Temp(l) => *l,
            ExprAst::Global(l) => *l,
            ExprAst::Label(l) => *l,
        }
    }

    pub open spec fn operand_kind(self) -> OperandKind {
        match self {
            ExprAst::Immediate(_) => OperandKind::Immediate,
            ExprAst::Temp(_) => OperandKind::Temp,
            ExprAst::Global(_) => OperandKind::Global,
            ExprAst::Label(_) => OperandKind::Label,
        }
    }

    /// The variant agrees with the kind of the lexeme.
    pub open spec fn kind_agrees(self) -> bool {
        match self {
            ExprAst::Immediate(l) => l.kind == QbeToken::Int,
            ExprAst::Temp(l) => l.kind == QbeToken::Temp,
            ExprAst::Global(l) => l.kind == QbeToken::Global,
            ExprAst::Label(l) => l.kind == QbeToken::Label,
        }
    }

    /// The operand of an operand group; `Err` for any other group and for an operand group
    /// whose first lexeme is of another kind.
    pub fn try_from(value: &'a Group) -> (r: Result<ExprAst<'a>, ()>)
        requires
            expr_shape_ok(*value),
        ensures
            match r {
                Ok(e) => expr_lexeme(*value) == Some(e.lexeme_spec()) && e.kind_agrees(),
                Err(_) => expr_lexeme(*value) is None,
            },
    {
        if value.kind != QbeSyntax::Expr {
            return Err(());
        }
        match &value.children[0] {
            Node::Lexeme(l) => match l.kind {
                QbeToken::Int => Ok(ExprAst::Immediate(l)),
                QbeToken::Temp => Ok(ExprAst::Temp(l)),
                QbeToken::Global => Ok(ExprAst::Global(l)),
                QbeToken::Label => Ok(ExprAst::Label(l)),
                _ => Err(()),
            },
            _ => Err(()),
        }
    }

    /// The operand's lexeme.
    pub fn lexeme(&self) -> (r: &'a Lexeme)
        ensures
            *r == self.lexeme_spec(),
    {
        match self {
            ExprAst::Immediate(lexeme) => lexeme,
            ExprAst::Temp(lexeme) => lexeme,
            ExprAst::Global(lexeme) => lexeme,
            ExprAst::Label(lexeme) => lexeme,
        }
    }

    /// Where the operand stands.
    pub fn span(&self) -> (r: Span)
        ensures
            r == self.lexeme_spec().span,
    {
        self.lexeme().span
    }

    /// The operand's type (see `operand_type`).
    pub fn get_type(&self, state: &mut CheckState) -> (r: Type)
        requires
            self.kind_agrees(),
        ensures
            (r, final(state)@) == operand_type(self.lexeme_spec(), old(state)@),
    {
        match self {
            ExprAst::Immediate(_) => Type::AnyInt,
            ExprAst::Temp(lexeme) => {
                match temp_get(&state.temps, &lexeme.text) {
                    Some(entry) => entry.0.duplicate(),
                    None => {
                        let mut message = String::from_str("Temp not defined '");
                        message.append(lexeme.text.as_str());
                        message.append("'");
                        state.error(message, lexeme.span);
                        Type::Unknown
                    },
                }
            },
            ExprAst::Global(_) => Type::Long,
            ExprAst::Label(lexeme) => {
                state.label_refs.push(lexeme.duplicate());
                Type::Label
            },
        }
    }

    /// Checks that the operand may stand where `expected` is expected (see `operand_check`).
    pub fn check(&self, expected: &Type, state: &mut CheckState)
        requires
            self.kind_agrees(),
        ensures
            final(state)@ == operand_check(self.lexeme_spec(), *expected, old(state)@),
    {
        let ty = self.get_type(state);
        if !ty.is_sub_type_of(expected) {
            let message = mismatch_message_text(&expected.name(), &ty.name());
            state.error(message, self.span());
        }
    }
}

} // verus!
