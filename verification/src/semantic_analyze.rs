use vstd::prelude::*;

use crate::ast::common::ty::TypeAst;
use crate::syntax::{Group, Lexeme, QbeToken};

verus! {

/// The type of a QBE value as the checks see it.
#[derive(Clone, Debug)]
pub enum Type {
    /// No value: what a function without a return type returns.
    Unit,
    /// The type parameter of a generic instruction, fixed by the type it is expected to have.
    T,
    Long,
    Word,
    Byte,
    /// An integer literal, which fits any integer type.
    AnyInt,
    /// A type the checks could not determine; it is compatible with every type.
    Unknown,
    Label,
    /// An aggregate type named by a `:name` token.
    Custom(String),
}

/// Whether a value of type `a` may stand where type `b` is expected.
pub open spec fn sub_type(a: Type, b: Type) -> bool {
    match (a, b) {
        (Type::Unknown, _) => true,
        (_, Type::Unknown) => true,
        (Type::AnyInt, Type::Long) => true,
        (Type::AnyInt, Type::Word) => true,
        (Type::AnyInt, Type::Byte) => true,
        (Type::Custom(x), Type::Custom(y)) => x@ == y@,
        (Type::Custom(_), _) => false,
        (_, Type::Custom(_)) => false,
        _ => a == b,
    }
}

/// The text by which diagnostics name a type.
pub open spec fn name_of_type(t: Type) -> Seq<char> {
    match t {
        Type::Unit => "none"@,
        Type::T => "T"@,
        Type::Long => "l"@,
        Type::Word => "w"@,
        Type::Byte => "b"@,
        Type::AnyInt => "integer"@,
        Type::Unknown => "unknown"@,
        Type::Label => "label"@,
        Type::Custom(name) => name@,
    }
}

/// The type that a type group names: the base type of its `l`, `w` or `b` lexeme, else the
/// aggregate type of its `:name` lexeme, else an unknown type.
pub open spec fn type_of_group(g: Group) -> Type {
    if g.lexeme_of(QbeToken::L) is Some {
        Type::Long
    } else if g.lexeme_of(QbeToken::W) is Some {
        Type::Word
    } else if g.lexeme_of(QbeToken::B) is Some {
        Type::Byte
    } else {
        match g.lexeme_of(QbeToken::TypeName) {
            Some(l) => Type::Custom(l.text),
            None => Type::Unknown,
        }
    }
}

/// The type that an assignment lexeme (`=b`, `=w`, `=l` or a `:name`) gives, if any.
pub open spec fn assigned_type(value: Option<Lexeme>) -> Type {
    match value {
        Some(l) => match l.kind {
            QbeToken::Eqb => Type::Byte,
            QbeToken::Eqw => Type::Word,
            QbeToken::Eql => Type::Long,
            _ => Type::Custom(l.text),
        },
        None => Type::Unknown,
    }
}

/// The lexeme kinds that name the type of an assignment.
pub open spec fn is_assign_type_kind(k: QbeToken) -> bool {
    k == QbeToken::Eqb || k == QbeToken::Eqw || k == QbeToken::Eql || k == QbeToken::TypeName
}

impl Type {
    /// A copy of the type, equal to it.
    pub fn duplicate(&self) -> (r: Type)
        ensures
            r == *self,
    {
        match self {
            Type::Unit => Type::Unit,
            Type::T => Type::T,
            Type::Long => Type::Long,
            Type::Word => Type::Word,
            Type::Byte => Type::Byte,
            Type::AnyInt => Type::AnyInt,
            Type::Unknown => Type::Unknown,
            Type::Label => Type::Label,
            Type::Custom(name) => Type::Custom(name.clone()),
        }
    }

    /// Whether the type is the type parameter `T`.
    pub fn is_param(&self) -> (r: bool)
        ensures
            r == (*self is T),
    {
        match self {
            Type::T => true,
            _ => false,
        }
    }

    /// Whether a value of this type may stand where `other` is expected.
    pub fn is_sub_type_of(&self, other: &Type) -> (r: bool)
        ensures
            r == sub_type(*self, *other),
    {
        match (self, other) {
            (Type::Unknown, _) => true,
            (_, Type::Unknown) => true,
            (Type::AnyInt, Type::Long) => true,
            (Type::AnyInt, Type::Word) => true,
            (Type::AnyInt, Type::Byte) => true,
            (Type::Custom(x), Type::Custom(y)) => x.eq(y),
            (Type::Custom(_), _) => false,
            (_, Type::Custom(_)) => false,
            (Type::Unit, Type::Unit) => true,
            (Type::T, Type::T) => true,
            (Type::Long, Type::Long) => true,
            (Type::Word, Type::Word) => true,
            (Type::Byte, Type::Byte) => true,
            (Type::AnyInt, Type::AnyInt) => true,
            (Type::Label, Type::Label) => true,
            _ => false,
        }
    }

    /// The text by which diagnostics name the type.
    pub fn name(&self) -> (r: String)
        ensures
            r@ == name_of_type(*self),
    {
        match self {
            Type::Unit => String::from_str("none"),
            Type::T => String::from_str("T"),
            Type::Long => String::from_str("l"),
            Type::Word => String::from_str("w"),
            Type::Byte => String::from_str("b"),
            Type::AnyInt => String::from_str("integer"),
            Type::Unknown => String::from_str("unknown"),
            Type::Label => String::from_str("label"),
            Type::Custom(name) => name.clone(),
        }
    }

    /// The type that a type group names (see `type_of_group`).
    pub fn from_type_ast(ast: &TypeAst) -> (r: Type)
        ensures
            r == type_of_group(*ast.0),
    {
        let g = ast.0;
        if g.token_by_kind(QbeToken::L).is_some() {
            Type::Long
        } else if g.token_by_kind(QbeToken::W).is_some() {
            Type::Word
        } else if g.token_by_kind(QbeToken::B).is_some() {
            Type::Byte
        } else {
            match g.token_by_kind(QbeToken::TypeName) {
                Some(l) => Type::Custom(l.text.clone()),
                None => Type::Unknown,
            }
        }
    }

    /// The type that an assignment lexeme gives: `=b`, `=w` and `=l` give the base types,
    /// a `:name` the aggregate type of that name, and no lexeme an unknown type.
    pub fn from_assign(value: Option<&Lexeme>) -> (r: Type)
        requires
            value matches Some(l) ==> is_assign_type_kind(l.kind),
        ensures
            r == assigned_type(match value {
                Some(l) => Some(*l),
                None => None,
            }),
    {
        match value {
            Some(l) => match l.kind {
                QbeToken::Eqb => Type::Byte,
                QbeToken::Eqw => Type::Word,
                QbeToken::Eql => Type::Long,
                _ => Type::Custom(l.text.clone()),
            },
            None => Type::Unknown,
        }
    }
}

/// Subtyping is reflexive: every type may stand where it is itself expected.
pub proof fn lemma_sub_type_reflexive(t: Type)
    ensures
        sub_type(t, t),
{
}

/// An unknown type is compatible with every type, in both directions.
pub proof fn lemma_unknown_compatible(t: Type)
    ensures
        sub_type(Type::Unknown, t),
        sub_type(t, Type::Unknown),
{
}

} // verus!
