use vstd::prelude::*;

use crate::ast::expr::ExprAst;
use crate::ast::CheckState;
use crate::semantic_analyze::Type;
use crate::syntax::{Group, Node};

verus! {

/// An addition whose operands are read from its lexeme children. Reading an operand from a
/// lexeme is not supported yet, so the accessors require a group without lexeme children.
pub struct AddInstrAst<'a>(pub &'a Group);

/// The group has no lexeme child.
pub open spec fn no_lexeme_children(g: Group) -> bool {
    forall|i: int| 0 <= i < g.children@.len() ==> !(#[trigger] g.children@[i] is Lexeme)
}

impl<'a> AddInstrAst<'a> {
    /// The operands read from lexeme children: none, since there are no lexeme children.
    fn args(&self) -> (r: Vec<ExprAst<'a>>)
        requires
            no_lexeme_children(*self.0),
        ensures
            r@.len() == 0,
    {
        let mut r: Vec<ExprAst<'a>> = Vec::new();
        let n = self.0.children.len();
        let mut i: usize = 0;
        while i < n
            invariant
                n == self.0.children@.len(),
                i <= n,
                r@.len() == 0,
            decreases n - i,
        {
            i = i + 1;
        }
        r
    }

    /// The first operand.
    pub fn first(&self) -> (r: Option<ExprAst<'a>>)
        requires
            no_lexeme_children(*self.0),
        ensures
            r is None,
    {
        let args = self.args();
        if args.len() > 0 {
            Some(args[0])
        } else {
            None
        }
    }

    /// The second operand.
    pub fn second(&self) -> (r: Option<ExprAst<'a>>)
        requires
            no_lexeme_children(*self.0),
        ensures
            r is None,
    {
        let args = self.args();
        if args.len() > 1 {
            Some(args[1])
        } else {
            None
        }
    }

    /// Checks each operand against `expected`; with no operands nothing is reported.
    pub fn check(&self, expected: &Type, state: &mut CheckState)
        requires
            no_lexeme_children(*self.0),
        ensures
            final(state)@ == old(state)@,
    {
        if let Some(first) = self.first() {
            first.check(expected, state);
        }
        if let Some(second) = self.second() {
            second.check(expected, state);
        }
    }
}

} // verus!
