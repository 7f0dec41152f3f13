use vstd::prelude::*;

use crate::ast::tables::{data_contains, data_insert, function_contains};
use crate::ast::{with_error, CheckModel, CheckState, Definition, DefinitionView};
use crate::syntax::{Group, Lexeme, QbeToken};

verus! {

/// A data definition.
pub struct DataAst<'a>(pub &'a Group);

/// The message for a second definition of a global name.
pub open spec fn duplicate_message(name: Seq<char>) -> Seq<char> {
    "Duplicate definition of "@ + name
}

/// The message for a second definition of a global name.
pub fn duplicate_message_text(name: &String) -> (r: String)
    ensures
        r@ == duplicate_message(name@),
{
    let mut r = String::from_str("Duplicate definition of ");
    r.append(name.as_str());
    r
}

/// The state after a data definition: a name already defined as data or as a function is
/// reported; any other name is defined as data at its lexeme. A definition without a name
/// changes nothing.
pub open spec fn data_check(g: Group, s: CheckModel) -> CheckModel {
    match g.lexeme_of(QbeToken::Global) {
        None => s,
        Some(n) => if s.data_defs.contains_key(n.text@) || s.function_defs.contains_key(n.text@) {
            with_error(s, duplicate_message(n.text@), n.span)
        } else {
            CheckModel {
                data_defs: s.data_defs.insert(
                    n.text@,
                    DefinitionView { definition: n.span, references: seq![] },
                ),
                ..s
            }
        },
    }
}

/// A data definition checked a second time is reported as a duplicate at its name, and the
/// second check changes nothing else.
pub proof fn lemma_data_redefinition(g: Group, s: CheckModel)
    requires
        g.lexeme_of(QbeToken::Global) is Some,
    ensures
        ({
            let n = g.lexeme_of(QbeToken::Global).unwrap();
            let s1 = data_check(g, s);
            data_check(g, s1) == with_error(s1, duplicate_message(n.text@), n.span)
        }),
{
}

impl<'a> DataAst<'a> {
    /// The defined name.
    pub fn name(&self) -> (r: Option<&'a Lexeme>)
        ensures
            match r {
                Some(l) => self.0.lexeme_of(QbeToken::Global) == Some(*l),
                None => self.0.lexeme_of(QbeToken::Global) is None,
            },
    {
        self.0.token_by_kind(QbeToken::Global)
    }

    /// Checks the definition (see `data_check`).
    pub fn check(&self, state: &mut CheckState<'a>)
        ensures
            final(state)@ == data_check(*self.0, old(state)@),
    {
        let name = match self.name() {
            Some(name) => name,
            None => {
                return;
            },
        };
        if data_contains(&state.data_defs, &name.text) || function_contains(
            &state.function_defs,
            &name.text,
        ) {
            state.error(duplicate_message_text(&name.text), name.span);
        } else {
            data_insert(&mut state.data_defs, name.text.clone(), Definition::new(name.span));
        }
    }
}

} // verus!
