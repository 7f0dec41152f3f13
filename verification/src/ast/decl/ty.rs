use vstd::prelude::*;

use crate::syntax::{Group, QbeToken};

verus! {

/// An aggregate type definition.
pub struct TypeDefAst<'a>(pub &'a Group);

impl<'a> TypeDefAst<'a> {
    /// Looks up the defined type name and discards it; the definition has no checks yet.
    pub fn name(&self) {
        self.0.token_by_kind(QbeToken::TypeName);
    }
}

} // verus!
