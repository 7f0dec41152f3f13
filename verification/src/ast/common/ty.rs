use vstd::prelude::*;

use crate::ast::{LspItem, LspNode, NodeView};
use crate::syntax::Group;

verus! {

/// A type group.
#[derive(Clone, Copy)]
pub struct TypeAst<'a>(pub &'a Group);

impl<'a> TypeAst<'a> {
    /// The type group itself.
    pub fn from_group(value: &'a Group) -> (r: TypeAst<'a>)
        ensures
            r.0 == value,
    {
        TypeAst(value)
    }
}

/// A type group is the node at the offsets it covers.
pub open spec fn type_at(g: Group, offset: usize) -> Option<NodeView> {
    if g.span_spec().has(offset) {
        Some(NodeView::Type(g))
    } else {
        None
    }
}

impl<'a> LspItem<'a> for TypeAst<'a> {
    open spec fn item_ok(&self) -> bool {
        self.0.wf()
    }

    open spec fn at_spec(&self, offset: usize) -> Option<NodeView> {
        type_at(*self.0, offset)
    }

    fn at(&self, offset: usize) -> (r: Option<LspNode<'a>>) {
        if self.0.span().contains(offset) {
            Some(LspNode::Type(*self))
        } else {
            None
        }
    }
}

} // verus!
