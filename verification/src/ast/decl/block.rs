use vstd::prelude::*;

use crate::ast::stmt::{stmt_at, stmt_check, stmt_ok, stmt_view_ok, StmtAst};
use crate::ast::tables::{label_contains, label_insert};
use crate::ast::{first_found, with_error, CheckModel, CheckState, LspItem, LspNode, NodeView};
use crate::syntax::{Group, Lexeme, QbeSyntax, QbeToken};

verus! {

/// A labelled block of statements.
#[derive(Clone, Copy)]
pub struct BlockAst<'a>(pub &'a Group);

/// A block the checks can read: it has a label and each statement can be read.
pub open spec fn block_ok(g: Group) -> bool {
    &&& g.wf()
    &&& g.lexeme_of(QbeToken::Label) is Some
    &&& forall|i: int| 0 <= i < g.groups_spec().len() ==> stmt_ok(#[trigger] g.groups_spec()[i])
}

/// The state after the first `k` statements of `stmts`, in order.
pub open spec fn stmts_check(stmts: Seq<Group>, k: int, s: CheckModel) -> CheckModel
    decreases k,
{
    if k <= 0 || k > stmts.len() {
        s
    } else {
        stmt_check(stmts[k - 1], stmts_check(stmts, k - 1, s))
    }
}

/// The state after a block: a label the function already defines is reported, any other
/// label is defined at its lexeme; then the statements are checked in order.
pub open spec fn block_check(g: Group, s: CheckModel) -> CheckModel {
    let l = g.lexeme_of(QbeToken::Label).unwrap();
    let s1 = if s.labels.contains_key(l.text@) {
        with_error(s, "Duplicate label name"@, l.span)
    } else {
        CheckModel { labels: s.labels.insert(l.text@, l.span), ..s }
    };
    stmts_check(g.groups_spec(), g.groups_spec().len() as int, s1)
}

/// A block an editor query can read.
pub open spec fn block_view_ok(g: Group) -> bool {
    &&& g.wf()
    &&& g.lexeme_of(QbeToken::Label) is Some
    &&& forall|i: int| 0 <= i < g.groups_spec().len() ==> stmt_view_ok(#[trigger] g.groups_spec()[i])
}

/// The node of a block at an offset inside it: the label, else the node of the first
/// statement that has one, else the block itself.
pub open spec fn block_at(g: Group, offset: usize) -> Option<NodeView> {
    if g.span_spec().has(offset) {
        let l = g.lexeme_of(QbeToken::Label).unwrap();
        if l.span.has(offset) {
            Some(NodeView::Label(l))
        } else {
            match first_found(g.groups_spec(), |c: Group| stmt_at(c, offset)) {
                Some(v) => Some(v),
                None => Some(NodeView::Block(g)),
            }
        }
    } else {
        None
    }
}

impl<'a> LspItem<'a> for BlockAst<'a> {
    open spec fn item_ok(&self) -> bool {
        block_view_ok(*self.0)
    }

    open spec fn at_spec(&self, offset: usize) -> Option<NodeView> {
        block_at(*self.0, offset)
    }

    fn at(&self, offset: usize) -> (r: Option<LspNode<'a>>) {
        if self.0.span().contains(offset) {
            if self.label().span.contains(offset) {
                return Some(LspNode::Label(self.label()));
            }
            let stmts = self.stmts();
            let ghost gs = self.0.groups_spec();
            let ghost f = |c: Group| stmt_at(c, offset);
            let n = stmts.len();
            let mut i: usize = 0;
            assert(gs.skip(0) =~= gs);
            while i < n
                invariant
                    gs == self.0.groups_spec(),
                    f == (|c: Group| stmt_at(c, offset)),
                    n == stmts@.len(),
                    n == gs.len(),
                    i <= n,
                    forall|j: int|
                        0 <= j < n ==> (#[trigger] stmts@[j]).group_spec() == gs[j] && (stmts@[j] is Assign
                            <==> stmts@[j].group_spec().kind == QbeSyntax::Assignment),
                    forall|j: int| 0 <= j < n ==> stmt_view_ok(#[trigger] gs[j]),
                    first_found(gs, f) == first_found(gs.skip(i as int), f),
                    self.0.span_spec().has(offset),
                    !self.0.lexeme_of(QbeToken::Label).unwrap().span.has(offset),
                    self.0.lexeme_of(QbeToken::Label) is Some,
                decreases n - i,
            {
                assert(gs.skip(i as int).drop_first() =~= gs.skip(i + 1));
                assert(gs.skip(i as int)[0] == gs[i as int]);
                assert(stmt_view_ok(gs[i as int]));
                match stmts[i].at(offset) {
                    Some(node) => {
                        return Some(node);
                    },
                    None => {},
                }
                i = i + 1;
            }
            assert(gs.skip(n as int) =~= Seq::<Group>::empty());
            Some(LspNode::Block(*self))
        } else {
            None
        }
    }
}

impl<'a> BlockAst<'a> {
    /// The block's label.
    pub fn label(&self) -> (r: &'a Lexeme)
        requires
            self.0.lexeme_of(QbeToken::Label) is Some,
        ensures
            Some(*r) == self.0.lexeme_of(QbeToken::Label),
    {
        self.0.token_by_kind(QbeToken::Label).unwrap()
    }

    /// The statements, one for each child group.
    pub fn stmts(&self) -> (r: Vec<StmtAst<'a>>)
        ensures
            r@.len() == self.0.groups_spec().len(),
            forall|i: int|
                0 <= i < r@.len() ==> (#[trigger] r@[i]).group_spec() == self.0.groups_spec()[i]
                    && (r@[i] is Assign <==> r@[i].group_spec().kind == QbeSyntax::Assignment),
    {
        let gs = self.0.groups();
        let mut r: Vec<StmtAst<'a>> = Vec::new();
        let n = gs.len();
        let mut i: usize = 0;
        while i < n
            invariant
                n == gs@.len(),
                n == self.0.groups_spec().len(),
                i <= n,
                forall|j: int| 0 <= j < n ==> *gs@[j] == #[trigger] self.0.groups_spec()[j],
                r@.len() == i,
                forall|j: int|
                    0 <= j < i ==> (#[trigger] r@[j]).group_spec() == self.0.groups_spec()[j] && (r@[j] is Assign
                        <==> r@[j].group_spec().kind == QbeSyntax::Assignment),
            decreases n - i,
        {
            r.push(StmtAst::from(gs[i]));
            i = i + 1;
        }
        r
    }

    /// Checks the block (see `block_check`).
    pub fn check(&self, state: &mut CheckState<'a>)
        requires
            block_ok(*self.0),
        ensures
            final(state)@ == block_check(*self.0, old(state)@),
    {
        let name = self.label();
        if label_contains(&state.labels, &name.text) {
            state.error(String::from_str("Duplicate label name"), self.label().span);
        } else {
            label_insert(&mut state.labels, name.text.clone(), name.span);
        }
        let ghost start = state@;
        let stmts = self.stmts();
        let ghost gs = self.0.groups_spec();
        let n = stmts.len();
        let mut i: usize = 0;
        while i < n
            invariant
                n == stmts@.len(),
                n == gs.len(),
                i <= n,
                forall|j: int|
                    0 <= j < n ==> (#[trigger] stmts@[j]).group_spec() == gs[j] && (stmts@[j] is Assign
                        <==> stmts@[j].group_spec().kind == QbeSyntax::Assignment),
                forall|j: int| 0 <= j < n ==> stmt_ok(#[trigger] gs[j]),
                state@ == stmts_check(gs, i as int, start),
            decreases n - i,
        {
            assert(stmt_ok(gs[i as int]));
            stmts[i].check(state);
            i = i + 1;
        }
    }
}

} // verus!
