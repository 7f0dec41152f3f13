use vstd::prelude::*;

use crate::span::Span;

verus! {

/// The kinds of lexemes that the QBE grammar produces and that the checks tell apart.
/// `Other` carries the raw kind number of any lexeme kind not named here.
#[derive(Clone, Copy, PartialEq, Eq, Structural, Debug)]
pub enum QbeToken {
    Temp,
    Global,
    Label,
    TypeName,
    Int,
    String,
    Comment,
    Newline,
    Ws,
    Comma,
    Eq,
    Eql,
    Eqw,
    Eqb,
    LBrace,
    RBrace,
    LParen,
    RParen,
    L,
    W,
    B,
    Ellipsis,
    Call,
    Ret,
    Add,
    Sub,
    Mul,
    Ceql,
    Copy,
    Loadl,
    Loadw,
    Storel,
    Storew,
    Jmp,
    Jnz,
    Other(u32),
}

/// The kinds of syntax groups of the QBE grammar that the checks tell apart.
/// `Other` carries the raw kind number of any group kind not named here.
#[derive(Clone, Copy, PartialEq, Eq, Structural, Debug)]
pub enum QbeSyntax {
    Root,
    FunctionDef,
    DataDef,
    TypeDef,
    FuncArgs,
    FuncArg,
    FuncBody,
    Block,
    Assignment,
    Instr,
    Expr,
    Ty,
    CallArgs,
    CallArg,
    Unmatched,
    Other(u32),
}

/// A token of the source text.
#[derive(Clone, Debug)]
pub struct Lexeme {
    pub span: Span,
    pub kind: QbeToken,
    pub text: String,
}

impl Lexeme {
    /// A copy of the lexeme, equal to it.
    pub fn duplicate(&self) -> (r: Lexeme)
        ensures
            r == *self,
    {
        Lexeme { span: self.span, kind: self.kind, text: self.text.clone() }
    }
}

/// An error node that the parser left in the tree.
#[derive(Clone, Debug)]
pub enum ParseError {
    /// Something was expected at `start` and is missing.
    MissingError { start: usize },
    /// The lexemes in `actual` were not expected.
    Unexpected { start: usize, actual: Vec<Lexeme> },
}

/// A syntax group: a node of the tree with a kind and ordered children.
#[derive(Debug)]
pub struct Group {
    pub kind: QbeSyntax,
    pub children: Vec<Node>,
}

/// A child of a group.
#[derive(Debug)]
pub enum Node {
    Group(Group),
    Lexeme(Lexeme),
    Skipped(Lexeme),
    Error(ParseError),
}

/// Every error node of the tree below `n` that reports unexpected lexemes holds at least one.
pub open spec fn node_wf(n: Node) -> bool
    decreases n, 0nat,
{
    match n {
        Node::Group(g) => children_wf(g.children@, g.children@.len()),
        Node::Error(ParseError::Unexpected { actual, .. }) => actual@.len() > 0,
        _ => true,
    }
}

/// The first `k` nodes of `cs` are well formed.
pub open spec fn children_wf(cs: Seq<Node>, k: nat) -> bool
    decreases cs, k,
{
    if k == 0 || k > cs.len() {
        true
    } else {
        children_wf(cs, (k - 1) as nat) && node_wf(cs[k - 1])
    }
}

/// Each of the first `k` well-formed nodes is well formed.
pub proof fn lemma_children_wf(cs: Seq<Node>, k: nat, i: int)
    requires
        children_wf(cs, k),
        k <= cs.len(),
        0 <= i < k,
    ensures
        node_wf(cs[i]),
    decreases k,
{
    if i < k - 1 {
        lemma_children_wf(cs, (k - 1) as nat, i);
    }
}

/// The first offset covered by a node.
pub open spec fn node_start(n: Node) -> usize
    decreases n,
{
    match n {
        Node::Group(g) => if g.children@.len() == 0 {
            0
        } else {
            node_start(g.children@[0])
        },
        Node::Lexeme(l) => l.span.start,
        Node::Skipped(l) => l.span.start,
        Node::Error(ParseError::Unexpected { actual, .. }) => actual@[0].span.start,
        Node::Error(ParseError::MissingError { start }) => start,
    }
}

/// The offset just past a node.
pub open spec fn node_end(n: Node) -> usize
    decreases n,
{
    match n {
        Node::Group(g) => if g.children@.len() == 0 {
            0
        } else {
            node_end(g.children@[g.children@.len() - 1])
        },
        Node::Lexeme(l) => l.span.end,
        Node::Skipped(l) => l.span.end,
        Node::Error(ParseError::Unexpected { start, actual }) => if actual@.len() == 0 {
            start
        } else {
            actual@[actual@.len() - 1].span.end
        },
        Node::Error(ParseError::MissingError { start }) => start,
    }
}


/// The lexemes of a node in the order a depth-first walk meets them; the lexemes of an
/// error node come last to first.
pub open spec fn node_tokens(n: Node) -> Seq<Lexeme>
    decreases n, 0nat,
{
    match n {
        Node::Group(g) => children_tokens(g.children@, g.children@.len()),
        Node::Lexeme(l) => seq![l],
        Node::Skipped(l) => seq![l],
        Node::Error(ParseError::Unexpected { actual, .. }) => reversed_from(actual@, 0),
        Node::Error(ParseError::MissingError { .. }) => seq![],
    }
}

/// The lexemes of the first `k` nodes of `cs`, one node after the other.
pub open spec fn children_tokens(cs: Seq<Node>, k: nat) -> Seq<Lexeme>
    decreases cs, k,
{
    if k == 0 || k > cs.len() {
        seq![]
    } else {
        children_tokens(cs, (k - 1) as nat) + node_tokens(cs[k - 1])
    }
}

/// `a[len - 1], ..., a[j]`: the elements of `a` from index `j` on, last to first.
pub open spec fn reversed_from(a: Seq<Lexeme>, j: int) -> Seq<Lexeme>
    decreases a.len() - j,
{
    if j < 0 || j >= a.len() {
        seq![]
    } else {
        reversed_from(a, j + 1).push(a[j])
    }
}

/// The groups among the first `k` nodes of `cs`, in order.
pub open spec fn groups_in(cs: Seq<Node>, k: int) -> Seq<Group>
    decreases k,
{
    if k <= 0 || k > cs.len() {
        seq![]
    } else {
        match cs[k - 1] {
            Node::Group(g) => groups_in(cs, k - 1).push(g),
            _ => groups_in(cs, k - 1),
        }
    }
}

/// The first group of kind `kind` among the nodes of `cs`.
pub open spec fn first_group_of(cs: Seq<Node>, kind: QbeSyntax) -> Option<Group>
    decreases cs.len(),
{
    if cs.len() == 0 {
        None
    } else {
        match cs[0] {
            Node::Group(g) => if g.kind == kind {
                Some(g)
            } else {
                first_group_of(cs.drop_first(), kind)
            },
            _ => first_group_of(cs.drop_first(), kind),
        }
    }
}

/// The first lexeme of kind `kind` among the nodes of `cs` (skipped lexemes do not count).
pub open spec fn first_lexeme_of(cs: Seq<Node>, kind: QbeToken) -> Option<Lexeme>
    decreases cs.len(),
{
    if cs.len() == 0 {
        None
    } else {
        match cs[0] {
            Node::Lexeme(l) => if l.kind == kind {
                Some(l)
            } else {
                first_lexeme_of(cs.drop_first(), kind)
            },
            _ => first_lexeme_of(cs.drop_first(), kind),
        }
    }
}

/// A lexeme found by kind has that kind.
pub proof fn lemma_first_lexeme_kind(cs: Seq<Node>, kind: QbeToken)
    ensures
        first_lexeme_of(cs, kind) matches Some(l) ==> l.kind == kind,
    decreases cs.len(),
{
    if cs.len() > 0 {
        lemma_first_lexeme_kind(cs.drop_first(), kind);
    }
}

/// A group found by kind has that kind.
pub proof fn lemma_first_group_kind(cs: Seq<Node>, kind: QbeSyntax)
    ensures
        first_group_of(cs, kind) matches Some(g) ==> g.kind == kind,
    decreases cs.len(),
{
    if cs.len() > 0 {
        lemma_first_group_kind(cs.drop_first(), kind);
    }
}

/// A child of a well-formed group is well formed.
pub proof fn lemma_wf_child(g: Group, i: int)
    requires
        g.wf(),
        0 <= i < g.children@.len(),
    ensures
        node_wf(g.children@[i]),
{
    lemma_children_wf(g.children@, g.children@.len(), i);
}

/// A group found by kind is one of the children.
pub proof fn lemma_first_group_index(cs: Seq<Node>, kind: QbeSyntax)
    ensures
        first_group_of(cs, kind) matches Some(g) ==> exists|i: int|
            0 <= i < cs.len() && cs[i] == Node::Group(g),
    decreases cs.len(),
{
    if cs.len() > 0 {
        lemma_first_group_index(cs.drop_first(), kind);
        match first_group_of(cs, kind) {
            Some(g) => {
                if cs[0] != Node::Group(g) {
                    let i = choose|i: int|
                        0 <= i < cs.drop_first().len() && cs.drop_first()[i] == Node::Group(g);
                    assert(cs[i + 1] == Node::Group(g));
                }
            },
            None => {},
        }
    }
}

/// Each group that `groups_in` lists is one of the first `k` children.
pub proof fn lemma_groups_in_index(cs: Seq<Node>, k: int, j: int)
    requires
        0 <= j < groups_in(cs, k).len(),
    ensures
        exists|i: int| 0 <= i < k && i < cs.len() && cs[i] == Node::Group(groups_in(cs, k)[j]),
    decreases k,
{
    if k <= 0 || k > cs.len() {
    } else {
        match cs[k - 1] {
            Node::Group(g) => {
                if j < groups_in(cs, k - 1).len() {
                    lemma_groups_in_index(cs, k - 1, j);
                } else {
                    assert(cs[k - 1] == Node::Group(groups_in(cs, k)[j]));
                }
            },
            _ => {
                lemma_groups_in_index(cs, k - 1, j);
            },
        }
    }
}

/// The child groups of a well-formed group are well formed.
pub proof fn lemma_subgroups_wf(g: Group)
    requires
        g.wf(),
    ensures
        forall|j: int| 0 <= j < g.groups_spec().len() ==> (#[trigger] g.groups_spec()[j]).wf(),
        forall|k: QbeSyntax| (#[trigger] g.group_of(k)) is Some ==> g.group_of(k).unwrap().wf(),
{
    assert forall|j: int| 0 <= j < g.groups_spec().len() implies (#[trigger] g.groups_spec()[j]).wf() by {
        lemma_groups_in_index(g.children@, g.children@.len() as int, j);
        let i = choose|i: int|
            0 <= i < g.children@.len() as int && i < g.children@.len() && g.children@[i] == Node::Group(
                groups_in(g.children@, g.children@.len() as int)[j],
            );
        lemma_wf_child(g, i);
    }
    assert forall|k: QbeSyntax| (#[trigger] g.group_of(k)) is Some implies g.group_of(k).unwrap().wf() by {
        lemma_first_group_index(g.children@, k);
        match g.group_of(k) {
            Some(c) => {
                let i = choose|i: int| 0 <= i < g.children@.len() && g.children@[i] == Node::Group(c);
                lemma_wf_child(g, i);
            },
            None => {},
        }
    }
}

impl Group {
    /// The first child lexeme of kind `k`.
    pub open spec fn lexeme_of(self, k: QbeToken) -> Option<Lexeme> {
        first_lexeme_of(self.children@, k)
    }

    /// The first child group of kind `k`.
    pub open spec fn group_of(self, k: QbeSyntax) -> Option<Group> {
        first_group_of(self.children@, k)
    }

    /// No error node below the group is an empty list of unexpected lexemes.
    pub open spec fn wf(self) -> bool {
        children_wf(self.children@, self.children@.len())
    }

    pub open spec fn start_spec(self) -> usize {
        if self.children@.len() == 0 {
            0
        } else {
            node_start(self.children@[0])
        }
    }

    pub open spec fn end_spec(self) -> usize {
        if self.children@.len() == 0 {
            0
        } else {
            node_end(self.children@[self.children@.len() - 1])
        }
    }

    pub open spec fn span_spec(self) -> Span {
        Span { start: self.start_spec(), end: self.end_spec() }
    }

    pub open spec fn groups_spec(self) -> Seq<Group> {
        groups_in(self.children@, self.children@.len() as int)
    }

    pub open spec fn tokens_spec(self) -> Seq<Lexeme> {
        children_tokens(self.children@, self.children@.len())
    }

    /// The first offset the group covers, or 0 for a group without children.
    pub fn start_offset(&self) -> (r: usize)
        requires
            self.wf(),
        ensures
            r == self.start_spec(),
    {
        if self.children.len() == 0 {
            0
        } else {
            proof {
                lemma_wf_child(*self, 0);
            }
            self.children[0].start_offset()
        }
    }

    /// The offset just past the group, or 0 for a group without children.
    pub fn end_offset(&self) -> (r: usize)
        ensures
            r == self.end_spec(),
    {
        let n = self.children.len();
        if n == 0 {
            0
        } else {
            self.children[n - 1].end_offset()
        }
    }

    /// Whether no error node below the group is an empty list of unexpected lexemes.
    pub fn is_wf(&self) -> (r: bool)
        ensures
            r == self.wf(),
    {
        children_are_wf(&self.children)
    }

    /// The range of offsets the group covers.
    pub fn span(&self) -> (r: Span)
        requires
            self.wf(),
        ensures
            r == self.span_spec(),
    {
        Span { start: self.start_offset(), end: self.end_offset() }
    }

    /// The child groups, in order.
    pub fn groups(&self) -> (r: Vec<&Group>)
        ensures
            r@.len() == self.groups_spec().len(),
            forall|i: int| 0 <= i < r@.len() ==> *r@[i] == #[trigger] self.groups_spec()[i],
    {
        let mut r: Vec<&Group> = Vec::new();
        let n = self.children.len();
        let mut i: usize = 0;
        while i < n
            invariant
                n == self.children@.len(),
                i <= n,
                r@.len() == groups_in(self.children@, i as int).len(),
                forall|j: int|
                    0 <= j < r@.len() ==> *r@[j] == #[trigger] groups_in(self.children@, i as int)[j],
            decreases n - i,
        {
            match &self.children[i] {
                Node::Group(g) => {
                    r.push(g);
                },
                _ => {},
            }
            i = i + 1;
        }
        r
    }

    /// The first child group of the given kind.
    pub fn group_by_kind(&self, kind: QbeSyntax) -> (r: Option<&Group>)
        ensures
            match r {
                Some(g) => first_group_of(self.children@, kind) == Some(*g),
                None => first_group_of(self.children@, kind) is None,
            },
    {
        let n = self.children.len();
        let mut i: usize = 0;
        assert(self.children@.skip(0) =~= self.children@);
        while i < n
            invariant
                n == self.children@.len(),
                i <= n,
                first_group_of(self.children@, kind) == first_group_of(self.children@.skip(i as int), kind),
            decreases n - i,
        {
            assert(self.children@.skip(i as int).drop_first() =~= self.children@.skip(i + 1));
            match &self.children[i] {
                Node::Group(g) => {
                    if g.kind == kind {
                        return Some(g);
                    }
                },
                _ => {},
            }
            i = i + 1;
        }
        None
    }

    /// The first child lexeme of the given kind.
    pub fn token_by_kind(&self, kind: QbeToken) -> (r: Option<&Lexeme>)
        ensures
            match r {
                Some(l) => first_lexeme_of(self.children@, kind) == Some(*l),
                None => first_lexeme_of(self.children@, kind) is None,
            },
    {
        let n = self.children.len();
        let mut i: usize = 0;
        assert(self.children@.skip(0) =~= self.children@);
        while i < n
            invariant
                n == self.children@.len(),
                i <= n,
                first_lexeme_of(self.children@, kind) == first_lexeme_of(self.children@.skip(i as int), kind),
            decreases n - i,
        {
            assert(self.children@.skip(i as int).drop_first() =~= self.children@.skip(i + 1));
            match &self.children[i] {
                Node::Lexeme(l) => {
                    if l.kind == kind {
                        return Some(l);
                    }
                },
                _ => {},
            }
            i = i + 1;
        }
        None
    }

    /// Copies of all lexemes below the group, in the order of `node_tokens`.
    pub fn all_tokens(&self) -> (r: Vec<Lexeme>)
        ensures
            r@ == self.tokens_spec(),
    {
        let mut r: Vec<Lexeme> = Vec::new();
        push_children_tokens(&self.children, &mut r);
        r
    }
}

fn children_are_wf(cs: &Vec<Node>) -> (r: bool)
    ensures
        r == children_wf(cs@, cs@.len()),
    decreases cs@, 1nat,
{
    let n = cs.len();
    let mut i: usize = 0;
    while i < n
        invariant
            n == cs@.len(),
            i <= n,
            children_wf(cs@, i as nat),
        decreases n - i,
    {
        if !cs[i].is_wf() {
            proof {
                if children_wf(cs@, n as nat) {
                    lemma_children_wf(cs@, n as nat, i as int);
                }
            }
            return false;
        }
        i = i + 1;
    }
    true
}

fn push_children_tokens(cs: &Vec<Node>, out: &mut Vec<Lexeme>)
    ensures
        final(out)@ == old(out)@ + children_tokens(cs@, cs@.len()),
    decreases cs@, 1nat,
{
    let n = cs.len();
    let mut i: usize = 0;
    while i < n
        invariant
            n == cs@.len(),
            i <= n,
            out@ == old(out)@ + children_tokens(cs@, i as nat),
        decreases n - i,
    {
        let ghost before = out@;
        cs[i].push_tokens(out);
        assert(out@ =~= old(out)@ + children_tokens(cs@, (i + 1) as nat));
        i = i + 1;
    }
}

impl Node {
    /// The first offset the node covers.
    pub fn start_offset(&self) -> (r: usize)
        requires
            node_wf(*self),
        ensures
            r == node_start(*self),
        decreases self,
    {
        match self {
            Node::Group(g) => {
                if g.children.len() == 0 {
                    0
                } else {
                    proof {
                        lemma_wf_child(*g, 0);
                    }
                    g.children[0].start_offset()
                }
            },
            Node::Lexeme(l) => l.span.start,
            Node::Skipped(l) => l.span.start,
            Node::Error(ParseError::Unexpected { actual, .. }) => actual[0].span.start,
            Node::Error(ParseError::MissingError { start }) => *start,
        }
    }

    /// The offset just past the node.
    pub fn end_offset(&self) -> (r: usize)
        ensures
            r == node_end(*self),
        decreases self,
    {
        match self {
            Node::Group(g) => {
                let n = g.children.len();
                if n == 0 {
                    0
                } else {
                    g.children[n - 1].end_offset()
                }
            },
            Node::Lexeme(l) => l.span.end,
            Node::Skipped(l) => l.span.end,
            Node::Error(ParseError::Unexpected { start, actual }) => {
                let n = actual.len();
                if n == 0 {
                    *start
                } else {
                    actual[n - 1].span.end
                }
            },
            Node::Error(ParseError::MissingError { start }) => *start,
        }
    }

    /// Whether no error node at or below the node is an empty list of unexpected lexemes.
    pub fn is_wf(&self) -> (r: bool)
        ensures
            r == node_wf(*self),
        decreases *self, 0nat,
    {
        match self {
            Node::Group(g) => children_are_wf(&g.children),
            Node::Error(ParseError::Unexpected { actual, .. }) => actual.len() > 0,
            _ => true,
        }
    }

    /// The range of offsets the node covers.
    pub fn span(&self) -> (r: Span)
        requires
            node_wf(*self),
        ensures
            r == (Span { start: node_start(*self), end: node_end(*self) }),
    {
        Span { start: self.start_offset(), end: self.end_offset() }
    }

    /// Copies of all lexemes below the node, in the order of `node_tokens`.
    pub fn all_tokens(&self) -> (r: Vec<Lexeme>)
        ensures
            r@ == node_tokens(*self),
    {
        let mut r: Vec<Lexeme> = Vec::new();
        self.push_tokens(&mut r);
        assert(r@ =~= node_tokens(*self));
        r
    }

    fn push_tokens(&self, out: &mut Vec<Lexeme>)
        ensures
            final(out)@ == old(out)@ + node_tokens(*self),
        decreases *self, 0nat,
    {
        match self {
            Node::Group(g) => {
                push_children_tokens(&g.children, out);
            },
            Node::Lexeme(l) => {
                out.push(l.duplicate());
            },
            Node::Skipped(l) => {
                out.push(l.duplicate());
            },
            Node::Error(ParseError::Unexpected { actual, .. }) => {
                let mut j: usize = actual.len();
                assert(reversed_from(actual@, j as int) =~= Seq::<Lexeme>::empty());
                while j > 0
                    invariant
                        j <= actual@.len(),
                        out@ == old(out)@ + reversed_from(actual@, j as int),
                    decreases j,
                {
                    j = j - 1;
                    out.push(actual[j].duplicate());
                    assert(out@ =~= old(out)@ + reversed_from(actual@, j as int));
                }
            },
            Node::Error(ParseError::MissingError { .. }) => {},
        }
    }
}

} // verus!
