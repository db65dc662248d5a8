use crate::kind::{spec_from_tag, SyntaxKind};
use crate::range::SourceRange;
use vstd::prelude::*;

verus! {

/// One step of a walk over a syntax tree that enters each node before its
/// children and leaves it after them. What is entered comes with the number
/// that the parser gives its kind, and with its span.
#[derive(Clone, Copy, Debug, PartialEq, Eq, Structural)]
pub enum WalkStep {
    Enter { tag: u16, range: SourceRange },
    Leave,
}

/// A node or a token of a syntax tree. A token has no children.
#[derive(Debug)]
pub struct SyntaxNode {
    /// The number that the parser gives the kind of this node.
    pub tag: u16,
    /// The kind that the number stands for.
    pub kind: SyntaxKind,
    pub range: SourceRange,
    /// How many nodes a walk over the whole tree enters before this one.
    pub index: usize,
    pub children: Vec<SyntaxNode>,
}

/// The number of nodes in `nodes` and below them.
pub open spec fn total_size(nodes: Seq<SyntaxNode>) -> nat
    decreases nodes,
{
    if nodes.len() == 0 {
        0
    } else {
        nodes[0].size() + total_size(nodes.drop_first())
    }
}

/// The walks over `nodes`, one after the other.
pub open spec fn walk_all(nodes: Seq<SyntaxNode>) -> Seq<WalkStep>
    decreases nodes,
{
    if nodes.len() == 0 {
        Seq::empty()
    } else {
        nodes[0].walk() + walk_all(nodes.drop_first())
    }
}

impl SyntaxNode {
    /// The number of nodes in this subtree.
    pub open spec fn size(self) -> nat
        decreases self,
    {
        1 + total_size(self.children@)
    }

    /// The walk over this subtree.
    pub open spec fn walk(self) -> Seq<WalkStep>
        decreases self,
    {
        seq![WalkStep::Enter { tag: self.tag, range: self.range }] + walk_all(self.children@)
            + seq![WalkStep::Leave]
    }

    /// A well-formed subtree: every kind is the one that its number stands
    /// for, every span is in order, the children lie inside their parent
    /// from left to right without overlap, and `index` counts the nodes in
    /// the order of the walk.
    pub open spec fn wf(self) -> bool
        decreases self,
    {
        &&& self.kind == spec_from_tag(self.tag)
        &&& self.range.wf()
        &&& forall|i: int|
            0 <= i < self.children@.len() ==> (#[trigger] self.children@[i]).wf()
        &&& in_order(self.range, self.index, self.children@)
    }

    /// Whether this is the well-formed tree, its root at index zero, that
    /// `walk` is the walk of.
    pub open spec fn walks_as(self, walk: Seq<WalkStep>) -> bool {
        self.wf() && self.index == 0 && self.walk() == walk
    }

    /// Whether two subtrees are alike node for node: in number, kind, span
    /// and index, and in their children, taken in order.
    pub open spec fn alike(self, other: SyntaxNode) -> bool
        decreases self,
    {
        &&& self.tag == other.tag
        &&& self.kind == other.kind
        &&& self.range == other.range
        &&& self.index == other.index
        &&& self.children@.len() == other.children@.len()
        &&& forall|i: int|
            0 <= i < self.children@.len() ==> (#[trigger] self.children@[i]).alike(
                other.children@[i],
            )
    }
}

/// Whether `children` can stand below a node with the given span and index:
/// each inside the span, none beginning before the one to its left has
/// ended, and each numbered behind the nodes that the walk enters before it.
pub open spec fn in_order(range: SourceRange, index: usize, children: Seq<SyntaxNode>) -> bool {
    &&& forall|i: int|
        0 <= i < children.len() ==> {
            &&& range.spec_encloses((#[trigger] children[i]).range)
            &&& children[i].index == index + 1 + total_size(children.take(i))
        }
    &&& forall|i: int, j: int|
        0 <= i < j < children.len() ==> (#[trigger] children[i]).range.end <= (
        #[trigger] children[j]).range.start
}

/// The walk over two rows of nodes, one behind the other, is the walk over
/// the first and then the walk over the second; their sizes add up.
pub proof fn lemma_walk_all_add(a: Seq<SyntaxNode>, b: Seq<SyntaxNode>)
    ensures
        walk_all(a + b) == walk_all(a) + walk_all(b),
        total_size(a + b) == total_size(a) + total_size(b),
    decreases a.len(),
{
    if a.len() == 0 {
        assert(a + b =~= b);
    } else {
        lemma_walk_all_add(a.drop_first(), b);
        assert((a + b).drop_first() =~= a.drop_first() + b);
        assert(walk_all(a + b) =~= walk_all(a) + walk_all(b));
    }
}

/// One more node behind a row adds its walk behind the walk over the row,
/// and its size to the size of the row.
pub proof fn lemma_walk_all_push(nodes: Seq<SyntaxNode>, node: SyntaxNode)
    ensures
        walk_all(nodes.push(node)) == walk_all(nodes) + node.walk(),
        total_size(nodes.push(node)) == total_size(nodes) + node.size(),
{
    lemma_walk_all_add(nodes, seq![node]);
    assert(nodes.push(node) =~= nodes + seq![node]);
    let one = seq![node];
    assert(one.len() == 1 && one[0] == node);
    assert(one.drop_first() =~= Seq::<SyntaxNode>::empty());
    assert(walk_all(one.drop_first()) =~= Seq::<WalkStep>::empty());
    assert(total_size(one.drop_first()) == 0);
    assert(walk_all(one) =~= node.walk());
    assert(total_size(one) == node.size());
}

/// A walk enters once and leaves once for each node.
pub proof fn lemma_walk_len(node: SyntaxNode)
    ensures
        node.walk().len() == 2 * node.size(),
    decreases node,
{
    lemma_walk_all_len(node.children@);
}

/// The walk over a row of nodes has two steps for each node in and below it.
pub proof fn lemma_walk_all_len(nodes: Seq<SyntaxNode>)
    ensures
        walk_all(nodes).len() == 2 * total_size(nodes),
    decreases nodes,
{
    if nodes.len() > 0 {
        lemma_walk_len(nodes[0]);
        lemma_walk_all_len(nodes.drop_first());
    }
}

proof fn lemma_prefix_parts(a: Seq<WalkStep>, b: Seq<WalkStep>, s: Seq<WalkStep>)
    requires
        (a + b).is_prefix_of(s),
    ensures
        a.is_prefix_of(s),
        b.is_prefix_of(s.skip(a.len() as int)),
{
    assert(a =~= s.subrange(0, a.len() as int)) by {
        assert forall|i: int| 0 <= i < a.len() implies a[i] == s[i] by {
            assert((a + b)[i] == s.subrange(0, (a + b).len() as int)[i]);
        }
    }
    assert(b =~= s.skip(a.len() as int).subrange(0, b.len() as int)) by {
        assert forall|i: int| 0 <= i < b.len() implies b[i] == s[a.len() + i] by {
            assert((a + b)[a.len() + i] == s.subrange(0, (a + b).len() as int)[a.len() + i]);
        }
    }
}

/// No walk over a node is the beginning of a longer one: two walks that
/// begin the same sequence are one walk.
pub proof fn lemma_walk_prefix_free(a: SyntaxNode, b: SyntaxNode, s: Seq<WalkStep>)
    requires
        a.walk().is_prefix_of(s),
        b.walk().is_prefix_of(s),
    ensures
        a.walk() == b.walk(),
    decreases a,
{
    let enter_a = seq![WalkStep::Enter { tag: a.tag, range: a.range }];
    let enter_b = seq![WalkStep::Enter { tag: b.tag, range: b.range }];
    let rest_a = walk_all(a.children@) + seq![WalkStep::Leave];
    let rest_b = walk_all(b.children@) + seq![WalkStep::Leave];
    assert(a.walk() =~= enter_a + rest_a);
    assert(b.walk() =~= enter_b + rest_b);
    lemma_prefix_parts(enter_a, rest_a, s);
    lemma_prefix_parts(enter_b, rest_b, s);
    assert(enter_a[0] == s[0]);
    assert(enter_b[0] == s[0]);
    lemma_walks_prefix_free(a.children@, b.children@, s.skip(1));
}

proof fn lemma_walks_prefix_free(xs: Seq<SyntaxNode>, ys: Seq<SyntaxNode>, s: Seq<WalkStep>)
    requires
        (walk_all(xs) + seq![WalkStep::Leave]).is_prefix_of(s),
        (walk_all(ys) + seq![WalkStep::Leave]).is_prefix_of(s),
    ensures
        walk_all(xs) == walk_all(ys),
    decreases xs,
{
    let leave = seq![WalkStep::Leave];
    let wx = walk_all(xs) + leave;
    let wy = walk_all(ys) + leave;
    assert(wx[0] == s[0]);
    assert(wy[0] == s[0]);
    if xs.len() == 0 {
        if ys.len() > 0 {
            assert(ys[0].walk()[0] is Enter);
            assert(wy[0] == ys[0].walk()[0]);
        }
    } else {
        assert(xs[0].walk()[0] is Enter);
        assert(wx[0] == xs[0].walk()[0]);
        if ys.len() == 0 {
            assert(wy[0] is Leave);
        } else {
            let rest_x = walk_all(xs.drop_first()) + leave;
            let rest_y = walk_all(ys.drop_first()) + leave;
            assert(wx =~= xs[0].walk() + rest_x);
            assert(wy =~= ys[0].walk() + rest_y);
            lemma_prefix_parts(xs[0].walk(), rest_x, s);
            lemma_prefix_parts(ys[0].walk(), rest_y, s);
            lemma_walk_prefix_free(xs[0], ys[0], s);
            lemma_walks_prefix_free(
                xs.drop_first(),
                ys.drop_first(),
                s.skip(xs[0].walk().len() as int),
            );
        }
    }
}


/// Two nodes with one walk are alike: of one number, with one span, of one
/// size, and with as many children, which have one walk each in turn. So a
/// walk is the walk of one tree, node for node.
pub proof fn lemma_same_walk_same_shape(a: SyntaxNode, b: SyntaxNode)
    requires
        a.walk() == b.walk(),
    ensures
        a.tag == b.tag,
        a.range == b.range,
        a.size() == b.size(),
        a.children@.len() == b.children@.len(),
        forall|i: int|
            0 <= i < a.children@.len() ==> (#[trigger] a.children@[i]).walk()
                == b.children@[i].walk(),
{
    let leave = seq![WalkStep::Leave];
    let enter_a = seq![WalkStep::Enter { tag: a.tag, range: a.range }];
    let enter_b = seq![WalkStep::Enter { tag: b.tag, range: b.range }];
    assert(a.walk()[0] == enter_a[0]);
    assert(b.walk()[0] == enter_b[0]);
    lemma_walk_len(a);
    lemma_walk_len(b);
    assert(walk_all(a.children@) =~= a.walk().subrange(1, a.walk().len() - 1));
    assert(walk_all(b.children@) =~= b.walk().subrange(1, b.walk().len() - 1));
    lemma_same_walks_same_shapes(a.children@, b.children@);
}

proof fn lemma_same_walks_same_shapes(xs: Seq<SyntaxNode>, ys: Seq<SyntaxNode>)
    requires
        walk_all(xs) == walk_all(ys),
    ensures
        xs.len() == ys.len(),
        forall|i: int| 0 <= i < xs.len() ==> (#[trigger] xs[i]).walk() == ys[i].walk(),
    decreases xs.len(),
{
    if xs.len() == 0 {
        if ys.len() > 0 {
            assert(ys[0].walk().len() > 0);
        }
    } else {
        assert(xs[0].walk().len() > 0);
        if ys.len() > 0 {
            let whole = walk_all(xs);
            assert(xs[0].walk().is_prefix_of(whole)) by {
                assert(xs[0].walk() =~= whole.subrange(0, xs[0].walk().len() as int));
            }
            assert(ys[0].walk().is_prefix_of(whole)) by {
                assert(ys[0].walk() =~= whole.subrange(0, ys[0].walk().len() as int));
            }
            lemma_walk_prefix_free(xs[0], ys[0], whole);
            assert(walk_all(xs.drop_first()) =~= whole.skip(xs[0].walk().len() as int));
            assert(walk_all(ys.drop_first()) =~= whole.skip(ys[0].walk().len() as int));
            lemma_same_walks_same_shapes(xs.drop_first(), ys.drop_first());
            assert forall|i: int| 0 <= i < xs.len() implies (#[trigger] xs[i]).walk()
                == ys[i].walk() by {
                if i > 0 {
                    assert(xs.drop_first()[i - 1] == xs[i]);
                    assert(ys.drop_first()[i - 1] == ys[i]);
                }
            }
        }
    }
}

/// A walk has one tree: two well-formed trees with the same walk are alike
/// node for node.
pub proof fn lemma_walk_has_one_tree(a: SyntaxNode, b: SyntaxNode, walk: Seq<WalkStep>)
    requires
        a.walks_as(walk),
        b.walks_as(walk),
    ensures
        a.alike(b),
{
    lemma_same_walk_alike(a, b);
}

proof fn lemma_same_walk_alike(a: SyntaxNode, b: SyntaxNode)
    requires
        a.wf(),
        b.wf(),
        a.index == b.index,
        a.walk() == b.walk(),
    ensures
        a.alike(b),
    decreases a,
{
    lemma_same_walk_same_shape(a, b);
    assert forall|i: int| 0 <= i < a.children@.len() implies (#[trigger] a.children@[i]).alike(
        b.children@[i],
    ) by {
        lemma_same_walks_same_sizes(a.children@, b.children@, i);
        assert(b.children@[i].wf());
        lemma_same_walk_alike(a.children@[i], b.children@[i]);
    }
}

proof fn lemma_same_walks_same_sizes(xs: Seq<SyntaxNode>, ys: Seq<SyntaxNode>, n: int)
    requires
        xs.len() == ys.len(),
        0 <= n <= xs.len(),
        forall|i: int| 0 <= i < xs.len() ==> (#[trigger] xs[i]).walk() == ys[i].walk(),
    ensures
        total_size(xs.take(n)) == total_size(ys.take(n)),
    decreases n,
{
    if n == 0 {
        assert(xs.take(0) =~= Seq::<SyntaxNode>::empty());
        assert(ys.take(0) =~= Seq::<SyntaxNode>::empty());
    } else {
        lemma_same_walks_same_sizes(xs, ys, n - 1);
        assert(xs.take(n) =~= xs.take(n - 1).push(xs[n - 1]));
        assert(ys.take(n) =~= ys.take(n - 1).push(ys[n - 1]));
        lemma_walk_all_push(xs.take(n - 1), xs[n - 1]);
        lemma_walk_all_push(ys.take(n - 1), ys[n - 1]);
        lemma_walk_len(xs[n - 1]);
        lemma_walk_len(ys[n - 1]);
    }
}

/// Whether `tree` can be the subtree that the walk enters at `pos`, as the
/// node with the given index.
#[verifier::opaque]
spec fn starts_at(tree: SyntaxNode, walk: Seq<WalkStep>, pos: int, index: usize) -> bool {
    &&& tree.wf()
    &&& tree.index == index
    &&& 0 <= pos <= walk.len()
    &&& tree.walk().is_prefix_of(walk.skip(pos))
}

/// Whether the first children of `tree` walk and count as `children` do, and
/// the last of them ends at `floor`.
#[verifier::opaque]
spec fn agrees(tree: SyntaxNode, children: Seq<SyntaxNode>, floor: u32) -> bool {
    let n = children.len() as int;
    &&& n <= tree.children@.len()
    &&& walk_all(tree.children@.take(n)) == walk_all(children)
    &&& total_size(tree.children@.take(n)) == total_size(children)
    &&& (n > 0 ==> tree.children@[n - 1].range.end == floor)
}

proof fn lemma_next_child(tree: SyntaxNode, walk: Seq<WalkStep>, pos: int, p: int, n: int)
    requires
        0 <= pos < p <= walk.len(),
        tree.walk().is_prefix_of(walk.skip(pos)),
        0 <= n <= tree.children@.len(),
        walk_all(tree.children@.take(n)) == walk.subrange(pos + 1, p),
    ensures
        p < walk.len(),
        walk[pos] == (WalkStep::Enter { tag: tree.tag, range: tree.range }),
        walk[p] is Enter ==> n < tree.children@.len() && tree.children@[n].walk().is_prefix_of(
            walk.skip(p),
        ),
{
    let kids = tree.children@;
    let leave = seq![WalkStep::Leave];
    let head = seq![WalkStep::Enter { tag: tree.tag, range: tree.range }] + walk_all(
        kids.take(n),
    );
    let tail = walk_all(kids.skip(n)) + leave;
    assert(kids =~= kids.take(n) + kids.skip(n));
    lemma_walk_all_add(kids.take(n), kids.skip(n));
    assert(tree.walk() =~= head + tail);
    lemma_prefix_parts(head, tail, walk.skip(pos));
    assert(head[0] == walk.skip(pos)[0]);
    assert(walk.skip(pos).skip(p - pos) =~= walk.skip(p));
    assert(tail[0] == walk.skip(p)[0]);
    if n == kids.len() {
        assert(kids.skip(n) =~= Seq::<SyntaxNode>::empty());
        assert(tail[0] is Leave);
    } else {
        let rest = walk_all(kids.skip(n).drop_first()) + leave;
        assert(kids.skip(n)[0] == kids[n]);
        assert(tail =~= kids[n].walk() + rest);
        lemma_prefix_parts(kids[n].walk(), rest, walk.skip(p));
    }
}

/// No tree starts where the walk has ended, leaves, or enters a span that is
/// out of order.
proof fn lemma_no_start(walk: Seq<WalkStep>, pos: int, index: usize)
    requires
        0 <= pos <= walk.len(),
        pos < walk.len() ==> match walk[pos] {
            WalkStep::Enter { range, .. } => !range.wf(),
            WalkStep::Leave => true,
        },
    ensures
        forall|tree: SyntaxNode| !#[trigger] starts_at(tree, walk, pos, index),
{
    reveal(starts_at);
    assert forall|tree: SyntaxNode| !#[trigger] starts_at(tree, walk, pos, index) by {
        assert(tree.walk()[0] == (WalkStep::Enter { tag: tree.tag, range: tree.range }));
        if pos < walk.len() {
            assert(walk.skip(pos)[0] == walk[pos]);
        }
    }
}

/// Every tree that starts at `pos` has the span that the walk enters there,
/// and nothing yet to agree with.
proof fn lemma_first_agrees(tree: SyntaxNode, floor: u32)
    ensures
        agrees(tree, Seq::empty(), floor),
{
    reveal(agrees);
    assert(tree.children@.take(0) =~= Seq::<SyntaxNode>::empty());
}

/// A tree that agrees with the children read so far has its next child where
/// the walk enters next.
proof fn lemma_child_starts(
    tree: SyntaxNode,
    walk: Seq<WalkStep>,
    pos: int,
    index: usize,
    p: int,
    k: usize,
    children: Seq<SyntaxNode>,
    floor: u32,
)
    requires
        starts_at(tree, walk, pos, index),
        agrees(tree, children, floor),
        0 <= pos < p <= walk.len(),
        walk_all(children) == walk.subrange(pos + 1, p),
        k == index + 1 + total_size(children),
    ensures
        p < walk.len(),
        walk[pos] == (WalkStep::Enter { tag: tree.tag, range: tree.range }),
        walk[p] is Enter ==> children.len() < tree.children@.len() && starts_at(
            tree.children@[children.len() as int],
            walk,
            p,
            k,
        ),
{
    reveal(starts_at);
    reveal(agrees);
    let n = children.len() as int;
    lemma_next_child(tree, walk, pos, p, n);
    if walk[p] is Enter {
        assert(tree.children@[n].wf());
    }
}

/// A tree that agrees with the children read so far agrees with them and the
/// child read next, which is its own next child in span and in size.
proof fn lemma_agrees_push(
    tree: SyntaxNode,
    walk: Seq<WalkStep>,
    pos: int,
    index: usize,
    p: int,
    next: int,
    children: Seq<SyntaxNode>,
    floor: u32,
    child: SyntaxNode,
)
    requires
        starts_at(tree, walk, pos, index),
        agrees(tree, children, floor),
        0 <= pos < p < next <= walk.len(),
        walk_all(children) == walk.subrange(pos + 1, p),
        child.walk() == walk.subrange(p, next),
    ensures
        agrees(tree, children.push(child), child.range.end),
        tree.range.spec_encloses(child.range),
        children.len() > 0 ==> floor <= child.range.start,
{
    reveal(starts_at);
    reveal(agrees);
    let n = children.len() as int;
    lemma_next_child(tree, walk, pos, p, n);
    assert(child.walk()[0] == (WalkStep::Enter { tag: child.tag, range: child.range }));
    assert(walk[p] == child.walk()[0]);
    let twin = tree.children@[n];
    assert(child.walk().is_prefix_of(walk.skip(p))) by {
        assert(child.walk() =~= walk.skip(p).subrange(0, next - p));
    }
    lemma_walk_prefix_free(twin, child, walk.skip(p));
    lemma_walk_len(twin);
    lemma_walk_len(child);
    assert(twin.walk()[0] == (WalkStep::Enter { tag: twin.tag, range: twin.range }));
    assert(tree.children@.take(n + 1) =~= tree.children@.take(n).push(twin));
    lemma_walk_all_push(tree.children@.take(n), twin);
    lemma_walk_all_push(children, child);
    assert(children.push(child).len() == n + 1);
}

/// Children in order stay in order when one more is put behind them that
/// lies inside the span, behind all of them, and is numbered next.
proof fn lemma_in_order_push(
    range: SourceRange,
    index: usize,
    children: Seq<SyntaxNode>,
    child: SyntaxNode,
)
    requires
        in_order(range, index, children),
        range.spec_encloses(child.range),
        child.index == index + 1 + total_size(children),
        forall|i: int|
            0 <= i < children.len() ==> (#[trigger] children[i]).range.end <= child.range.start,
    ensures
        in_order(range, index, children.push(child)),
{
    let after = children.push(child);
    let n = children.len() as int;
    assert forall|i: int| 0 <= i < after.len() implies {
        &&& range.spec_encloses((#[trigger] after[i]).range)
        &&& after[i].index == index + 1 + total_size(after.take(i))
    } by {
        if i < n {
            assert(after[i] == children[i]);
            assert(after.take(i) =~= children.take(i));
        } else {
            assert(after.take(i) =~= children);
        }
    }
    assert forall|i: int, j: int| 0 <= i < j < after.len() implies (#[trigger] after[i]).range.end
        <= (#[trigger] after[j]).range.start by {
        assert(after[i] == children[i]);
        if j < n {
            assert(after[j] == children[j]);
        }
    }
}

/// Reads the subtree that `walk` enters at `pos`, whose first node gets the
/// given index. Returns it with the position behind its walk and the index
/// behind its nodes.
#[verifier::loop_isolation(false)]
fn read_node(walk: &Vec<WalkStep>, pos: usize, index: usize) -> (read: Option<
    (SyntaxNode, usize, usize),
>)
    requires
        index <= pos <= walk@.len(),
    ensures
        match read {
            Some((node, next, next_index)) => {
                &&& pos < next <= walk@.len()
                &&& node.wf()
                &&& node.index == index
                &&& node.walk() == walk@.subrange(pos as int, next as int)
                &&& next_index == index + node.size()
                &&& next_index <= next
            },
            None => forall|tree: SyntaxNode| !#[trigger] starts_at(tree, walk@, pos as int, index),
        },
    decreases walk@.len() - pos,
{
    if pos >= walk.len() {
        proof {
            lemma_no_start(walk@, pos as int, index);
        }
        return None;
    }
    let (tag, range) = match walk[pos] {
        WalkStep::Enter { tag, range } => (tag, range),
        WalkStep::Leave => {
            proof {
                lemma_no_start(walk@, pos as int, index);
            }
            return None;
        },
    };
    if range.start > range.end {
        proof {
            lemma_no_start(walk@, pos as int, index);
        }
        return None;
    }
    let mut children: Vec<SyntaxNode> = Vec::new();
    let mut p: usize = pos + 1;
    let mut k: usize = index + 1;
    let mut floor: u32 = range.start;
    proof {
        assert(walk_all(children@) =~= walk@.subrange(pos + 1, p as int));
        assert(children@ =~= Seq::<SyntaxNode>::empty());
        assert forall|tree: SyntaxNode| #[trigger]
            starts_at(tree, walk@, pos as int, index) implies agrees(tree, children@, floor) by {
            lemma_first_agrees(tree, floor);
        }
    }
    loop
        invariant
            pos < p <= walk@.len(),
            index < k <= p,
            k == index + 1 + total_size(children@),
            walk_all(children@) == walk@.subrange(pos + 1, p as int),
            range.start <= floor <= range.end,
            children@.len() == 0 ==> floor == range.start,
            children@.len() > 0 ==> floor == children@.last().range.end,
            forall|i: int| 0 <= i < children@.len() ==> (#[trigger] children@[i]).range.end <= floor,
            forall|i: int| 0 <= i < children@.len() ==> (#[trigger] children@[i]).wf(),
            in_order(range, index, children@),
            forall|tree: SyntaxNode| #[trigger]
                starts_at(tree, walk@, pos as int, index) ==> agrees(tree, children@, floor),
        decreases walk@.len() - p,
    {
        let ghost before = children@;
        proof {
            assert forall|tree: SyntaxNode| #[trigger]
                starts_at(tree, walk@, pos as int, index) implies p < walk@.len() && tree.range
                == range && (walk@[p as int] is Enter ==> before.len() < tree.children@.len()
                && starts_at(tree.children@[before.len() as int], walk@, p as int, k)) by {
                lemma_child_starts(tree, walk@, pos as int, index, p as int, k, before, floor);
            }
        }
        if p >= walk.len() {
            return None;
        }
        match walk[p] {
            WalkStep::Leave => {
                let node = SyntaxNode { tag, kind: SyntaxKind::from_tag(tag), range, index, children };
                proof {
                    assert(node.walk() =~= walk@.subrange(pos as int, p + 1));
                }
                return Some((node, p + 1, k));
            },
            WalkStep::Enter { .. } => {
                match read_node(walk, p, k) {
                    None => {
                        return None;
                    },
                    Some((child, next, next_index)) => {
                        proof {
                            assert forall|tree: SyntaxNode| #[trigger]
                                starts_at(tree, walk@, pos as int, index) implies agrees(
                                tree,
                                before.push(child),
                                child.range.end,
                            ) && range.spec_encloses(child.range) && (before.len() > 0 ==> floor
                                <= child.range.start) by {
                                lemma_agrees_push(
                                    tree,
                                    walk@,
                                    pos as int,
                                    index,
                                    p as int,
                                    next as int,
                                    before,
                                    floor,
                                    child,
                                );
                            }
                        }
                        if child.range.start < floor || child.range.end > range.end {
                            return None;
                        }
                        proof {
                            lemma_walk_all_push(before, child);
                            lemma_in_order_push(range, index, before, child);
                            assert(walk@.subrange(pos + 1, p as int) + walk@.subrange(
                                p as int,
                                next as int,
                            ) =~= walk@.subrange(pos + 1, next as int));
                        }
                        floor = child.range.end;
                        children.push(child);
                        p = next;
                        k = next_index;
                    },
                }
            },
        }
    }
}

impl SyntaxNode {
    /// Builds the well-formed tree that `walk` is the walk of, with its root
    /// at index zero. A walk has one such tree (`lemma_walk_has_one_tree`).
    ///
    /// Each node gets the kind that its number stands for. There is no tree
    /// where the steps do not nest, where a span is out of order, or where a
    /// child lies outside its parent or begins before the child to its left
    /// has ended.
    pub fn from_walk(walk: &Vec<WalkStep>) -> (built: Option<SyntaxNode>)
        ensures
            match built {
                Some(tree) => tree.walks_as(walk@),
                None => forall|tree: SyntaxNode| !#[trigger] tree.walks_as(walk@),
            },
    {
        match read_node(walk, 0, 0) {
            None => {
                proof {
                    assert forall|tree: SyntaxNode| !#[trigger] tree.walks_as(walk@) by {
                        if tree.walks_as(walk@) {
                            reveal(starts_at);
                            assert(walk@.skip(0) =~= walk@);
                            assert(starts_at(tree, walk@, 0, 0));
                        }
                    }
                }
                None
            },
            Some((node, next, _)) => {
                if next == walk.len() {
                    proof {
                        assert(walk@.subrange(0, next as int) =~= walk@);
                    }
                    Some(node)
                } else {
                    proof {
                        assert forall|tree: SyntaxNode| !#[trigger] tree.walks_as(walk@) by {
                            if tree.walks_as(walk@) {
                                lemma_walk_prefix_free(node, tree, walk@);
                            }
                        }
                    }
                    None
                }
            },
        }
    }
}

} // verus!
