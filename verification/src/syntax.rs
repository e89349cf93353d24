//! A plain syntax tree: the parts of a concrete syntax tree that the Python
//! and Swift front ends read, held as ordinary values.
use vstd::prelude::*;

verus! {

/// One node of a concrete syntax tree.
pub struct SyntaxNode {
    /// The grammar's name for the node, such as `"function_definition"`.
    pub kind: String,
    /// Whether the grammar names this node (punctuation and keywords are unnamed).
    pub is_named: bool,
    /// The field name under which the parent holds this node, if any.
    pub field: Option<String>,
    /// The source text the node spans.
    pub text: String,
    /// 0-based row of the node's first character.
    pub start_row: usize,
    /// 0-based row of the node's last character.
    pub end_row: usize,
    pub children: Vec<SyntaxNode>,
}

/// The index of the first node of `cs` whose kind is `kind`, or `cs.len()`.
pub open spec fn index_of_kind(cs: Seq<SyntaxNode>, kind: Seq<char>) -> int
    decreases cs.len(),
{
    if cs.len() == 0 {
        0
    } else if cs[0].kind@ == kind {
        0
    } else {
        1 + index_of_kind(cs.drop_first(), kind)
    }
}

/// The first child of `n` of kind `kind`, if any.
pub open spec fn child_of_kind(n: SyntaxNode, kind: Seq<char>) -> Option<SyntaxNode> {
    let i = index_of_kind(n.children@, kind);
    if 0 <= i < n.children@.len() {
        Some(n.children@[i])
    } else {
        None
    }
}

/// The index of the first node of `cs` held under field `name`, or `cs.len()`.
pub open spec fn index_of_field(cs: Seq<SyntaxNode>, name: Seq<char>) -> int
    decreases cs.len(),
{
    if cs.len() == 0 {
        0
    } else if crate::model::smell::opt_view(cs[0].field) == Some(name) {
        0
    } else {
        1 + index_of_field(cs.drop_first(), name)
    }
}

/// The first child of `n` held under field `name`, if any.
pub open spec fn child_by_field(n: SyntaxNode, name: Seq<char>) -> Option<SyntaxNode> {
    let i = index_of_field(n.children@, name);
    if 0 <= i < n.children@.len() {
        Some(n.children@[i])
    } else {
        None
    }
}

/// The number of named nodes in `cs`.
pub open spec fn named_count(cs: Seq<SyntaxNode>) -> nat
    decreases cs.len(),
{
    if cs.len() == 0 {
        0
    } else {
        named_count(cs.drop_last()) + if cs.last().is_named {
            1nat
        } else {
            0nat
        }
    }
}

/// The named nodes of `cs`, in order.
pub open spec fn named_only(cs: Seq<SyntaxNode>) -> Seq<SyntaxNode>
    decreases cs.len(),
{
    if cs.len() == 0 {
        Seq::empty()
    } else {
        named_only(cs.drop_last()) + if cs.last().is_named {
            seq![cs.last()]
        } else {
            Seq::empty()
        }
    }
}

/// Whether `n` or a node below it has kind `kind`.
pub open spec fn has_kind(n: SyntaxNode, kind: Seq<char>) -> bool
    decreases n,
{
    n.kind@ == kind || any_has_kind(n.children@, kind)
}

/// Whether some node of `cs`, or a node below one, has kind `kind`.
pub open spec fn any_has_kind(cs: Seq<SyntaxNode>, kind: Seq<char>) -> bool
    decreases cs,
{
    if cs.len() == 0 {
        false
    } else {
        any_has_kind(cs.drop_last(), kind) || has_kind(cs.last(), kind)
    }
}

impl SyntaxNode {
    /// Whether this node's kind is `kind`.
    pub fn is_kind(&self, kind: &str) -> (r: bool)
        ensures
            r == (self.kind@ == kind@),
    {
        let k = crate::text::chars_of(self.kind.as_str());
        crate::text::equals_str(&k, kind)
    }

    /// The index of the first child of kind `kind`, or the number of children.
    pub fn kind_index(&self, kind: &str) -> (r: usize)
        ensures
            r == index_of_kind(self.children@, kind@),
            r <= self.children@.len(),
    {
        let mut i: usize = 0;
        proof {
            assert(self.children@.skip(0) =~= self.children@);
        }
        while i < self.children.len()
            invariant
                i <= self.children@.len(),
                index_of_kind(self.children@, kind@) == i + index_of_kind(
                    self.children@.skip(i as int),
                    kind@,
                ),
            decreases self.children.len() - i,
        {
            let ghost rest = self.children@.skip(i as int);
            proof {
                assert(rest.drop_first() =~= self.children@.skip(i as int + 1));
            }
            if self.children[i].is_kind(kind) {
                return i;
            }
            i += 1;
        }
        i
    }

    /// The first child of kind `kind`, if any.
    pub fn find_child(&self, kind: &str) -> (r: Option<&SyntaxNode>)
        ensures
            match r {
                Some(c) => child_of_kind(*self, kind@) == Some(*c),
                None => child_of_kind(*self, kind@) is None,
            },
    {
        let i = self.kind_index(kind);
        if i < self.children.len() {
            Some(&self.children[i])
        } else {
            None
        }
    }

    /// The first child held under field `name`, if any.
    pub fn child_by_field_name(&self, name: &str) -> (r: Option<&SyntaxNode>)
        ensures
            match r {
                Some(c) => child_by_field(*self, name@) == Some(*c),
                None => child_by_field(*self, name@) is None,
            },
    {
        let mut i: usize = 0;
        proof {
            assert(self.children@.skip(0) =~= self.children@);
        }
        while i < self.children.len()
            invariant
                i <= self.children@.len(),
                index_of_field(self.children@, name@) == i + index_of_field(
                    self.children@.skip(i as int),
                    name@,
                ),
            decreases self.children.len() - i,
        {
            let ghost rest = self.children@.skip(i as int);
            proof {
                assert(rest.drop_first() =~= self.children@.skip(i as int + 1));
            }
            let hit = match &self.children[i].field {
                Some(f) => {
                    let fc = crate::text::chars_of(f.as_str());
                    crate::text::equals_str(&fc, name)
                },
                None => false,
            };
            if hit {
                return Some(&self.children[i]);
            }
            i += 1;
        }
        None
    }

    /// The number of named children.
    pub fn named_child_count(&self) -> (r: usize)
        ensures
            r == named_count(self.children@),
    {
        let mut n: usize = 0;
        let mut i: usize = 0;
        while i < self.children.len()
            invariant
                i <= self.children@.len(),
                n == named_count(self.children@.take(i as int)),
                n <= i,
            decreases self.children.len() - i,
        {
            proof {
                assert(self.children@.take(i as int + 1).drop_last() =~= self.children@.take(
                    i as int,
                ));
            }
            if self.children[i].is_named {
                n += 1;
            }
            i += 1;
        }
        proof {
            assert(self.children@.take(self.children@.len() as int) =~= self.children@);
        }
        n
    }

    /// Whether this node or a node below it has kind `kind`.
    pub fn contains_kind(&self, kind: &str) -> (r: bool)
        ensures
            r == has_kind(*self, kind@),
        decreases self,
    {
        if self.is_kind(kind) {
            return true;
        }
        let mut i: usize = 0;
        while i < self.children.len()
            invariant
                i <= self.children@.len(),
                !any_has_kind(self.children@.take(i as int), kind@),
            decreases self.children.len() - i,
        {
            proof {
                assert(self.children@.take(i as int + 1).drop_last() =~= self.children@.take(
                    i as int,
                ));
            }
            if self.children[i].contains_kind(kind) {
                proof {
                    lemma_any_has_kind_member(self.children@, i as int, kind@);
                }
                return true;
            }
            i += 1;
        }
        proof {
            assert(self.children@.take(self.children@.len() as int) =~= self.children@);
        }
        false
    }
}

/// A node of `cs` that has `kind` below it makes the whole list have it.
pub proof fn lemma_any_has_kind_member(cs: Seq<SyntaxNode>, i: int, kind: Seq<char>)
    requires
        0 <= i < cs.len(),
        has_kind(cs[i], kind),
    ensures
        any_has_kind(cs, kind),
    decreases cs.len(),
{
    if i < cs.len() - 1 {
        lemma_any_has_kind_member(cs.drop_last(), i, kind);
    }
}

/// The number of nodes in the tree rooted at `n`.
pub open spec fn node_size(n: SyntaxNode) -> nat
    decreases n,
{
    1 + sizes(n.children@)
}

/// The number of nodes in the trees rooted at `cs`.
pub open spec fn sizes(cs: Seq<SyntaxNode>) -> nat
    decreases cs,
{
    if cs.len() == 0 {
        0
    } else {
        sizes(cs.drop_last()) + node_size(cs.last())
    }
}

proof fn lemma_member_size(cs: Seq<SyntaxNode>, i: int)
    requires
        0 <= i < cs.len(),
    ensures
        node_size(cs[i]) <= sizes(cs),
    decreases cs.len(),
{
    if i < cs.len() - 1 {
        lemma_member_size(cs.drop_last(), i);
    }
}

/// A child's tree is smaller than its parent's.
pub proof fn lemma_child_smaller(n: SyntaxNode, i: int)
    requires
        0 <= i < n.children@.len(),
    ensures
        node_size(n.children@[i]) < node_size(n),
{
    lemma_member_size(n.children@, i);
}

/// A child found by kind is smaller than its parent.
pub proof fn lemma_kind_child_smaller(n: SyntaxNode, kind: Seq<char>)
    ensures
        child_of_kind(n, kind) matches Some(c) ==> node_size(c) < node_size(n),
{
    let i = index_of_kind(n.children@, kind);
    if 0 <= i < n.children@.len() {
        lemma_child_smaller(n, i);
    }
}

/// A child found by field is smaller than its parent.
pub proof fn lemma_field_child_smaller(n: SyntaxNode, name: Seq<char>)
    ensures
        child_by_field(n, name) matches Some(c) ==> node_size(c) < node_size(n),
{
    let i = index_of_field(n.children@, name);
    if 0 <= i < n.children@.len() {
        lemma_child_smaller(n, i);
    }
}

/// Whether `a` carries the same tree as `b`: every field of every node,
/// taken by its value, agrees.
pub open spec fn agrees(a: SyntaxNode, b: SyntaxNode) -> bool
    decreases b,
{
    &&& a.kind@ == b.kind@
    &&& a.is_named == b.is_named
    &&& crate::model::smell::opt_view(a.field) == crate::model::smell::opt_view(b.field)
    &&& a.text@ == b.text@
    &&& a.start_row == b.start_row
    &&& a.end_row == b.end_row
    &&& a.children@.len() == b.children@.len()
    &&& forall|i: int|
        0 <= i < b.children@.len() ==> agrees(#[trigger] a.children@[i], b.children@[i])
}

/// Whether no node of the tree at `n` lies more than `depth` levels below it.
pub open spec fn within_depth(n: SyntaxNode, depth: nat) -> bool
    decreases depth,
{
    if depth == 0 {
        n.children@.len() == 0
    } else {
        forall|i: int| 0 <= i < n.children@.len() ==> within_depth(#[trigger] n.children@[i], (depth - 1) as nat)
    }
}

/// A tree within some depth is within every greater depth.
pub proof fn lemma_within_more(n: SyntaxNode, d: nat, e: nat)
    requires
        within_depth(n, d),
        d <= e,
    ensures
        within_depth(n, e),
    decreases d,
{
    if d > 0 {
        assert forall|i: int| 0 <= i < n.children@.len() implies within_depth(
            #[trigger] n.children@[i],
            (e - 1) as nat,
        ) by {
            lemma_within_more(n.children@[i], (d - 1) as nat, (e - 1) as nat);
        }
    }
}

/// No tree is deeper than it has nodes.
pub proof fn lemma_within_size(n: SyntaxNode)
    ensures
        within_depth(n, node_size(n)),
    decreases node_size(n),
{
    assert forall|i: int| 0 <= i < n.children@.len() implies within_depth(
        #[trigger] n.children@[i],
        (node_size(n) - 1) as nat,
    ) by {
        lemma_child_smaller(n, i);
        lemma_within_size(n.children@[i]);
        lemma_within_more(n.children@[i], node_size(n.children@[i]), (node_size(n) - 1) as nat);
    }
}

} // verus!
