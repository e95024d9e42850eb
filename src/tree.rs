//! Parsed syntax trees held as an arena of nodes, and the naming table of a language.
use vstd::prelude::*;

verus! {

/// The kind id that a parser gives to a node it could not parse.
pub const ERROR_KIND: u16 = 65535;

/// One node of a parsed tree: its grammar kind, whether the grammar names it
/// (punctuation and keywords are anonymous), its source text, its byte span
/// and the positions of its children in the arena, in source order.
pub struct NodeData {
    pub kind_id: u16,
    pub is_named: bool,
    pub text: String,
    pub start: usize,
    pub end: usize,
    pub children: Vec<usize>,
}

/// A parsed tree. Node 0 is the root; every child stands after its parent.
pub struct Tree {
    pub nodes: Vec<NodeData>,
}

impl Tree {
    pub open spec fn len(&self) -> nat {
        self.nodes@.len()
    }

    pub open spec fn kind(&self, i: int) -> u16 {
        self.nodes@[i].kind_id
    }

    pub open spec fn named(&self, i: int) -> bool {
        self.nodes@[i].is_named
    }

    pub open spec fn text(&self, i: int) -> Seq<char> {
        self.nodes@[i].text@
    }

    pub open spec fn nch(&self, i: int) -> nat {
        self.nodes@[i].children@.len()
    }

    pub open spec fn child(&self, i: int, k: int) -> int {
        self.nodes@[i].children@[k] as int
    }

    /// Children stand after their parent, and a child's span lies within its parent's.
    pub open spec fn wf(&self) -> bool {
        &&& forall|i: int| 0 <= i < self.len() ==> (#[trigger] self.nodes@[i]).start <= self.nodes@[i].end
        &&& forall|i: int, k: int|
            0 <= i < self.len() && 0 <= k < self.nch(i) ==> {
                let c = #[trigger] self.child(i, k);
                &&& i < c < self.len()
                &&& self.nodes@[i].start <= self.nodes@[c].start
                &&& self.nodes@[c].end <= self.nodes@[i].end
            }
    }

    /// Pre-order depth-first traversal from node `i`: the node, then each child's traversal.
    pub open spec fn dfs(&self, i: int) -> Seq<usize>
        decreases self.len() - i, self.nch(i) + 1,
    {
        if 0 <= i < self.len() {
            seq![i as usize] + self.dfs_children(i, self.nch(i) as int)
        } else {
            Seq::empty()
        }
    }

    /// The traversals of the first `k` children of node `i`, one after the other.
    pub open spec fn dfs_children(&self, i: int, k: int) -> Seq<usize>
        decreases self.len() - i, k,
    {
        if 0 <= i < self.len() && 0 < k <= self.nch(i) {
            let c = self.child(i, k - 1);
            if i < c < self.len() {
                self.dfs_children(i, k - 1) + self.dfs(c)
            } else {
                self.dfs_children(i, k - 1)
            }
        } else {
            Seq::empty()
        }
    }

    pub fn new() -> (r: Tree)
        ensures
            r.len() == 0,
            r.wf(),
    {
        Tree { nodes: Vec::new() }
    }

    /// Adds a node as the last child of `parent`, or as the root when `parent` is `None`
    /// and the tree is empty. Returns its position.
    pub fn add_node(
        &mut self,
        parent: Option<usize>,
        kind_id: u16,
        is_named: bool,
        text: &str,
        start: usize,
        end: usize,
    ) -> (r: usize)
        requires
            old(self).wf(),
            old(self).len() < usize::MAX,
            start <= end,
            match parent {
                None => old(self).len() == 0,
                Some(p) => p < old(self).len() && old(self).nodes@[p as int].start <= start
                    && end <= old(self).nodes@[p as int].end,
            },
        ensures
            final(self).wf(),
            r == old(self).len(),
            final(self).len() == old(self).len() + 1,
            final(self).kind(r as int) == kind_id,
            final(self).named(r as int) == is_named,
            final(self).text(r as int) == text@,
            final(self).nodes@[r as int].start == start,
            final(self).nodes@[r as int].end == end,
            final(self).nch(r as int) == 0,
            forall|i: int| 0 <= i < old(self).len() && Some(i as usize) != parent ==>
                #[trigger] final(self).nodes@[i] == old(self).nodes@[i],
            match parent {
                None => true,
                Some(p) => {
                    &&& final(self).nodes@[p as int].children@ == old(self).nodes@[p as int].children@.push(r)
                    &&& final(self).kind(p as int) == old(self).kind(p as int)
                    &&& final(self).named(p as int) == old(self).named(p as int)
                    &&& final(self).text(p as int) == old(self).text(p as int)
                    &&& final(self).nodes@[p as int].start == old(self).nodes@[p as int].start
                    &&& final(self).nodes@[p as int].end == old(self).nodes@[p as int].end
                },
            },
    {
        let r = self.nodes.len();
        let data = NodeData {
            kind_id,
            is_named,
            text: String::from_str(text),
            start,
            end,
            children: Vec::new(),
        };
        match parent {
            None => {
                self.nodes.push(data);
            },
            Some(p) => {
                let mut pd = self.nodes.remove(p);
                pd.children.push(r);
                self.nodes.insert(p, pd);
                self.nodes.push(data);
            },
        }
        proof {
            let t = *self;
            assert forall|i: int, k: int|
                0 <= i < t.len() && 0 <= k < t.nch(i) implies {
                let c = #[trigger] t.child(i, k);
                &&& i < c < t.len()
                &&& t.nodes@[i].start <= t.nodes@[c].start
                &&& t.nodes@[c].end <= t.nodes@[i].end
            } by {
                if i < r && Some(i as usize) != parent {
                    assert(old(self).child(i, k) == t.child(i, k));
                } else if i < r {
                    if k < old(self).nch(i) {
                        assert(old(self).child(i, k) == t.child(i, k));
                    }
                }
            }
        }
        r
    }

    /// Appends the pre-order traversal from node `i` to `order`, and to `sizes`, for each
    /// position appended, the length of the traversal from the node at that position.
    pub fn collect_dfs(&self, i: usize, order: &mut Vec<usize>, sizes: &mut Vec<usize>)
        requires
            self.wf(),
            i < self.len(),
            old(order)@.len() == old(sizes)@.len(),
        ensures
            final(order)@ == old(order)@ + self.dfs(i as int),
            final(sizes)@.len() == final(order)@.len(),
            final(sizes)@.take(old(sizes)@.len() as int) == old(sizes)@,
            forall|p: int| old(order)@.len() <= p < final(order)@.len() ==> {
                &&& (#[trigger] final(sizes)@[p]) == self.dfs(final(order)@[p] as int).len()
                &&& p + final(sizes)@[p] <= final(order)@.len()
            },
        decreases self.len() - i,
    {
        let base = order.len();
        order.push(i);
        sizes.push(0);
        let n = self.nodes[i].children.len();
        let mut k: usize = 0;
        while k < n
            invariant
                self.wf(),
                i < self.len(),
                n == self.nch(i as int),
                k <= n,
                base == old(order)@.len(),
                order@ == old(order)@ + seq![i] + self.dfs_children(i as int, k as int),
                sizes@.len() == order@.len(),
                sizes@.take(base as int) == old(sizes)@,
                forall|p: int| base < p < order@.len() ==> {
                    &&& (#[trigger] sizes@[p]) == self.dfs(order@[p] as int).len()
                    &&& p + sizes@[p] <= order@.len()
                },
            decreases n - k,
        {
            let c = self.nodes[i].children[k];
            assert(c == self.child(i as int, k as int));
            let ghost o1 = order@;
            let ghost s1 = sizes@;
            self.collect_dfs(c, order, sizes);
            assert(self.dfs_children(i as int, k + 1) == self.dfs_children(i as int, k as int)
                + self.dfs(c as int));
            assert(order@ == old(order)@ + seq![i] + self.dfs_children(i as int, k + 1));
            assert(sizes@.take(base as int) == old(sizes)@) by {
                assert(sizes@.take(base as int) == s1.take(base as int));
            }
            assert forall|p: int| base < p < order@.len() implies {
                &&& (#[trigger] sizes@[p]) == self.dfs(order@[p] as int).len()
                &&& p + sizes@[p] <= order@.len()
            } by {
                if p < o1.len() {
                    assert(sizes@[p] == s1.take(o1.len() as int)[p]);
                    assert(order@[p] == o1[p]);
                }
            }
            k = k + 1;
        }
        let size = order.len() - base;
        sizes.set(base, size);
        assert(order@ == old(order)@ + self.dfs(i as int));
        assert(sizes@.take(old(sizes)@.len() as int) =~= old(sizes)@) by {
            assert(forall|p: int| 0 <= p < base ==> sizes@[p] == old(sizes)@[p]) by {
                assert(forall|p: int| 0 <= p < base ==> sizes@.take(base as int)[p] == old(sizes)@[p]);
            }
        }
    }

    pub fn node_count(&self) -> (r: usize)
        ensures
            r == self.len(),
    {
        self.nodes.len()
    }
}

} // verus!
