//! The matcher capability, the trivial matchers, and searching a tree for matches.
use vstd::prelude::*;
use bit_set::BitSet;
use crate::kinds::{contains_kind, empty_kinds, kind_set};
use crate::meta_var::{EnvModel, MetaVarEnv, env_in};
use crate::tree::Tree;

verus! {

/// A node that matched, with the bindings made by the match.
pub struct NodeMatch {
    pub node: usize,
    pub env: MetaVarEnv,
}

/// Anything that can decide whether a node matches, given an environment of bindings.
pub trait Matcher: Sized {
    /// The outcome of matching node `n` of `t` from environment `env`: the node that
    /// matched and the environment after the match, or `None`.
    spec fn spec_match(&self, t: Tree, n: usize, env: EnvModel) -> Option<(usize, EnvModel)>;

    /// The kind ids that a matching node may have; `None` when any kind may match.
    spec fn spec_kinds(&self) -> Option<Set<usize>>;

    /// The length of the span a match of node `n` covers, when this matcher reports one.
    spec fn spec_match_len(&self, t: Tree, n: usize) -> Option<usize>;

    /// A node whose kind lies outside the reported kinds never matches.
    proof fn lemma_kinds_sound(&self, t: Tree, n: usize, env: EnvModel)
        requires
            t.wf(),
            n < t.len(),
            self.spec_kinds() is Some,
            !self.spec_kinds().unwrap().contains(t.kind(n as int) as usize),
        ensures
            self.spec_match(t, n, env) is None,
    ;

    /// Matches node `n`. On success returns the node that matched and leaves the
    /// bindings in `env`; on failure leaves `env` as it was.
    fn match_node_with_env(&self, t: &Tree, n: usize, env: &mut MetaVarEnv) -> (r: Option<usize>)
        requires
            t.wf(),
            n < t.len(),
            env_in(*t, old(env).view()),
        ensures
            match self.spec_match(*t, n, old(env).view()) {
                Some(res) => r == Some(res.0) && final(env).view() == res.1,
                None => r is None && final(env).view() == old(env).view(),
            },
            r is Some ==> r.unwrap() < t.len(),
            env_in(*t, final(env).view()),
    ;

    /// The kind ids that a matching node may have, or `None` for no information.
    fn potential_kinds(&self) -> (r: Option<BitSet>)
        ensures
            match r {
                None => self.spec_kinds() is None,
                Some(s) => self.spec_kinds() == Some(kind_set(s)),
            },
    ;

    /// The length of the meaningful span of a match of node `n`, trailing punctuation excluded.
    fn get_match_len(&self, t: &Tree, n: usize) -> (r: Option<usize>)
        requires
            t.wf(),
            n < t.len(),
        ensures
            r == self.spec_match_len(*t, n),
    ;
}

/// Matches node `n` with a fresh environment.
pub fn match_node<M: Matcher>(m: &M, t: &Tree, n: usize) -> (r: Option<NodeMatch>)
    requires
        t.wf(),
        n < t.len(),
    ensures
        match m.spec_match(*t, n, Seq::empty()) {
            Some(res) => r is Some && r.unwrap().node == res.0 && r.unwrap().env.view() == res.1,
            None => r is None,
        },
{
    let mut env = MetaVarEnv::new();
    match m.match_node_with_env(t, n, &mut env) {
        Some(m) => Some(NodeMatch { node: m, env }),
        None => None,
    }
}

/// The first match in the pre-order traversal that starts at (and includes) node `n`.
pub fn find_node<M: Matcher>(m: &M, t: &Tree, n: usize) -> (r: Option<NodeMatch>)
    requires
        t.wf(),
        n < t.len(),
    ensures
        match first_hit(*m, *t, t.dfs(n as int), 0) {
            Some(p) => {
                let res = m.spec_match(*t, t.dfs(n as int)[p], Seq::empty()).unwrap();
                r is Some && r.unwrap().node == res.0 && r.unwrap().env.view() == res.1
            },
            None => r is None,
        },
{
    let mut order: Vec<usize> = Vec::new();
    let mut sizes: Vec<usize> = Vec::new();
    t.collect_dfs(n, &mut order, &mut sizes);
    assert(order@ == t.dfs(n as int));
    let mut p: usize = 0;
    while p < order.len()
        invariant
            t.wf(),
            order@ == t.dfs(n as int),
            p <= order@.len(),
            first_hit(*m, *t, order@, 0) == first_hit(*m, *t, order@, p as int),
        decreases order@.len() - p,
    {
        let cand = order[p];
        proof {
            lemma_dfs_in(*t, n as int, p as int);
        }
        let found = match_node(m, t, cand);
        if found.is_some() {
            return found;
        }
        p = p + 1;
    }
    None
}

/// Whether a node of kind `kind` can match, given the kinds a matcher reported.
fn may_match(kinds: &Option<BitSet>, kind: u16) -> (r: bool)
    ensures
        match kinds {
            None => r,
            Some(s) => r == kind_set(*s).contains(kind as usize),
        },
{
    match kinds {
        None => true,
        Some(s) => contains_kind(s, kind as usize),
    }
}

/// The first position at or after `from` in `order` whose node matches with a fresh environment.
pub open spec fn first_hit<M: Matcher>(m: M, t: Tree, order: Seq<usize>, from: int) -> Option<int>
    decreases order.len() - from,
{
    if from < 0 || from >= order.len() {
        None
    } else if m.spec_match(t, order[from], Seq::empty()) is Some {
        Some(from)
    } else {
        first_hit(m, t, order, from + 1)
    }
}

/// Every node of a traversal is a node of the tree.
pub proof fn lemma_dfs_in(t: Tree, i: int, p: int)
    requires
        t.wf(),
        0 <= p < t.dfs(i).len(),
    ensures
        t.dfs(i)[p] < t.len(),
    decreases t.len() - i, t.nch(i) + 1,
{
    if 0 <= i < t.len() {
        if p > 0 {
            lemma_dfs_children_in(t, i, t.nch(i) as int, p - 1);
        }
    }
}

proof fn lemma_dfs_children_in(t: Tree, i: int, k: int, p: int)
    requires
        t.wf(),
        0 <= i < t.len(),
        0 <= p < t.dfs_children(i, k).len(),
    ensures
        t.dfs_children(i, k)[p] < t.len(),
    decreases t.len() - i, k,
{
    if 0 < k <= t.nch(i) {
        let c = t.child(i, k - 1);
        if i < c < t.len() {
            let left = t.dfs_children(i, k - 1);
            if p < left.len() {
                lemma_dfs_children_in(t, i, k - 1, p);
            } else {
                lemma_dfs_in(t, c, p - left.len());
            }
        } else {
            lemma_dfs_children_in(t, i, k - 1, p);
        }
    }
}

/// Matches every node and says nothing of kinds.
pub struct MatchAll;

impl Matcher for MatchAll {
    open spec fn spec_match(&self, t: Tree, n: usize, env: EnvModel) -> Option<(usize, EnvModel)> {
        Some((n, env))
    }

    open spec fn spec_kinds(&self) -> Option<Set<usize>> {
        None
    }

    open spec fn spec_match_len(&self, t: Tree, n: usize) -> Option<usize> {
        None
    }

    proof fn lemma_kinds_sound(&self, t: Tree, n: usize, env: EnvModel) {
    }

    fn match_node_with_env(&self, t: &Tree, n: usize, env: &mut MetaVarEnv) -> (r: Option<usize>) {
        Some(n)
    }

    fn potential_kinds(&self) -> (r: Option<BitSet>) {
        None
    }

    fn get_match_len(&self, t: &Tree, n: usize) -> (r: Option<usize>) {
        None
    }
}

/// Matches no node; its kind set is empty, so a search can skip every node.
pub struct MatchNone;

impl Matcher for MatchNone {
    open spec fn spec_match(&self, t: Tree, n: usize, env: EnvModel) -> Option<(usize, EnvModel)> {
        None
    }

    open spec fn spec_kinds(&self) -> Option<Set<usize>> {
        Some(Set::empty())
    }

    open spec fn spec_match_len(&self, t: Tree, n: usize) -> Option<usize> {
        None
    }

    proof fn lemma_kinds_sound(&self, t: Tree, n: usize, env: EnvModel) {
    }

    fn match_node_with_env(&self, t: &Tree, n: usize, env: &mut MetaVarEnv) -> (r: Option<usize>) {
        None
    }

    fn potential_kinds(&self) -> (r: Option<BitSet>) {
        Some(empty_kinds())
    }

    fn get_match_len(&self, t: &Tree, n: usize) -> (r: Option<usize>) {
        None
    }
}

/// A borrowed matcher matches as the matcher it borrows.
impl<'a, M: Matcher> Matcher for &'a M {
    open spec fn spec_match(&self, t: Tree, n: usize, env: EnvModel) -> Option<(usize, EnvModel)> {
        (**self).spec_match(t, n, env)
    }

    open spec fn spec_kinds(&self) -> Option<Set<usize>> {
        (**self).spec_kinds()
    }

    open spec fn spec_match_len(&self, t: Tree, n: usize) -> Option<usize> {
        (**self).spec_match_len(t, n)
    }

    proof fn lemma_kinds_sound(&self, t: Tree, n: usize, env: EnvModel) {
        (**self).lemma_kinds_sound(t, n, env);
    }

    fn match_node_with_env(&self, t: &Tree, n: usize, env: &mut MetaVarEnv) -> (r: Option<usize>) {
        (**self).match_node_with_env(t, n, env)
    }

    fn potential_kinds(&self) -> (r: Option<BitSet>) {
        (**self).potential_kinds()
    }

    fn get_match_len(&self, t: &Tree, n: usize) -> (r: Option<usize>) {
        (**self).get_match_len(t, n)
    }
}

/// A lazy, forward-only search for the matches within a subtree. Each step yields the
/// next node of the pre-order traversal that matches, then moves past that node's
/// whole subtree, so that the matches found never overlap.
pub struct FindAllNodes<'t, M: Matcher> {
    tree: &'t Tree,
    order: Vec<usize>,
    sizes: Vec<usize>,
    pos: usize,
    matcher: M,
    kinds: Option<BitSet>,
}

impl<'t, M: Matcher> FindAllNodes<'t, M> {
    pub closed spec fn tree(&self) -> Tree {
        *self.tree
    }

    /// The traversal being searched.
    pub closed spec fn order(&self) -> Seq<usize> {
        self.order@
    }

    /// The position in the traversal of the next candidate.
    pub closed spec fn pos(&self) -> int {
        self.pos as int
    }

    pub closed spec fn matcher(&self) -> M {
        self.matcher
    }

    pub closed spec fn wf(&self) -> bool {
        &&& self.tree.wf()
        &&& match self.kinds {
            None => self.matcher.spec_kinds() is None,
            Some(s) => self.matcher.spec_kinds() == Some(kind_set(s)),
        }
        &&& self.sizes@.len() == self.order@.len()
        &&& forall|p: int| 0 <= p < self.order@.len() ==> (#[trigger] self.order@[p]) < self.tree.len()
        &&& forall|p: int| 0 <= p < self.order@.len() ==> {
            &&& (#[trigger] self.sizes@[p]) == self.tree.dfs(self.order@[p] as int).len()
            &&& p + self.sizes@[p] <= self.order@.len()
        }
    }

    /// A search of the subtree at `node`, from its root.
    pub fn new(matcher: M, t: &'t Tree, node: usize) -> (r: Self)
        requires
            t.wf(),
            node < t.len(),
        ensures
            r.wf(),
            r.tree() == *t,
            r.order() == t.dfs(node as int),
            r.pos() == 0,
            r.matcher() == matcher,
    {
        let mut order: Vec<usize> = Vec::new();
        let mut sizes: Vec<usize> = Vec::new();
        t.collect_dfs(node, &mut order, &mut sizes);
        assert forall|p: int| 0 <= p < order@.len() implies (#[trigger] order@[p]) < t.len() by {
            lemma_dfs_in(*t, node as int, p);
        }
        let kinds = matcher.potential_kinds();
        FindAllNodes { tree: t, order, sizes, pos: 0, matcher, kinds }
    }

    /// The next match, if any. After a match at a position, the search goes on after
    /// the subtree of the node there; when none is left it ends.
    pub fn next(&mut self) -> (r: Option<NodeMatch>)
        requires
            old(self).wf(),
        ensures
            final(self).wf(),
            final(self).tree() == old(self).tree(),
            final(self).order() == old(self).order(),
            final(self).matcher() == old(self).matcher(),
            match first_hit(old(self).matcher(), old(self).tree(), old(self).order(), old(self).pos()) {
                Some(p) => {
                    let res = old(self).matcher().spec_match(
                        old(self).tree(),
                        old(self).order()[p],
                        Seq::empty(),
                    ).unwrap();
                    &&& r is Some
                    &&& r.unwrap().node == res.0
                    &&& r.unwrap().env.view() == res.1
                    &&& final(self).pos() == p + old(self).tree().dfs(old(self).order()[p] as int).len()
                },
                None => r is None && final(self).pos() == if old(self).pos() < old(self).order().len() {
                    old(self).order().len() as int
                } else {
                    old(self).pos()
                },
            },
    {
        while self.pos < self.order.len()
            invariant
                self.wf(),
                self.tree == old(self).tree,
                self.order@ == old(self).order@,
                self.sizes@ == old(self).sizes@,
                self.matcher == old(self).matcher,
                self.kinds == old(self).kinds,
                old(self).pos <= self.pos,
                old(self).pos < old(self).order@.len() ==> self.pos <= self.order@.len(),
                old(self).pos >= old(self).order@.len() ==> self.pos == old(self).pos,
                first_hit(self.matcher, *self.tree, self.order@, old(self).pos as int)
                    == first_hit(self.matcher, *self.tree, self.order@, self.pos as int),
            decreases self.order@.len() - self.pos,
        {
            let p = self.pos;
            let cand = self.order[p];
            if may_match(&self.kinds, self.tree.nodes[cand].kind_id) {
                let found = match_node(&self.matcher, self.tree, cand);
                if found.is_some() {
                    self.pos = p + self.sizes[p];
                    return found;
                }
            } else {
                proof {
                    self.matcher.lemma_kinds_sound(*self.tree, cand, Seq::empty());
                }
            }
            self.pos = p + 1;
        }
        None
    }
}

/// The match that `find_node` reports, which is also what a fresh `FindAllNodes` over
/// the same subtree yields first, is the earliest node of the traversal that matches:
/// that node matches, and none before it does.
pub proof fn lemma_first_match_is_earliest<M: Matcher>(m: M, t: Tree, order: Seq<usize>, from: int)
    requires
        0 <= from,
    ensures
        match first_hit(m, t, order, from) {
            Some(p) => from <= p < order.len() && m.spec_match(t, order[p], Seq::empty()) is Some
                && forall|q: int| from <= q < p ==> m.spec_match(t, #[trigger] order[q], Seq::empty()) is None,
            None => forall|q: int| from <= q < order.len() ==> m.spec_match(t, #[trigger] order[q], Seq::empty()) is None,
        },
    decreases order.len() - from,
{
    if from < order.len() {
        lemma_first_match_is_earliest(m, t, order, from + 1);
    }
}

/// Pruning never drops a match: when a matcher reports its kinds and the kind of
/// node `n` is not among them, node `n` does not match from any environment.
pub proof fn lemma_pruning_sound<M: Matcher>(m: M, t: Tree, n: usize, env: EnvModel)
    requires
        t.wf(),
        n < t.len(),
        m.spec_kinds() is Some,
        !m.spec_kinds().unwrap().contains(t.kind(n as int) as usize),
    ensures
        m.spec_match(t, n, env) is None,
{
    m.lemma_kinds_sound(t, n, env);
}

} // verus!
