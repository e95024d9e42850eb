//! Patterns: a snippet's tree, with its meta-variables marked, unified against candidate nodes.
use vstd::prelude::*;
use bit_set::BitSet;
use crate::kinds::{kind_set, single_kind};
use crate::matcher::Matcher;
use crate::meta_var::{Bound, EnvModel, MetaVarBinding, MetaVarEnv, env_in, env_insert, all_in};
use crate::tree::{ERROR_KIND, Tree};

verus! {

/// What a node of a pattern stands for.
pub enum SlotModel {
    /// A literal constraint on kind and, for a leaf, on text.
    Literal,
    /// `$NAME`: captures one node.
    Single(Seq<char>),
    /// `$$$NAME`: captures a run of zero or more siblings.
    Multi(Seq<char>),
}

pub open spec fn is_var_char(c: char) -> bool {
    ('A' <= c && c <= 'Z') || ('0' <= c && c <= '9') || c == '_'
}

pub open spec fn all_var_chars(s: Seq<char>) -> bool {
    forall|i: int| 0 <= i < s.len() ==> is_var_char(#[trigger] s[i])
}

/// The reading of a leaf's text: `$$$NAME` or `$NAME`, where NAME is one or more
/// upper-case letters, digits or underscores; anything else is literal.
pub open spec fn classify(text: Seq<char>) -> SlotModel {
    if text.len() > 3 && text[0] == '$' && text[1] == '$' && text[2] == '$' && all_var_chars(
        text.skip(3),
    ) {
        SlotModel::Multi(text.skip(3))
    } else if text.len() > 1 && text[0] == '$' && all_var_chars(text.skip(1)) {
        SlotModel::Single(text.skip(1))
    } else {
        SlotModel::Literal
    }
}

/// Only leaves are read as meta-variables.
pub open spec fn slot_of(t: Tree, i: int) -> SlotModel {
    if t.nch(i) == 0 {
        classify(t.text(i))
    } else {
        SlotModel::Literal
    }
}

/// The children of `c` from position `j` on are all anonymous (punctuation).
pub open spec fn trailing_anonymous(ct: Tree, c: int, j: int) -> bool {
    forall|k: int| j <= k < ct.nch(c) ==> !ct.named(#[trigger] ct.child(c, k))
}

/// The named nodes of `run`, in order.
pub open spec fn named_of(ct: Tree, run: Seq<usize>) -> Seq<usize>
    decreases run.len(),
{
    if run.len() == 0 {
        Seq::empty()
    } else if ct.named(run.last() as int) {
        named_of(ct, run.drop_last()).push(run.last())
    } else {
        named_of(ct, run.drop_last())
    }
}

/// Unifying pattern node `p` of `pt` with node `c` of `ct`, from environment `env`.
pub open spec fn m_node(pt: Tree, p: int, ct: Tree, c: int, env: EnvModel) -> Option<EnvModel>
    decreases pt.len() - p, pt.nch(p) + 2, 0int,
{
    if !(0 <= p < pt.len()) {
        None
    } else {
        match slot_of(pt, p) {
            SlotModel::Single(name) => env_insert(ct, env, name, Bound::One(c as usize)),
            SlotModel::Multi(name) => env_insert(ct, env, name, Bound::Many(seq![c as usize])),
            SlotModel::Literal => if pt.kind(p) != ct.kind(c) {
                None
            } else if pt.nch(p) == 0 {
                if pt.text(p) == ct.text(c) {
                    Some(env)
                } else {
                    None
                }
            } else {
                m_children(pt, p, 0, ct, c, 0, env)
            },
        }
    }
}

/// Unifying the children of `p` from position `i` on with the children of `c` from
/// position `j` on; anonymous children of `c` may follow the last one matched.
pub open spec fn m_children(
    pt: Tree,
    p: int,
    i: int,
    ct: Tree,
    c: int,
    j: int,
    env: EnvModel,
) -> Option<EnvModel>
    decreases pt.len() - p, pt.nch(p) + 1 - i, ct.nch(c) + 2,
{
    if !(0 <= p < pt.len()) || i < 0 || j < 0 || j > ct.nch(c) {
        None
    } else if i >= pt.nch(p) {
        if trailing_anonymous(ct, c, j) {
            Some(env)
        } else {
            None
        }
    } else {
        let q = pt.child(p, i);
        if !(p < q < pt.len()) {
            None
        } else {
            match slot_of(pt, q) {
                SlotModel::Multi(name) => m_var(pt, p, i, name, ct, c, j, ct.nch(c) - j, env),
                _ => if j >= ct.nch(c) {
                    None
                } else {
                    match m_node(pt, q, ct, ct.child(c, j), env) {
                        None => None,
                        Some(e) => m_children(pt, p, i + 1, ct, c, j + 1, e),
                    }
                },
            }
        }
    }
}

/// A variadic child `i` of `p` takes the `k` children of `c` from `j` on, or failing
/// that, fewer: the longest run that lets the rest unify wins.
pub open spec fn m_var(
    pt: Tree,
    p: int,
    i: int,
    name: Seq<char>,
    ct: Tree,
    c: int,
    j: int,
    k: int,
    env: EnvModel,
) -> Option<EnvModel>
    decreases pt.len() - p, pt.nch(p) + 1 - i, k + 1,
{
    if k < 0 || !(0 <= p < pt.len()) || i < 0 || i >= pt.nch(p) || j < 0 || j + k > ct.nch(c) {
        None
    } else {
        let run = named_of(ct, ct.nodes@[c].children@.subrange(j, j + k));
        let attempt = match env_insert(ct, env, name, Bound::Many(run)) {
            None => None,
            Some(e) => m_children(pt, p, i + 1, ct, c, j + k, e),
        };
        if attempt is Some {
            attempt
        } else {
            m_var(pt, p, i, name, ct, c, j, k - 1, env)
        }
    }
}

/// What a node of a pattern stands for, as the pattern holds it.
pub enum Slot {
    Literal,
    Single(String),
    Multi(String),
}

impl Slot {
    pub open spec fn view(&self) -> SlotModel {
        match self {
            Slot::Literal => SlotModel::Literal,
            Slot::Single(s) => SlotModel::Single(s@),
            Slot::Multi(s) => SlotModel::Multi(s@),
        }
    }
}

fn is_var_char_exec(c: char) -> (r: bool)
    ensures
        r == is_var_char(c),
{
    ('A' <= c && c <= 'Z') || ('0' <= c && c <= '9') || c == '_'
}

/// Whether the characters of `s` from position `from` on are all meta-variable characters.
fn var_chars_from(s: &str, from: usize) -> (r: bool)
    requires
        from <= s@.len(),
    ensures
        r == all_var_chars(s@.skip(from as int)),
{
    let n = s.unicode_len();
    let mut i: usize = from;
    while i < n
        invariant
            n == s@.len(),
            from <= i <= n,
            forall|k: int| from <= k < i ==> is_var_char(#[trigger] s@[k]),
        decreases n - i,
    {
        if !is_var_char_exec(s.get_char(i)) {
            assert(s@.skip(from as int)[i - from] == s@[i as int]);
            return false;
        }
        i = i + 1;
    }
    assert forall|k: int| 0 <= k < s@.skip(from as int).len() implies is_var_char(
        #[trigger] s@.skip(from as int)[k],
    ) by {
        assert(s@.skip(from as int)[k] == s@[k + from]);
    }
    true
}

/// Reads a leaf's text as a meta-variable or a literal.
pub fn classify_text(text: &str) -> (r: Slot)
    ensures
        r.view() == classify(text@),
{
    let n = text.unicode_len();
    if n > 3 && text.get_char(0) == '$' && text.get_char(1) == '$' && text.get_char(2) == '$'
        && var_chars_from(text, 3) {
        return Slot::Multi(String::from_str(text.substring_char(3, n)));
    }
    if n > 1 && text.get_char(0) == '$' && var_chars_from(text, 1) {
        return Slot::Single(String::from_str(text.substring_char(1, n)));
    }
    Slot::Literal
}

/// Why a snippet cannot be a pattern.
#[derive(Debug, Clone, Copy, PartialEq, Eq, Structural)]
pub enum PatternError {
    /// The snippet did not parse: its tree holds an error node.
    Parse,
    /// The snippet's tree has no node under its root.
    NoContent,
    /// The snippet is a bare meta-variable, which would match anything.
    OnlyMetaVariable,
}

/// The node a pattern starts from: down from `i` while a node has exactly one child.
pub open spec fn top_of(t: Tree, i: int) -> int
    decreases t.len() - i,
{
    if 0 <= i < t.len() && t.nch(i) == 1 && i < t.child(i, 0) < t.len() {
        top_of(t, t.child(i, 0))
    } else {
        i
    }
}

pub open spec fn has_error(t: Tree) -> bool {
    exists|i: int| 0 <= i < t.len() && #[trigger] t.kind(i) == ERROR_KIND
}

/// The outcome of building a pattern from a snippet's tree: the node it starts from, or the error.
pub open spec fn pattern_outcome(t: Tree) -> Result<int, PatternError> {
    if t.len() == 0 {
        Err(PatternError::NoContent)
    } else if has_error(t) {
        Err(PatternError::Parse)
    } else if t.nch(0) == 0 {
        Err(PatternError::NoContent)
    } else if slot_of(t, top_of(t, 0)) != SlotModel::Literal {
        Err(PatternError::OnlyMetaVariable)
    } else {
        Ok(top_of(t, 0))
    }
}

/// Position of the last named child of `n` among its first `k` children.
pub open spec fn last_named(t: Tree, n: int, k: int) -> Option<int>
    decreases k,
{
    if k <= 0 {
        None
    } else if t.named(t.child(n, k - 1)) {
        Some(k - 1)
    } else {
        last_named(t, n, k - 1)
    }
}

/// Where the meaningful part of node `n` ends: at its last named child, so that
/// trailing punctuation is left out; at its own end when no child is named.
pub open spec fn meaningful_end(t: Tree, n: int) -> int {
    match last_named(t, n, t.nch(n) as int) {
        Some(k) => t.nodes@[t.child(n, k)].end as int,
        None => t.nodes@[n].end as int,
    }
}

/// A compiled pattern: the snippet's tree, the node it starts from, and the reading of each node.
pub struct Pattern {
    tree: Tree,
    top: usize,
    slots: Vec<Slot>,
}

impl Pattern {
    pub closed spec fn snippet(&self) -> Tree {
        self.tree
    }

    pub closed spec fn top(&self) -> int {
        self.top as int
    }

    #[verifier::type_invariant]
    closed spec fn inv(&self) -> bool {
        self.wf()
    }

    /// The kind id of the node the pattern starts from.
    pub closed spec fn top_kind(&self) -> u16 {
        self.tree.kind(self.top as int)
    }

    pub closed spec fn wf(&self) -> bool {
        &&& self.tree.wf()
        &&& self.top < self.tree.len()
        &&& self.slots@.len() == self.tree.len()
        &&& forall|i: int| 0 <= i < self.tree.len() ==> (#[trigger] self.slots@[i]).view() == slot_of(self.tree, i)
        &&& slot_of(self.tree, self.top as int) == SlotModel::Literal
    }

    /// Builds a pattern from the parsed tree of a snippet.
    pub fn new(snippet: Tree) -> (r: Result<Pattern, PatternError>)
        requires
            snippet.wf(),
        ensures
            match pattern_outcome(snippet) {
                Ok(top) => r is Ok && r.unwrap().wf() && r.unwrap().snippet() == snippet
                    && r.unwrap().top() == top,
                Err(e) => r == Err::<Pattern, PatternError>(e),
            },
    {
        let n = snippet.nodes.len();
        if n == 0 {
            return Err(PatternError::NoContent);
        }
        let mut i: usize = 0;
        while i < n
            invariant
                n == snippet.len(),
                i <= n,
                forall|k: int| 0 <= k < i ==> #[trigger] snippet.kind(k) != ERROR_KIND,
            decreases n - i,
        {
            if snippet.nodes[i].kind_id == ERROR_KIND {
                assert(snippet.kind(i as int) == ERROR_KIND);
                return Err(PatternError::Parse);
            }
            i = i + 1;
        }
        assert(!has_error(snippet));
        if snippet.nodes[0].children.len() == 0 {
            return Err(PatternError::NoContent);
        }
        let mut slots: Vec<Slot> = Vec::new();
        let mut k: usize = 0;
        while k < n
            invariant
                n == snippet.len(),
                k <= n,
                slots@.len() == k,
                forall|m: int| 0 <= m < k ==> (#[trigger] slots@[m]).view() == slot_of(snippet, m),
            decreases n - k,
        {
            if snippet.nodes[k].children.len() == 0 {
                slots.push(classify_text(snippet.nodes[k].text.as_str()));
            } else {
                slots.push(Slot::Literal);
            }
            k = k + 1;
        }
        let mut top: usize = 0;
        loop
            invariant
                snippet.wf(),
                n == snippet.len(),
                top < n,
                top_of(snippet, top as int) == top_of(snippet, 0),
            ensures
                top < n,
                top_of(snippet, top as int) == top_of(snippet, 0),
                snippet.nch(top as int) != 1,
            decreases n - top,
        {
            if snippet.nodes[top].children.len() != 1 {
                break;
            }
            let c = snippet.nodes[top].children[0];
            assert(c == snippet.child(top as int, 0));
            top = c;
        }
        assert(top_of(snippet, top as int) == top);
        assert(slots@[top as int].view() == slot_of(snippet, top as int));
        match &slots[top] {
            Slot::Literal => {},
            _ => {
                return Err(PatternError::OnlyMetaVariable);
            },
        }
        Ok(Pattern { tree: snippet, top, slots })
    }
}

/// `b` extends `a`: the bindings of `a` come first, unchanged.
pub open spec fn extends(a: EnvModel, b: EnvModel) -> bool {
    a.len() <= b.len() && forall|k: int| 0 <= k < a.len() ==> #[trigger] b[k] == a[k]
}

proof fn lemma_extends_trans(a: EnvModel, b: EnvModel, c: EnvModel)
    requires
        extends(a, b),
        extends(b, c),
    ensures
        extends(a, c),
{
}

proof fn lemma_insert_extends(t: Tree, env: EnvModel, name: Seq<char>, b: Bound)
    requires
        env_insert(t, env, name, b) is Some,
    ensures
        extends(env, env_insert(t, env, name, b).unwrap()),
{
}

/// Whether the children of `c` from position `j` on are all anonymous.
fn trailing_anonymous_exec(ct: &Tree, c: usize, j: usize) -> (r: bool)
    requires
        ct.wf(),
        c < ct.len(),
    ensures
        r == trailing_anonymous(*ct, c as int, j as int),
{
    let n = ct.nodes[c].children.len();
    let mut k: usize = j;
    while k < n
        invariant
            ct.wf(),
            c < ct.len(),
            n == ct.nch(c as int),
            j <= k,
            forall|m: int| j <= m < k && m < n ==> !ct.named(#[trigger] ct.child(c as int, m)),
        decreases n - k,
    {
        let x = ct.nodes[c].children[k];
        assert(x == ct.child(c as int, k as int));
        if ct.nodes[x].is_named {
            assert(ct.named(ct.child(c as int, k as int)));
            return false;
        }
        k = k + 1;
    }
    true
}

/// The named nodes among the children of `c` at positions `j` to `j + k`.
fn named_run(ct: &Tree, c: usize, j: usize, k: usize) -> (r: Vec<usize>)
    requires
        ct.wf(),
        c < ct.len(),
        j + k <= ct.nch(c as int),
    ensures
        r@ == named_of(*ct, ct.nodes@[c as int].children@.subrange(j as int, j + k)),
        all_in(*ct, r@),
{
    let ghost kids = ct.nodes@[c as int].children@;
    let nk = ct.nodes[c].children.len();
    let mut out: Vec<usize> = Vec::new();
    let mut m: usize = 0;
    while m < k
        invariant
            ct.wf(),
            c < ct.len(),
            kids == ct.nodes@[c as int].children@,
            j + k <= kids.len(),
            nk == kids.len(),
            m <= k,
            out@ == named_of(*ct, kids.subrange(j as int, j + m)),
            all_in(*ct, out@),
        decreases k - m,
    {
        let x = ct.nodes[c].children[j + m];
        assert(x == ct.child(c as int, j + m));
        assert(kids.subrange(j as int, j + m + 1).drop_last() == kids.subrange(j as int, j + m));
        if ct.nodes[x].is_named {
            out.push(x);
        }
        m = m + 1;
    }
    out
}

impl Pattern {
    /// Unifies pattern node `p` with node `c` of `t`; on failure `env` is unchanged.
    fn match_at(&self, t: &Tree, p: usize, c: usize, env: &mut MetaVarEnv) -> (r: bool)
        requires
            self.wf(),
            t.wf(),
            p < self.tree.len(),
            c < t.len(),
            env_in(*t, old(env).view()),
        ensures
            r == m_node(self.tree, p as int, *t, c as int, old(env).view()) is Some,
            r ==> final(env).view() == m_node(self.tree, p as int, *t, c as int, old(env).view()).unwrap(),
            !r ==> final(env).view() == old(env).view(),
            env_in(*t, final(env).view()),
            extends(old(env).view(), final(env).view()),
        decreases self.tree.len() - p, self.tree.nch(p as int) + 2,
    {
        assert(self.slots@[p as int].view() == slot_of(self.tree, p as int));
        let ghost e0 = env.view();
        match &self.slots[p] {
            Slot::Single(name) => {
                assert(slot_of(self.tree, p as int) == SlotModel::Single(name@));
                assert(m_node(self.tree, p as int, *t, c as int, e0) == env_insert(*t, e0, name@, Bound::One(c)));
                let ok = env.insert(t, name.clone(), MetaVarBinding::Single(c));
                proof {
                    if ok {
                        lemma_insert_extends(*t, e0, name@, Bound::One(c));
                    }
                }
                ok
            },
            Slot::Multi(name) => {
                assert(slot_of(self.tree, p as int) == SlotModel::Multi(name@));
                let v = vec![c];
                assert(v@ == seq![c]);
                let ok = env.insert(t, name.clone(), MetaVarBinding::Multi(v));
                proof {
                    if ok {
                        lemma_insert_extends(*t, e0, name@, Bound::Many(seq![c]));
                    }
                }
                ok
            },
            Slot::Literal => {
                if self.tree.nodes[p].kind_id != t.nodes[c].kind_id {
                    return false;
                }
                if self.tree.nodes[p].children.len() == 0 {
                    return self.tree.nodes[p].text == t.nodes[c].text;
                }
                self.match_children(t, p, 0, c, 0, env)
            },
        }
    }

    /// Unifies the children of `p` from `i` on with those of `c` from `j` on;
    /// on failure `env` is unchanged.
    fn match_children(&self, t: &Tree, p: usize, i: usize, c: usize, j: usize, env: &mut MetaVarEnv) -> (r: bool)
        requires
            self.wf(),
            t.wf(),
            p < self.tree.len(),
            c < t.len(),
            i <= self.tree.nch(p as int),
            j <= t.nch(c as int),
            env_in(*t, old(env).view()),
        ensures
            r == m_children(self.tree, p as int, i as int, *t, c as int, j as int, old(env).view()) is Some,
            r ==> final(env).view() == m_children(self.tree, p as int, i as int, *t, c as int, j as int, old(env).view()).unwrap(),
            !r ==> final(env).view() == old(env).view(),
            env_in(*t, final(env).view()),
            extends(old(env).view(), final(env).view()),
        decreases self.tree.len() - p, self.tree.nch(p as int) + 1 - i,
    {
        let ghost e0 = env.view();
        let np = self.tree.nodes[p].children.len();
        let nc = t.nodes[c].children.len();
        if i == np {
            return trailing_anonymous_exec(t, c, j);
        }
        let q = self.tree.nodes[p].children[i];
        assert(q == self.tree.child(p as int, i as int));
        assert(self.slots@[q as int].view() == slot_of(self.tree, q as int));
        let base = env.len();
        match &self.slots[q] {
            Slot::Multi(name) => {
                let ghost nm = name@;
                let mut k: usize = nc - j;
                loop
                    invariant
                        self.wf(),
                        t.wf(),
                        p < self.tree.len(),
                        c < t.len(),
                        i < np == self.tree.nch(p as int),
                        nc == t.nch(c as int),
                        j + k <= nc,
                        q == self.tree.child(p as int, i as int),
                        slot_of(self.tree, q as int) == SlotModel::Multi(nm),
                        name@ == nm,
                        env.view() == e0,
                        e0 == old(env).view(),
                        base == e0.len(),
                        env_in(*t, e0),
                        m_children(self.tree, p as int, i as int, *t, c as int, j as int, e0)
                            == m_var(self.tree, p as int, i as int, nm, *t, c as int, j as int, k as int, e0),
                    decreases k,
                {
                    let run = named_run(t, c, j, k);
                    let ghost rv = run@;
                    if env.insert(t, name.clone(), MetaVarBinding::Multi(run)) {
                        proof {
                            lemma_insert_extends(*t, e0, nm, Bound::Many(rv));
                        }
                        let ghost e1 = env.view();
                        assert(env_insert(*t, e0, nm, Bound::Many(rv)) == Some(e1));
                        if self.match_children(t, p, i + 1, c, j + k, env) {
                            proof {
                                lemma_extends_trans(e0, e1, env.view());
                                assert(rv == named_of(*t, t.nodes@[c as int].children@.subrange(j as int, j + k)));
                                assert(m_var(self.tree, p as int, i as int, nm, *t, c as int, j as int, k as int, e0)
                                    == Some(env.view()));
                            }
                            return true;
                        }
                        env.truncate(base);
                        assert(env.view() =~= e0);
                    }
                    if k == 0 {
                        assert(m_var(self.tree, p as int, i as int, nm, *t, c as int, j as int, -1, e0) is None);
                        return false;
                    }
                    k = k - 1;
                }
            },
            _ => {
                if j >= nc {
                    return false;
                }
                let d = t.nodes[c].children[j];
                assert(d == t.child(c as int, j as int));
                if self.match_at(t, q, d, env) {
                    let ghost e1 = env.view();
                    if self.match_children(t, p, i + 1, c, j + 1, env) {
                        proof {
                            lemma_extends_trans(e0, e1, env.view());
                        }
                        return true;
                    }
                    env.truncate(base);
                    assert(env.view() =~= e0);
                }
                false
            },
        }
    }
}

/// Where the meaningful part of node `n` ends (see `meaningful_end`).
fn meaningful_end_exec(t: &Tree, n: usize) -> (r: usize)
    requires
        t.wf(),
        n < t.len(),
    ensures
        r == meaningful_end(*t, n as int),
        t.nodes@[n as int].start <= r <= t.nodes@[n as int].end,
{
    let mut k: usize = t.nodes[n].children.len();
    while k > 0
        invariant
            t.wf(),
            n < t.len(),
            k <= t.nch(n as int),
            last_named(*t, n as int, t.nch(n as int) as int) == last_named(*t, n as int, k as int),
        decreases k,
    {
        let c = t.nodes[n].children[k - 1];
        assert(c == t.child(n as int, k - 1));
        if t.nodes[c].is_named {
            return t.nodes[c].end;
        }
        k = k - 1;
    }
    t.nodes[n].end
}

impl Matcher for Pattern {
    open spec fn spec_match(&self, t: Tree, n: usize, env: EnvModel) -> Option<(usize, EnvModel)> {
        if !self.wf() {
            None
        } else {
            match m_node(self.snippet(), self.top(), t, n as int, env) {
                Some(e) => Some((n, e)),
                None => None,
            }
        }
    }

    open spec fn spec_kinds(&self) -> Option<Set<usize>> {
        Some(set![self.top_kind() as usize])
    }

    open spec fn spec_match_len(&self, t: Tree, n: usize) -> Option<usize> {
        if self.spec_match(t, n, Seq::empty()) is Some {
            Some((meaningful_end(t, n as int) - t.nodes@[n as int].start) as usize)
        } else {
            None
        }
    }

    proof fn lemma_kinds_sound(&self, t: Tree, n: usize, env: EnvModel) {
        if self.wf() {
            assert(self.top_kind() == self.snippet().kind(self.top()));
        }
    }

    fn match_node_with_env(&self, t: &Tree, n: usize, env: &mut MetaVarEnv) -> (r: Option<usize>) {
        proof {
            use_type_invariant(self);
        }
        if self.match_at(t, self.top, n, env) {
            Some(n)
        } else {
            None
        }
    }

    fn potential_kinds(&self) -> (r: Option<BitSet>) {
        proof {
            use_type_invariant(self);
        }
        Some(single_kind(self.tree.nodes[self.top].kind_id))
    }

    fn get_match_len(&self, t: &Tree, n: usize) -> (r: Option<usize>) {
        proof {
            use_type_invariant(self);
        }
        let mut env = MetaVarEnv::new();
        if self.match_at(t, self.top, n, &mut env) {
            let e = meaningful_end_exec(t, n);
            Some(e - t.nodes[n].start)
        } else {
            None
        }
    }
}

} // verus!
