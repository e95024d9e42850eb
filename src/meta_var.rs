//! The environment of meta-variable bindings built during one match attempt.
use vstd::prelude::*;
use crate::tree::Tree;

verus! {

/// What a meta-variable is bound to: one node, or a run of sibling nodes.
pub enum Bound {
    One(usize),
    Many(Seq<usize>),
}

/// An environment as a sequence of (name, binding) pairs, in order of binding.
pub type EnvModel = Seq<(Seq<char>, Bound)>;

/// The binding of `name`: that of its first entry.
pub open spec fn lookup(env: EnvModel, name: Seq<char>) -> Option<Bound>
    decreases env.len(),
{
    if env.len() == 0 {
        None
    } else {
        match lookup(env.drop_last(), name) {
            Some(b) => Some(b),
            None => if env.last().0 == name {
                Some(env.last().1)
            } else {
                None
            },
        }
    }
}

/// Two nodes are equal as bindings when they have the same kind and the same text.
pub open spec fn same_node(t: Tree, a: usize, b: usize) -> bool {
    t.kind(a as int) == t.kind(b as int) && t.text(a as int) == t.text(b as int)
}

pub open spec fn bound_eq(t: Tree, x: Bound, y: Bound) -> bool {
    match (x, y) {
        (Bound::One(a), Bound::One(b)) => same_node(t, a, b),
        (Bound::Many(xs), Bound::Many(ys)) => xs.len() == ys.len() && forall|i: int|
            0 <= i < xs.len() ==> #[trigger] same_node(t, xs[i], ys[i]),
        _ => false,
    }
}

/// Binding `name` to `b`: a fresh name is bound; a bound one must be bound to an equal value.
pub open spec fn env_insert(t: Tree, env: EnvModel, name: Seq<char>, b: Bound) -> Option<EnvModel> {
    match lookup(env, name) {
        None => Some(env.push((name, b))),
        Some(old) => if bound_eq(t, old, b) {
            Some(env)
        } else {
            None
        },
    }
}

pub open spec fn bound_in(t: Tree, b: Bound) -> bool {
    match b {
        Bound::One(a) => a < t.len(),
        Bound::Many(xs) => all_in(t, xs),
    }
}

pub open spec fn all_in(t: Tree, xs: Seq<usize>) -> bool {
    forall|i: int| 0 <= i < xs.len() ==> (#[trigger] xs[i]) < t.len()
}

/// Every bound node is a node of `t`.
pub open spec fn env_in(t: Tree, env: EnvModel) -> bool {
    forall|i: int| 0 <= i < env.len() ==> #[trigger] bound_in(t, env[i].1)
}

/// A binding held by an environment.
pub enum MetaVarBinding {
    Single(usize),
    Multi(Vec<usize>),
}

impl MetaVarBinding {
    pub open spec fn view(&self) -> Bound {
        match self {
            MetaVarBinding::Single(n) => Bound::One(*n),
            MetaVarBinding::Multi(v) => Bound::Many(v@),
        }
    }
}

pub struct MetaVar {
    pub name: String,
    pub binding: MetaVarBinding,
}

impl MetaVar {
    pub open spec fn view(&self) -> (Seq<char>, Bound) {
        (self.name@, self.binding.view())
    }
}

pub struct MetaVarEnv {
    vars: Vec<MetaVar>,
}

pub fn same_node_exec(t: &Tree, a: usize, b: usize) -> (r: bool)
    requires
        a < t.len(),
        b < t.len(),
    ensures
        r == same_node(*t, a, b),
{
    t.nodes[a].kind_id == t.nodes[b].kind_id && t.nodes[a].text == t.nodes[b].text
}

fn bound_eq_exec(t: &Tree, x: &MetaVarBinding, y: &MetaVarBinding) -> (r: bool)
    requires
        bound_in(*t, x.view()),
        bound_in(*t, y.view()),
    ensures
        r == bound_eq(*t, x.view(), y.view()),
{
    match (x, y) {
        (MetaVarBinding::Single(a), MetaVarBinding::Single(b)) => same_node_exec(t, *a, *b),
        (MetaVarBinding::Multi(xs), MetaVarBinding::Multi(ys)) => {
            if xs.len() != ys.len() {
                return false;
            }
            assert(x.view() == Bound::Many(xs@));
            assert(y.view() == Bound::Many(ys@));
            let ghost xv = xs@;
            let ghost yv = ys@;
            assert(bound_in(*t, Bound::Many(xv)));
            assert(bound_in(*t, Bound::Many(yv)));

            let mut i: usize = 0;
            while i < xs.len()
                invariant
                    xs@.len() == ys@.len(),
                    i <= xs@.len(),
                    xv == xs@,
                    yv == ys@,
                    all_in(*t, xv),
                    all_in(*t, yv),
                    x.view() == Bound::Many(xs@),
                    y.view() == Bound::Many(ys@),
                    forall|k: int| 0 <= k < i ==> #[trigger] same_node(*t, xs@[k], ys@[k]),
                decreases xs@.len() - i,
            {
                assert(xv[i as int] < (*t).len());
                assert(yv[i as int] < (*t).len());
                if !same_node_exec(t, xs[i], ys[i]) {
                    return false;
                }
                i = i + 1;
            }
            true
        },
        _ => false,
    }
}

impl MetaVarEnv {
    pub closed spec fn view(&self) -> EnvModel {
        self.vars@.map_values(|v: MetaVar| v.view())
    }

    pub fn new() -> (r: MetaVarEnv)
        ensures
            r.view() == Seq::<(Seq<char>, Bound)>::empty(),
    {
        MetaVarEnv { vars: Vec::new() }
    }

    /// The number of names bound.
    pub fn len(&self) -> (r: usize)
        ensures
            r == self.view().len(),
    {
        self.vars.len()
    }

    /// Keeps the first `n` bindings, forgetting the later ones.
    pub fn truncate(&mut self, n: usize)
        requires
            n <= old(self).view().len(),
        ensures
            final(self).view() == old(self).view().take(n as int),
    {
        self.vars.truncate(n);
        assert(self.view() =~= old(self).view().take(n as int));
    }

    /// The binding of `name`, if it is bound.
    pub fn get(&self, name: &str) -> (r: Option<&MetaVarBinding>)
        ensures
            match lookup(self.view(), name@) {
                None => r is None,
                Some(b) => r is Some && r.unwrap().view() == b,
            },
    {
        let target = String::from_str(name);
        let mut i: usize = 0;
        while i < self.vars.len()
            invariant
                i <= self.vars@.len(),
                self.view().len() == self.vars@.len(),
                target@ == name@,
                lookup(self.view().take(i as int), name@) is None,
            decreases self.vars@.len() - i,
        {
            assert(self.view().take(i + 1).drop_last() == self.view().take(i as int));
            if self.vars[i].name == target {
                proof {
                    assert(self.view().take(i + 1).last() == self.vars@[i as int].view());
                    lemma_lookup_prefix(self.view(), name@, i + 1);
                }
                return Some(&self.vars[i].binding);
            }
            i = i + 1;
        }
        assert(self.view().take(i as int) == self.view());
        None
    }

    /// Binds `name` to `b` when it is fresh; otherwise succeeds only when its binding equals `b`.
    /// On failure the environment is unchanged.
    pub fn insert(&mut self, t: &Tree, name: String, b: MetaVarBinding) -> (r: bool)
        requires
            env_in(*t, old(self).view()),
            bound_in(*t, b.view()),
        ensures
            r == env_insert(*t, old(self).view(), name@, b.view()) is Some,
            r ==> final(self).view() == env_insert(*t, old(self).view(), name@, b.view()).unwrap(),
            !r ==> final(self).view() == old(self).view(),
            env_in(*t, final(self).view()),
    {
        let found = self.get(name.as_str());
        match found {
            None => {
                let ghost nm = name@;
                let ghost bv = b.view();
                self.vars.push(MetaVar { name, binding: b });
                assert(self.view() =~= old(self).view().push((nm, bv)));
                true
            },
            Some(old_b) => {
                proof {
                    let k = choose_index(self.view(), name@);
                    assert(bound_in(*t, self.view()[k].1));
                }
                bound_eq_exec(t, old_b, &b)
            },
        }
    }
}

proof fn choose_index(env: EnvModel, name: Seq<char>) -> (k: int)
    requires
        lookup(env, name) is Some,
    ensures
        0 <= k < env.len(),
        env[k].1 == lookup(env, name).unwrap(),
    decreases env.len(),
{
    match lookup(env.drop_last(), name) {
        Some(_) => choose_index(env.drop_last(), name),
        None => env.len() - 1,
    }
}

proof fn lemma_lookup_prefix(env: EnvModel, name: Seq<char>, n: int)
    requires
        0 <= n <= env.len(),
        lookup(env.take(n), name) is Some,
    ensures
        lookup(env, name) == lookup(env.take(n), name),
    decreases env.len(),
{
    if n < env.len() {
        assert(env.drop_last().take(n) == env.take(n));
        lemma_lookup_prefix(env.drop_last(), name, n);
    } else {
        assert(env.take(n) == env);
    }
}

} // verus!
