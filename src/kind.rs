//! Matching by grammar kind.
use vstd::prelude::*;
use bit_set::BitSet;
use crate::kinds::{kind_set, single_kind};
use crate::language::{Language, first_index};
use crate::matcher::Matcher;
use crate::meta_var::{EnvModel, MetaVarEnv};
use crate::tree::Tree;

verus! {

/// Why a kind matcher cannot be built.
#[derive(Debug, Clone, Copy, PartialEq, Eq, Structural)]
pub enum KindMatcherError {
    /// The language has no kind of that name.
    InvalidKindName,
}

/// Matches the nodes of one kind.
pub struct KindMatcher {
    kind: u16,
}

impl KindMatcher {
    pub closed spec fn kind(&self) -> u16 {
        self.kind
    }

    /// A matcher for the kind named `name` in `lang`.
    pub fn new(name: &str, lang: &Language) -> (r: Result<KindMatcher, KindMatcherError>)
        requires
            lang.wf(),
        ensures
            match first_index(lang.names(), name@) {
                Some(i) => r is Ok && r.unwrap().kind() == i,
                None => r == Err::<KindMatcher, KindMatcherError>(KindMatcherError::InvalidKindName),
            },
    {
        match lang.kind_id(name) {
            Some(kind) => Ok(KindMatcher { kind }),
            None => Err(KindMatcherError::InvalidKindName),
        }
    }

    /// A matcher for the kind id `kind`.
    pub fn from_id(kind: u16) -> (r: KindMatcher)
        ensures
            r.kind() == kind,
    {
        KindMatcher { kind }
    }
}

impl Matcher for KindMatcher {
    open spec fn spec_match(&self, t: Tree, n: usize, env: EnvModel) -> Option<(usize, EnvModel)> {
        if t.kind(n as int) == self.kind() {
            Some((n, env))
        } else {
            None
        }
    }

    open spec fn spec_kinds(&self) -> Option<Set<usize>> {
        Some(set![self.kind() as usize])
    }

    open spec fn spec_match_len(&self, t: Tree, n: usize) -> Option<usize> {
        None
    }

    proof fn lemma_kinds_sound(&self, t: Tree, n: usize, env: EnvModel) {
    }

    fn match_node_with_env(&self, t: &Tree, n: usize, env: &mut MetaVarEnv) -> (r: Option<usize>) {
        if t.nodes[n].kind_id == self.kind {
            Some(n)
        } else {
            None
        }
    }

    fn potential_kinds(&self) -> (r: Option<BitSet>) {
        Some(single_kind(self.kind))
    }

    fn get_match_len(&self, t: &Tree, n: usize) -> (r: Option<usize>) {
        None
    }
}

/// A kind matcher matches a node exactly when the node's kind id is its own, and then
/// matches that node, leaving the environment as it was.
pub proof fn lemma_kind_exact(m: KindMatcher, t: Tree, n: usize, env: EnvModel)
    ensures
        (m.spec_match(t, n, env) is Some) <==> t.kind(n as int) == m.kind(),
        m.spec_match(t, n, env) is Some ==> m.spec_match(t, n, env) == Some((n, env)),
{
}

} // verus!
