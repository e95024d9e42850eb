//! An owned matcher of any of the library's kinds, chosen at run time.
use vstd::prelude::*;
use bit_set::BitSet;
use crate::kind::KindMatcher;
use crate::kinds::kind_set;
use crate::matcher::{MatchAll, MatchNone, Matcher};
use crate::meta_var::{EnvModel, MetaVarEnv};
use crate::pattern::Pattern;
use crate::tree::Tree;

verus! {

/// One matcher of any kind; each operation goes to the matcher held, once.
pub enum AnyMatcher {
    All(MatchAll),
    Nothing(MatchNone),
    Kind(KindMatcher),
    Pattern(Pattern),
}

impl Matcher for AnyMatcher {
    open spec fn spec_match(&self, t: Tree, n: usize, env: EnvModel) -> Option<(usize, EnvModel)> {
        match self {
            AnyMatcher::All(m) => m.spec_match(t, n, env),
            AnyMatcher::Nothing(m) => m.spec_match(t, n, env),
            AnyMatcher::Kind(m) => m.spec_match(t, n, env),
            AnyMatcher::Pattern(m) => m.spec_match(t, n, env),
        }
    }

    open spec fn spec_kinds(&self) -> Option<Set<usize>> {
        match self {
            AnyMatcher::All(m) => m.spec_kinds(),
            AnyMatcher::Nothing(m) => m.spec_kinds(),
            AnyMatcher::Kind(m) => m.spec_kinds(),
            AnyMatcher::Pattern(m) => m.spec_kinds(),
        }
    }

    open spec fn spec_match_len(&self, t: Tree, n: usize) -> Option<usize> {
        match self {
            AnyMatcher::All(m) => m.spec_match_len(t, n),
            AnyMatcher::Nothing(m) => m.spec_match_len(t, n),
            AnyMatcher::Kind(m) => m.spec_match_len(t, n),
            AnyMatcher::Pattern(m) => m.spec_match_len(t, n),
        }
    }

    proof fn lemma_kinds_sound(&self, t: Tree, n: usize, env: EnvModel) {
        match self {
            AnyMatcher::All(m) => m.lemma_kinds_sound(t, n, env),
            AnyMatcher::Nothing(m) => m.lemma_kinds_sound(t, n, env),
            AnyMatcher::Kind(m) => m.lemma_kinds_sound(t, n, env),
            AnyMatcher::Pattern(m) => m.lemma_kinds_sound(t, n, env),
        }
    }

    fn match_node_with_env(&self, t: &Tree, n: usize, env: &mut MetaVarEnv) -> (r: Option<usize>) {
        match self {
            AnyMatcher::All(m) => m.match_node_with_env(t, n, env),
            AnyMatcher::Nothing(m) => m.match_node_with_env(t, n, env),
            AnyMatcher::Kind(m) => m.match_node_with_env(t, n, env),
            AnyMatcher::Pattern(m) => m.match_node_with_env(t, n, env),
        }
    }

    fn potential_kinds(&self) -> (r: Option<BitSet>) {
        match self {
            AnyMatcher::All(m) => m.potential_kinds(),
            AnyMatcher::Nothing(m) => m.potential_kinds(),
            AnyMatcher::Kind(m) => m.potential_kinds(),
            AnyMatcher::Pattern(m) => m.potential_kinds(),
        }
    }

    fn get_match_len(&self, t: &Tree, n: usize) -> (r: Option<usize>) {
        match self {
            AnyMatcher::All(m) => m.get_match_len(t, n),
            AnyMatcher::Nothing(m) => m.get_match_len(t, n),
            AnyMatcher::Kind(m) => m.get_match_len(t, n),
            AnyMatcher::Pattern(m) => m.get_match_len(t, n),
        }
    }
}

} // verus!
