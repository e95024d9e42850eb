//! A language's table of node-kind names.
use vstd::prelude::*;

verus! {

/// The position of the first entry of `names` equal to `name`, if any.
pub open spec fn first_index(names: Seq<Seq<char>>, name: Seq<char>) -> Option<int>
    decreases names.len(),
{
    if names.len() == 0 {
        None
    } else {
        match first_index(names.drop_last(), name) {
            Some(i) => Some(i),
            None => if names.last() == name {
                Some(names.len() - 1)
            } else {
                None
            },
        }
    }
}

/// A grammar's naming table: the kind id of a node kind is its position here.
pub struct Language {
    kind_names: Vec<String>,
}

impl Language {
    pub closed spec fn names(&self) -> Seq<Seq<char>> {
        self.kind_names@.map_values(|s: String| s@)
    }

    pub open spec fn wf(&self) -> bool {
        self.names().len() <= 65535
    }

    pub fn new(kind_names: Vec<String>) -> (r: Language)
        requires
            kind_names@.len() <= 65535,
        ensures
            r.names() == kind_names@.map_values(|s: String| s@),
            r.wf(),
    {
        Language { kind_names }
    }

    /// The id of the kind named `name`: the first position that holds it.
    pub fn kind_id(&self, name: &str) -> (r: Option<u16>)
        requires
            self.wf(),
        ensures
            match first_index(self.names(), name@) {
                Some(i) => 0 <= i < self.names().len() && r == Some(i as u16),
                None => r is None,
            },
    {
        let target = String::from_str(name);
        let mut i: usize = 0;
        while i < self.kind_names.len()
            invariant
                i <= self.kind_names@.len() <= 65535,
                self.names().len() == self.kind_names@.len(),
                target@ == name@,
                first_index(self.names().take(i as int), name@) is None,
            decreases self.kind_names@.len() - i,
        {
            assert(self.names().take(i + 1).drop_last() == self.names().take(i as int));
            if self.kind_names[i] == target {
                proof {
                    assert(self.names().take(i + 1).last() == name@);
                    lemma_first_index_prefix(self.names(), name@, i + 1);
                }
                return Some(i as u16);
            }
            i = i + 1;
        }
        assert(self.names().take(i as int) == self.names());
        None
    }
}

proof fn lemma_first_index_prefix(names: Seq<Seq<char>>, name: Seq<char>, n: int)
    requires
        0 <= n <= names.len(),
        first_index(names.take(n), name) is Some,
    ensures
        first_index(names, name) == first_index(names.take(n), name),
    decreases names.len(),
{
    if n < names.len() {
        assert(names.drop_last().take(n) == names.take(n));
        lemma_first_index_prefix(names.drop_last(), name, n);
    } else {
        assert(names.take(n) == names);
    }
}

} // verus!
