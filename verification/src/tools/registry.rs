//! The index from tool identifiers to the modules that own them.

use vstd::prelude::*;
use vstd::string::*;

use crate::error::ReadyError;
use crate::text::{first_index, lemma_first_index, lemma_first_index_from_spec, lemma_first_index_none, str_eq, string_of, strings_view};

verus! {

broadcast use vstd::std_specs::vec::group_vec_axioms;

/// Which registered module owns each tool identifier.
pub struct ToolIndex {
    pub entries: Vec<(String, usize)>,
    pub module_count: usize,
}

pub open spec fn index_keys(es: Seq<(String, usize)>) -> Seq<Seq<char>> {
    Seq::new(es.len(), |i: int| es[i].0@)
}

impl View for ToolIndex {
    type V = Map<Seq<char>, usize>;

    open spec fn view(&self) -> Map<Seq<char>, usize> {
        Map::new(
            |k: Seq<char>| first_index(index_keys(self.entries@), k) is Some,
            |k: Seq<char>| self.entries@[first_index(index_keys(self.entries@), k)->0].1,
        )
    }
}

/// The map with the first `n` identifiers bound to module `m`.
pub open spec fn bind_all(map: Map<Seq<char>, usize>, ids: Seq<Seq<char>>, m: usize, n: int) -> Map<Seq<char>, usize>
    decreases n,
{
    if n <= 0 {
        map
    } else {
        bind_all(map, ids, m, n - 1).insert(ids[n - 1], m)
    }
}

/// The first identifier, from position `j` on, that is already bound or appears earlier in
/// the list.
pub open spec fn first_duplicate(map: Map<Seq<char>, usize>, ids: Seq<Seq<char>>, j: int) -> Option<int>
    decreases ids.len() - j,
{
    if j < 0 || j >= ids.len() {
        None
    } else if map.contains_key(ids[j]) || ids.take(j).contains(ids[j]) {
        Some(j)
    } else {
        first_duplicate(map, ids, j + 1)
    }
}

impl ToolIndex {
    /// An empty index.
    pub fn new() -> (r: ToolIndex)
        ensures
            r@ == Map::<Seq<char>, usize>::empty(),
            r.module_count == 0,
    {
        let r = ToolIndex { entries: Vec::new(), module_count: 0 };
        assert(r@ =~= Map::<Seq<char>, usize>::empty());
        r
    }

    /// The module that owns `tool_id`.
    pub fn lookup(&self, tool_id: &str) -> (r: Option<usize>)
        ensures
            match r {
                Some(m) => self@.contains_key(tool_id@) && self@[tool_id@] == m,
                None => !self@.contains_key(tool_id@),
            },
    {
        let ghost ks = index_keys(self.entries@);
        let mut i: usize = 0;
        while i < self.entries.len()
            invariant
                i <= self.entries@.len(),
                ks == index_keys(self.entries@),
                forall|j: int| 0 <= j < i ==> ks[j] != tool_id@,
            decreases self.entries@.len() - i,
        {
            if str_eq(self.entries[i].0.as_str(), tool_id) {
                proof {
                    lemma_first_index_from_spec(ks, tool_id@, i as int);
                }
                return Some(self.entries[i].1);
            }
            i += 1;
        }
        proof {
            lemma_first_index_none(ks, tool_id@);
        }
        None
    }

    /// Whether some module owns `tool_id`.
    pub fn has_tool(&self, tool_id: &str) -> (r: bool)
        ensures
            r == self@.contains_key(tool_id@),
    {
        self.lookup(tool_id).is_some()
    }

    fn bind(&mut self, tool_id: String, m: usize)
        requires
            !old(self)@.contains_key(tool_id@),
        ensures
            final(self)@ == old(self)@.insert(tool_id@, m),
            final(self).module_count == old(self).module_count,
    {
        let ghost ks = index_keys(self.entries@);
        let ghost kv = tool_id@;
        self.entries.push((tool_id, m));
        proof {
            let nks = index_keys(self.entries@);
            assert(nks =~= ks.push(kv));
            assert(nks.drop_last() =~= ks);
            lemma_first_index(ks, kv);
            assert(first_index(nks, kv) == Some(ks.len() as int));
            assert forall|k: Seq<char>| #[trigger] first_index(ks, k) is Some implies self.entries@[first_index(ks, k)->0]
                == old(self).entries@[first_index(ks, k)->0] by {
                lemma_first_index(ks, k);
            }
            assert(self@ =~= old(self)@.insert(kv, m));
        }
    }

    /// Registers a module owning `tool_ids`. A tool that is already registered, or listed
    /// twice, stops the registration with an error; the tools before it stay registered to
    /// the module's number, which is then not taken. Note that the next module registered
    /// gets that same number, so those earlier tools then resolve to it.
    pub fn register_module(&mut self, tool_ids: &Vec<String>) -> (r: Result<usize, ReadyError>)
        requires
            old(self).module_count < usize::MAX,
        ensures
            ({
                let ids = strings_view(tool_ids@);
                let m = old(self).module_count;
                match first_duplicate(old(self)@, ids, 0) {
                    None => {
                        &&& r == Ok::<usize, ReadyError>(m)
                        &&& final(self)@ == bind_all(old(self)@, ids, m, ids.len() as int)
                        &&& final(self).module_count == m + 1
                    },
                    Some(j) => {
                        &&& r matches Err(ReadyError::DuplicateTool(t)) && t@ == ids[j]
                        &&& final(self)@ == bind_all(old(self)@, ids, m, j)
                        &&& final(self).module_count == m
                    },
                }
            }),
    {
        let ghost ids = strings_view(tool_ids@);
        let ghost start = self@;
        let m = self.module_count;
        let mut i: usize = 0;
        while i < tool_ids.len()
            invariant
                i <= tool_ids@.len(),
                ids == strings_view(tool_ids@),
                start == old(self)@,
                m == old(self).module_count,
                self.module_count == m,
                self@ == bind_all(start, ids, m, i as int),
                first_duplicate(start, ids, 0) == first_duplicate(start, ids, i as int),
                forall|k: Seq<char>| #[trigger] self@.contains_key(k) == (start.contains_key(k) || ids.take(i as int).contains(k)),
            decreases tool_ids@.len() - i,
        {
            let id = tool_ids[i].as_str();
            if self.has_tool(id) {
                proof {
                    assert(ids[i as int] == id@);
                    assert(first_duplicate(start, ids, i as int) == Some(i as int));
                }
                return Err(ReadyError::DuplicateTool(string_of(id)));
            }
            proof {
                assert(ids[i as int] == id@);
                assert(first_duplicate(start, ids, i as int) == first_duplicate(start, ids, i + 1));
            }
            self.bind(string_of(id), m);
            proof {
                let before = ids.take(i as int);
                let after = ids.take(i + 1);
                assert(after =~= before.push(ids[i as int]));
                assert forall|k: Seq<char>| after.contains(k) == (before.contains(k) || k == ids[i as int]) by {
                    if after.contains(k) {
                        let j = choose|j: int| 0 <= j < after.len() && after[j] == k;
                        if j < before.len() {
                            assert(before[j] == k);
                        }
                    }
                    if before.contains(k) {
                        let j = choose|j: int| 0 <= j < before.len() && before[j] == k;
                        assert(after[j] == k);
                    }
                    if k == ids[i as int] {
                        assert(after[i as int] == k);
                    }
                }
            }
            i += 1;
        }
        self.module_count = m + 1;
        proof {
            assert(first_duplicate(start, ids, i as int) is None);
        }
        Ok(m)
    }
}

} // verus!
