//! Keyed stores of the runtime: the variable scope and per-path bookkeeping.
//!
//! Both keep their entries in a vector and are read through the first entry with a key, so
//! their model is a finite map.

use vstd::prelude::*;

use crate::json::{copy_json, Json, JsonMember, JsonValue};
use crate::text::{first_index, lemma_first_index, lemma_first_index_from_spec, lemma_first_index_none, str_eq};

verus! {

broadcast use vstd::std_specs::vec::group_vec_axioms;

/// The keys of a variable scope's entries.
pub open spec fn member_keys(es: Seq<JsonMember>) -> Seq<Seq<char>> {
    Seq::new(es.len(), |i: int| es[i].key@)
}

/// Variable scope: variable names mapped to JSON values.
#[derive(Debug)]
pub struct Variables {
    pub entries: Vec<JsonMember>,
}

impl View for Variables {
    type V = Map<Seq<char>, Json>;

    open spec fn view(&self) -> Map<Seq<char>, Json> {
        Map::new(
            |k: Seq<char>| first_index(member_keys(self.entries@), k) is Some,
            |k: Seq<char>| self.entries@[first_index(member_keys(self.entries@), k)->0].value@,
        )
    }
}

impl Variables {
    /// An empty scope.
    pub fn new() -> (r: Variables)
        ensures
            r@ == Map::<Seq<char>, Json>::empty(),
    {
        let r = Variables { entries: Vec::new() };
        assert(r@ =~= Map::<Seq<char>, Json>::empty());
        r
    }

    /// The position of the entry holding `name`.
    pub fn position(&self, name: &str) -> (r: Option<usize>)
        ensures
            match r {
                Some(i) => first_index(member_keys(self.entries@), name@) == Some(i as int) && i < self.entries@.len()
                    && self.entries@[i as int].key@ == name@,
                None => first_index(member_keys(self.entries@), name@) is None,
            },
    {
        let ghost ks = member_keys(self.entries@);
        proof { lemma_first_index(ks, name@); }
        let mut i: usize = 0;
        while i < self.entries.len()
            invariant
                i <= self.entries@.len(),
                ks == member_keys(self.entries@),
                forall|j: int| 0 <= j < i ==> ks[j] != name@,
            decreases self.entries@.len() - i,
        {
            if str_eq(self.entries[i].key.as_str(), name) {
                proof { lemma_first_index_from_spec(ks, name@, i as int); }
                assert(ks[i as int] == self.entries@[i as int].key@);
                return Some(i);
            }
            i += 1;
        }
        proof { lemma_first_index_none(ks, name@); }
        None
    }

    /// Whether `name` is bound.
    pub fn contains_key(&self, name: &str) -> (r: bool)
        ensures
            r == self@.contains_key(name@),
    {
        self.position(name).is_some()
    }

    /// The value bound to `name`.
    pub fn get(&self, name: &str) -> (r: Option<&JsonValue>)
        ensures
            match r {
                Some(v) => self@.contains_key(name@) && v@ == self@[name@],
                None => !self@.contains_key(name@),
            },
    {
        match self.position(name) {
            Some(i) => {
                assert(self@.dom().contains(name@));
                assert(self@[name@] == self.entries@[i as int].value@);
                Some(&self.entries[i].value)
            }
            None => None,
        }
    }

    /// Binds `name` to `value`, replacing an earlier binding.
    pub fn insert(&mut self, name: String, value: JsonValue)
        ensures
            final(self)@ == old(self)@.insert(name@, value@),
    {
        let ghost nv = name@;
        let ghost vv = value@;
        let ghost old_es = self.entries@;
        match self.position(name.as_str()) {
            Some(i) => {
                self.entries.set(i, JsonMember { key: name, value: value });
                proof {
                    let ks = member_keys(old_es);
                    assert(member_keys(self.entries@) =~= ks);
                    lemma_first_index(ks, nv);
                    assert forall|k: Seq<char>| #[trigger] first_index(ks, k) is Some && k != nv implies first_index(ks, k)->0 != i by {
                        lemma_first_index(ks, k);
                    }
                    assert forall|k: Seq<char>| #[trigger] self@.contains_key(k) implies self@[k] == old(self)@.insert(nv, vv)[k] by {
                        if k != nv {
                            lemma_first_index(ks, k);
                            let j = first_index(ks, k)->0;
                            assert(j != i);
                            assert(self.entries@[j] == old_es[j]);
                        }
                    }
                    assert(self@ =~= old(self)@.insert(nv, vv));
                }
            }
            None => {
                self.entries.push(JsonMember { key: name, value: value });
                proof {
                    let ks = member_keys(old_es);
                    let nks = member_keys(self.entries@);
                    assert(nks =~= ks.push(nv));
                    assert(nks.drop_last() =~= ks);
                    assert forall|k: Seq<char>| k != nv implies #[trigger] first_index(nks, k) == first_index(ks, k) by {
                    }
                    assert(first_index(nks, nv) == Some(ks.len() as int));
                    assert forall|k: Seq<char>| #[trigger] first_index(ks, k) is Some implies self.entries@[first_index(ks, k)->0] == old_es[first_index(ks, k)->0] by {
                        lemma_first_index(ks, k);
                    }
                    assert(self@ =~= old(self)@.insert(nv, vv));
                }
            }
        }
    }

    /// The number of entries, which is the number of bindings.
    pub fn len(&self) -> (r: usize)
        ensures
            r == self.entries@.len(),
    {
        self.entries.len()
    }

    /// A deep copy of the scope.
    pub fn copy(&self) -> (r: Variables)
        ensures
            r@ == self@,
            member_keys(r.entries@) == member_keys(self.entries@),
    {
        let mut out: Vec<JsonMember> = Vec::new();
        let mut i: usize = 0;
        while i < self.entries.len()
            invariant
                i <= self.entries@.len(),
                out@.len() == i,
                forall|j: int| 0 <= j < i ==> (#[trigger] out@[j]).key@ == self.entries@[j].key@,
                forall|j: int| 0 <= j < i ==> (#[trigger] out@[j]).value@ == self.entries@[j].value@,
            decreases self.entries@.len() - i,
        {
            out.push(JsonMember { key: self.entries[i].key.clone(), value: copy_json(&self.entries[i].value) });
            i += 1;
        }
        let r = Variables { entries: out };
        proof {
            assert(member_keys(r.entries@) =~= member_keys(self.entries@));
            assert forall|k: Seq<char>| #[trigger] first_index(member_keys(self.entries@), k) is Some implies r.entries@[first_index(member_keys(self.entries@), k)->0].value@ == self.entries@[first_index(member_keys(self.entries@), k)->0].value@ by {
                lemma_first_index(member_keys(self.entries@), k);
            }
            assert(r@ =~= self@);
        }
        r
    }
}

/// One entry of a path-keyed store.
#[derive(Debug)]
pub struct PathEntry<V> {
    pub path: Vec<usize>,
    pub value: V,
}

/// The paths of a path-keyed store's entries.
pub open spec fn entry_paths<V>(es: Seq<PathEntry<V>>) -> Seq<Seq<usize>> {
    Seq::new(es.len(), |i: int| es[i].path@)
}

/// Bookkeeping keyed by instruction-pointer paths.
#[derive(Debug)]
pub struct PathMap<V> {
    pub entries: Vec<PathEntry<V>>,
}

/// Whether two paths are equal.
pub fn path_eq(a: &[usize], b: &[usize]) -> (r: bool)
    ensures
        r == (a@ == b@),
{
    if a.len() != b.len() {
        return false;
    }
    let mut i: usize = 0;
    while i < a.len()
        invariant
            i <= a@.len(),
            a@.len() == b@.len(),
            forall|j: int| 0 <= j < i ==> a@[j] == b@[j],
        decreases a@.len() - i,
    {
        if a[i] != b[i] {
            return false;
        }
        i += 1;
    }
    assert(a@ =~= b@);
    true
}

impl<V> View for PathMap<V> {
    type V = Map<Seq<usize>, V>;

    open spec fn view(&self) -> Map<Seq<usize>, V> {
        Map::new(
            |k: Seq<usize>| first_index(entry_paths(self.entries@), k) is Some,
            |k: Seq<usize>| self.entries@[first_index(entry_paths(self.entries@), k)->0].value,
        )
    }
}

impl<V> PathMap<V> {
    /// An empty store.
    pub fn new() -> (r: PathMap<V>)
        ensures
            r@ == Map::<Seq<usize>, V>::empty(),
    {
        let r = PathMap { entries: Vec::new() };
        assert(r@ =~= Map::<Seq<usize>, V>::empty());
        r
    }

    /// The position of the entry for `path`.
    pub fn position(&self, path: &[usize]) -> (r: Option<usize>)
        ensures
            match r {
                Some(i) => first_index(entry_paths(self.entries@), path@) == Some(i as int) && i < self.entries@.len()
                    && self.entries@[i as int].path@ == path@,
                None => first_index(entry_paths(self.entries@), path@) is None,
            },
    {
        let ghost ks = entry_paths(self.entries@);
        proof { lemma_first_index(ks, path@); }
        let mut i: usize = 0;
        while i < self.entries.len()
            invariant
                i <= self.entries@.len(),
                ks == entry_paths(self.entries@),
                forall|j: int| 0 <= j < i ==> ks[j] != path@,
            decreases self.entries@.len() - i,
        {
            if path_eq(self.entries[i].path.as_slice(), path) {
                proof { lemma_first_index_from_spec(ks, path@, i as int); }
                assert(ks[i as int] == self.entries@[i as int].path@);
                return Some(i);
            }
            i += 1;
        }
        proof { lemma_first_index_none(ks, path@); }
        None
    }

    /// Whether `path` has an entry.
    pub fn contains_key(&self, path: &[usize]) -> (r: bool)
        ensures
            r == self@.contains_key(path@),
    {
        self.position(path).is_some()
    }

    /// The value stored for `path`.
    pub fn get(&self, path: &[usize]) -> (r: Option<&V>)
        ensures
            match r {
                Some(v) => self@.contains_key(path@) && *v == self@[path@],
                None => !self@.contains_key(path@),
            },
    {
        match self.position(path) {
            Some(i) => {
                assert(self@.dom().contains(path@));
                assert(self@[path@] == self.entries@[i as int].value);
                Some(&self.entries[i].value)
            }
            None => None,
        }
    }

    /// Stores `value` for `path`, replacing an earlier value.
    pub fn insert(&mut self, path: Vec<usize>, value: V)
        ensures
            final(self)@ == old(self)@.insert(path@, value),
    {
        let ghost pv = path@;
        let ghost old_es = self.entries@;
        match self.position(path.as_slice()) {
            Some(i) => {
                self.entries.set(i, PathEntry { path: path, value: value });
                proof {
                    let ks = entry_paths(old_es);
                    assert(entry_paths(self.entries@) =~= ks);
                    lemma_first_index(ks, pv);
                    assert forall|k: Seq<usize>| #[trigger] first_index(ks, k) is Some && k != pv implies first_index(ks, k)->0 != i by {
                        lemma_first_index(ks, k);
                    }
                    assert forall|k: Seq<usize>| #[trigger] self@.contains_key(k) implies self@[k] == old(self)@.insert(pv, value)[k] by {
                        if k != pv {
                            lemma_first_index(ks, k);
                            let j = first_index(ks, k)->0;
                            assert(j != i);
                            assert(self.entries@[j] == old_es[j]);
                        }
                    }
                    assert(self@ =~= old(self)@.insert(pv, value));
                }
            }
            None => {
                self.entries.push(PathEntry { path: path, value: value });
                proof {
                    let ks = entry_paths(old_es);
                    let nks = entry_paths(self.entries@);
                    assert(nks =~= ks.push(pv));
                    assert(nks.drop_last() =~= ks);
                    assert forall|k: Seq<usize>| k != pv implies #[trigger] first_index(nks, k) == first_index(ks, k) by {
                    }
                    assert(first_index(nks, pv) == Some(ks.len() as int));
                    assert forall|k: Seq<usize>| #[trigger] first_index(ks, k) is Some implies self.entries@[first_index(ks, k)->0] == old_es[first_index(ks, k)->0] by {
                        lemma_first_index(ks, k);
                    }
                    assert(self@ =~= old(self)@.insert(pv, value));
                }
            }
        }
    }

    /// Removes every entry for `path`.
    pub fn remove(&mut self, path: &[usize])
        ensures
            final(self)@ == old(self)@.remove(path@),
    {
        let ghost old_view = self@;
        let mut kept: Vec<PathEntry<V>> = Vec::new();
        let mut taken: Vec<PathEntry<V>> = Vec::new();
        std::mem::swap(&mut taken, &mut self.entries);
        let ghost orig = taken@;
        let ghost ks = entry_paths(orig);
        // entries are moved out one by one from the front, so reverse first
        let mut rev: Vec<PathEntry<V>> = Vec::new();
        while taken.len() > 0
            invariant
                rev@.len() + taken@.len() == orig.len(),
                taken@ == orig.take(taken@.len() as int),
                forall|j: int| 0 <= j < rev@.len() ==> rev@[j] == orig[orig.len() - 1 - j],
            decreases taken@.len(),
        {
            let e = taken.pop().unwrap();
            rev.push(e);
            assert(taken@ =~= orig.take(taken@.len() as int));
        }
        let ghost mut idx: Seq<int> = Seq::empty();
        while rev.len() > 0
            invariant
                rev@.len() <= orig.len(),
                forall|j: int| 0 <= j < rev@.len() ==> rev@[j] == orig[orig.len() - 1 - j],
                kept@.len() == idx.len(),
                forall|j: int| 0 <= j < idx.len() ==> 0 <= #[trigger] idx[j] < orig.len() - rev@.len(),
                forall|j: int, l: int| 0 <= j < l < idx.len() ==> idx[j] < idx[l],
                forall|j: int| 0 <= j < idx.len() ==> kept@[j] == orig[#[trigger] idx[j]],
                forall|j: int| 0 <= j < idx.len() ==> orig[#[trigger] idx[j]].path@ != path@,
                forall|m: int| 0 <= m < orig.len() - rev@.len() && orig[m].path@ != path@ ==> exists|j: int| 0 <= j < idx.len() && idx[j] == m,
            decreases rev@.len(),
        {
            let ghost m = orig.len() - rev@.len();
            let e = rev.pop().unwrap();
            assert(e == orig[m]);
            let ghost old_idx = idx;
            if !path_eq(e.path.as_slice(), path) {
                kept.push(e);
                proof { idx = idx.push(m); }
            }
            proof {
                assert forall|m2: int| 0 <= m2 < orig.len() - rev@.len() && orig[m2].path@ != path@ implies exists|j: int| 0 <= j < idx.len() && idx[j] == m2 by {
                    if m2 < m {
                        let j = choose|j: int| 0 <= j < old_idx.len() && old_idx[j] == m2;
                        assert(idx[j] == m2);
                    } else {
                        assert(idx[idx.len() - 1] == m2);
                    }
                }
            }
        }
        self.entries = kept;
        proof {
            let nks = entry_paths(self.entries@);
            assert forall|k: Seq<usize>| k != path@ implies #[trigger] self@.contains_key(k) == old_view.contains_key(k) && (self@.contains_key(k) ==> self@[k] == old_view[k]) by {
                lemma_first_index(ks, k);
                lemma_first_index(nks, k);
                match first_index(ks, k) {
                    Some(m) => {
                        let j = choose|j: int| 0 <= j < idx.len() && idx[j] == m;
                        assert(nks[j] == k);
                        match first_index(nks, k) {
                            Some(j2) => {
                                if j2 < j {
                                    assert(idx[j2] < m);
                                    assert(ks[idx[j2]] == nks[j2]);
                                }
                                if j2 > j {}
                                assert(j2 == j);
                            }
                            None => {}
                        }
                    }
                    None => {
                        match first_index(nks, k) {
                            Some(j2) => { assert(ks[idx[j2]] == nks[j2]); }
                            None => {}
                        }
                    }
                }
            }
            assert forall|j: int| 0 <= j < nks.len() implies nks[j] != path@ by {
                assert(nks[j] == ks[idx[j]]);
            }
            lemma_first_index_none(nks, path@);
            assert(self@ =~= old_view.remove(path@));
        }
    }

    /// Removes the entry for `path` and returns its value.
    pub fn take(&mut self, path: &[usize]) -> (r: Option<V>)
        ensures
            r == old(self)@.get(path@),
            final(self)@ == old(self)@.remove(path@),
    {
        match self.position(path) {
            None => {
                assert(old(self)@.remove(path@) =~= old(self)@);
                None
            }
            Some(i) => {
                let ghost es = self.entries@;
                let ghost ks = entry_paths(es);
                let ghost before = self@;
                let e = self.entries.remove(i);
                proof {
                    let es2 = self.entries@;
                    let ks2 = entry_paths(es2);
                    assert(ks2 =~= ks.remove(i as int));
                    assert forall|k: Seq<usize>| k != path@ implies #[trigger] self@.contains_key(k) == before.contains_key(k)
                        && (self@.contains_key(k) ==> self@[k] == before[k]) by {
                        lemma_first_index(ks, k);
                        lemma_first_index(ks2, k);
                        match first_index(ks, k) {
                            Some(j) => {
                                assert(j != i);
                                if j < i {
                                    assert(ks2[j] == k);
                                    assert forall|m: int| 0 <= m < j implies ks2[m] != k by {
                                        assert(ks2[m] == ks[m]);
                                    }
                                    lemma_first_index_from_spec(ks2, k, j);
                                } else {
                                    assert(ks2[j - 1] == k);
                                    assert forall|m: int| 0 <= m < j - 1 implies ks2[m] != k by {
                                        if m < i {
                                            assert(ks2[m] == ks[m]);
                                        } else {
                                            assert(ks2[m] == ks[m + 1]);
                                        }
                                    }
                                    lemma_first_index_from_spec(ks2, k, j - 1);
                                }
                            }
                            None => {
                                assert forall|m: int| 0 <= m < ks2.len() implies ks2[m] != k by {
                                    if m < i {
                                        assert(ks2[m] == ks[m]);
                                    } else {
                                        assert(ks2[m] == ks[m + 1]);
                                    }
                                }
                                lemma_first_index_none(ks2, k);
                            }
                        }
                    }
                    assert(e.value == before[path@]);
                }
                let ghost mid = self@;
                self.remove(path);
                proof {
                    assert forall|k: Seq<usize>| k != path@ implies #[trigger] mid.contains_key(k) == before.contains_key(k)
                        && (mid.contains_key(k) ==> mid[k] == before[k]) by {}
                    assert(self@ =~= before.remove(path@));
                }
                Some(e.value)
            }
        }
    }
}

} // verus!
