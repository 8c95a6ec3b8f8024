//! Maps keyed by the path of a field.
use vstd::prelude::*;

verus! {

/// The names that lead to a field of a nested schema.
#[derive(Debug, PartialEq, Eq)]
pub struct FieldPath {
    pub names: Vec<String>,
}

impl View for FieldPath {
    type V = Seq<Seq<char>>;

    open spec fn view(&self) -> Seq<Seq<char>> {
        Seq::new(self.names@.len(), |i: int| self.names@[i]@)
    }
}

impl FieldPath {
    /// The path of a field of the root.
    pub fn from_name(name: &str) -> (p: FieldPath)
        ensures
            p@ == seq![name@],
    {
        let mut names: Vec<String> = Vec::new();
        names.push(String::from_str(name));
        let p = FieldPath { names };
        assert(p@ =~= seq![name@]);
        p
    }

    /// Whether two paths lead to the same field.
    pub fn same(&self, other: &FieldPath) -> (b: bool)
        ensures
            b == (self@ == other@),
    {
        if self.names.len() != other.names.len() {
            assert(self@.len() != other@.len());
            return false;
        }
        let mut i: usize = 0;
        while i < self.names.len()
            invariant
                i <= self.names@.len(),
                self.names@.len() == other.names@.len(),
                forall|j: int| 0 <= j < i ==> (#[trigger] self.names@[j])@ == other.names@[j]@,
            decreases self.names@.len() - i,
        {
            if self.names[i] != other.names[i] {
                proof {
                    assert(self@[i as int] != other@[i as int]);
                }
                return false;
            }
            i = i + 1;
        }
        assert(self@ =~= other@);
        true
    }
}

/// A map from field paths to values.
pub struct FieldMap<V> {
    entries: Vec<(FieldPath, V)>,
}

impl<V> View for FieldMap<V> {
    type V = Map<Seq<Seq<char>>, V>;

    closed spec fn view(&self) -> Map<Seq<Seq<char>>, V> {
        Map::new(
            |path: Seq<Seq<char>>| has_path(self.entries@, path),
            |path: Seq<Seq<char>>| self.entries@[index_of(self.entries@, path)].1,
        )
    }
}

/// Whether entry `i` is that of a path.
spec fn is_entry<V>(entries: Seq<(FieldPath, V)>, path: Seq<Seq<char>>, i: int) -> bool {
    0 <= i < entries.len() && entries[i].0@ == path
}

/// Whether a path has an entry.
spec fn has_path<V>(entries: Seq<(FieldPath, V)>, path: Seq<Seq<char>>) -> bool {
    exists|i: int| #[trigger] is_entry(entries, path, i)
}

/// The entry of a path.
spec fn index_of<V>(entries: Seq<(FieldPath, V)>, path: Seq<Seq<char>>) -> int {
    choose|i: int| #[trigger] is_entry(entries, path, i)
}

impl<V> FieldMap<V> {
    /// No path has two entries.
    pub closed spec fn wf(&self) -> bool {
        forall|path: Seq<Seq<char>>, i: int, j: int|
            #[trigger] is_entry(self.entries@, path, i) && #[trigger] is_entry(
                self.entries@,
                path,
                j,
            ) ==> i == j
    }

    /// A map without entries.
    pub fn new() -> (m: FieldMap<V>)
        ensures
            m.wf(),
            m@ == Map::<Seq<Seq<char>>, V>::empty(),
    {
        let m = FieldMap { entries: Vec::new() };
        assert(m@ =~= Map::<Seq<Seq<char>>, V>::empty());
        m
    }

    /// The position of a path's entry, if it has one.
    fn find(&self, path: &FieldPath) -> (r: Option<usize>)
        requires
            self.wf(),
        ensures
            match r {
                Some(i) => is_entry(self.entries@, path@, i as int),
                None => !has_path(self.entries@, path@),
            },
    {
        let mut i: usize = 0;
        while i < self.entries.len()
            invariant
                i <= self.entries@.len(),
                forall|j: int| 0 <= j < i ==> !#[trigger] is_entry(self.entries@, path@, j),
            decreases self.entries@.len() - i,
        {
            if self.entries[i].0.same(path) {
                return Some(i);
            }
            i = i + 1;
        }
        None
    }

    /// The value of a path.
    pub fn get(&self, path: &FieldPath) -> (r: Option<&V>)
        requires
            self.wf(),
        ensures
            match r {
                Some(v) => self@.dom().contains(path@) && self@[path@] == *v,
                None => !self@.dom().contains(path@),
            },
    {
        match self.find(path) {
            Some(i) => {
                assert(is_entry(self.entries@, path@, i as int));
                Some(&self.entries[i].1)
            },
            None => None,
        }
    }

    /// Whether a path has a value.
    pub fn contains(&self, path: &FieldPath) -> (b: bool)
        requires
            self.wf(),
        ensures
            b == self@.dom().contains(path@),
    {
        self.find(path).is_some()
    }

    /// Adds a value for a path without one.
    fn add_entry(&mut self, path: FieldPath, value: V)
        requires
            old(self).wf(),
            !old(self)@.dom().contains(path@),
        ensures
            final(self).wf(),
            final(self)@ == old(self)@.insert(path@, value),
    {
        let ghost before = self.entries@;
        self.entries.push((path, value));
        proof {
            let after = self.entries@;
            let n = before.len() as int;
            assert forall|q: Seq<Seq<char>>, i: int| #[trigger] is_entry(after, q, i) implies (i < n
                && is_entry(before, q, i)) || (i == n && q == path@) by {}
            assert forall|q: Seq<Seq<char>>, i: int, j: int|
                #[trigger] is_entry(after, q, i) && #[trigger] is_entry(after, q, j) implies i
                == j by {
                if i < n && j < n {
                    assert(is_entry(before, q, i) && is_entry(before, q, j));
                } else if i < n || j < n {
                    let k = if i < n {
                        i
                    } else {
                        j
                    };
                    assert(is_entry(before, path@, k));
                    assert(has_path(before, path@));
                }
            }
            assert(is_entry(after, path@, n));
            assert forall|q: Seq<Seq<char>>| q != path@ && has_path(before, q) implies has_path(
                after,
                q,
            ) && index_of(after, q) == index_of(before, q) by {
                let k = index_of(before, q);
                assert(is_entry(before, q, k));
                assert(is_entry(after, q, k));
                assert(is_entry(after, q, index_of(after, q)));
            }
            assert(is_entry(after, path@, index_of(after, path@)));
            assert forall|q: Seq<Seq<char>>| self@.dom().contains(q) <==> old(self)@.insert(
                path@,
                value,
            ).dom().contains(q) by {
                if has_path(after, q) && q != path@ {
                    let k = index_of(after, q);
                    assert(is_entry(after, q, k));
                    assert(is_entry(before, q, k));
                }
            }
            assert(self@ =~= old(self)@.insert(path@, value));
        }
    }

    /// Sets the value of a path.
    pub fn insert(&mut self, path: FieldPath, value: V)
        requires
            old(self).wf(),
        ensures
            final(self).wf(),
            final(self)@ == old(self)@.insert(path@, value),
    {
        match self.find(&path) {
            Some(i) => {
                let ghost before = self.entries@;
                self.entries.set(i, (path, value));
                proof {
                    let after = self.entries@;
                    assert forall|q: Seq<Seq<char>>, k: int|
                        is_entry(after, q, k) == #[trigger] is_entry(before, q, k) by {}
                    assert forall|q: Seq<Seq<char>>, k: int|
                        #[trigger] is_entry(after, q, k) == is_entry(before, q, k) by {}
                    assert(is_entry(after, path@, i as int));
                    assert forall|q: Seq<Seq<char>>| has_path(before, q) implies has_path(after, q)
                        && index_of(after, q) == index_of(before, q) by {
                        let k = index_of(before, q);
                        assert(is_entry(before, q, k));
                        assert(is_entry(after, q, k));
                        assert(is_entry(after, q, index_of(after, q)));
                        assert(is_entry(before, q, index_of(after, q)));
                    }
                    assert(is_entry(before, path@, index_of(before, path@)));
                    assert forall|q: Seq<Seq<char>>| has_path(after, q) implies has_path(before, q) by {
                        let k = index_of(after, q);
                        assert(is_entry(after, q, k));
                        assert(is_entry(before, q, k));
                    }
                    assert(has_path(before, path@));
                    assert forall|q: Seq<Seq<char>>| q != path@ && has_path(before, q) implies after[index_of(after, q)].1 == before[index_of(before, q)].1 by {
                        let k = index_of(before, q);
                        assert(is_entry(before, q, k));
                    }
                    assert(self@ =~= old(self)@.insert(path@, value));
                }
            },
            None => self.add_entry(path, value),
        }
    }

    /// Sets the value of a path that has none; any other keeps its value.
    pub fn insert_if_absent(&mut self, path: FieldPath, value: V)
        requires
            old(self).wf(),
        ensures
            final(self).wf(),
            final(self)@ == (if old(self)@.dom().contains(path@) {
                old(self)@
            } else {
                old(self)@.insert(path@, value)
            }),
    {
        if !self.contains(&path) {
            self.add_entry(path, value);
        }
    }

    /// The entries.
    pub fn into_entries(self) -> (v: Vec<(FieldPath, V)>)
        requires
            self.wf(),
        ensures
            forall|i: int|
                0 <= i < v@.len() ==> self@.dom().contains((#[trigger] v@[i]).0@)
                    && self@[v@[i].0@] == v@[i].1,
            forall|i: int, j: int|
                0 <= i < j < v@.len() ==> (#[trigger] v@[i]).0@ != (#[trigger] v@[j]).0@,
            forall|path: Seq<Seq<char>>| #[trigger]
                self@.dom().contains(path) ==> exists|i: int|
                    0 <= i < v@.len() && (#[trigger] v@[i]).0@ == path,
    {
        proof {
            let v = self.entries@;
            assert forall|i: int| 0 <= i < v.len() implies self@.dom().contains((#[trigger] v[i]).0@)
                && self@[v[i].0@] == v[i].1 by {
                assert(is_entry(v, v[i].0@, i));
                assert(is_entry(v, v[i].0@, index_of(v, v[i].0@)));
            }
            assert forall|i: int, j: int| 0 <= i < j < v.len() implies (#[trigger] v[i]).0@ != (
            #[trigger] v[j]).0@ by {
                assert(is_entry(v, v[i].0@, i));
                if v[i].0@ == v[j].0@ {
                    assert(is_entry(v, v[i].0@, j));
                }
            }
            assert forall|path: Seq<Seq<char>>| #[trigger] self@.dom().contains(path) implies exists|
                i: int,
            | 0 <= i < v.len() && (#[trigger] v[i]).0@ == path by {
                let k = index_of(v, path);
                assert(is_entry(v, path, k));
                assert(v[k].0@ == path);
            }
        }
        self.entries
    }
}

} // verus!
