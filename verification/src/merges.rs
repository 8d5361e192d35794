//! The record of one merge, and the records of a commit keyed by their target reference.

use crate::oid::{spec_oid_hex, Oid};
use crate::text::str_eq;
use vstd::prelude::*;
use vstd::std_specs::cmp::PartialEqSpecImpl;

verus! {

/// The characters of each string of a sequence.
pub open spec fn strings_view(v: Seq<String>) -> Seq<Seq<char>> {
    Seq::new(v.len(), |i: int| v[i]@)
}

/// The hexadecimal form of each object id of a sequence.
pub open spec fn oids_hex(v: Seq<Oid>) -> Seq<Seq<char>> {
    Seq::new(v.len(), |i: int| spec_oid_hex(v[i]@))
}

/// A copy of a list of strings.
pub fn clone_strings(v: &Vec<String>) -> (r: Vec<String>)
    ensures
        strings_view(r@) == strings_view(v@),
{
    let mut out: Vec<String> = Vec::new();
    let mut i: usize = 0;
    while i < v.len()
        invariant
            i <= v@.len(),
            out@.len() == i,
            forall|j: int| 0 <= j < i ==> out@[j]@ == v@[j]@,
        decreases v@.len() - i,
    {
        out.push(v[i].clone());
        i += 1;
    }
    assert(strings_view(out@) =~= strings_view(v@));
    out
}

/// Whether two lists hold the same strings in the same order.
pub fn same_strings(a: &Vec<String>, b: &Vec<String>) -> (r: bool)
    ensures
        r == (strings_view(a@) == strings_view(b@)),
{
    if a.len() != b.len() {
        assert(strings_view(a@).len() != strings_view(b@).len());
        return false;
    }
    let mut i: usize = 0;
    while i < a.len()
        invariant
            i <= a@.len(),
            a@.len() == b@.len(),
            forall|j: int| 0 <= j < i ==> a@[j]@ == b@[j]@,
        decreases a@.len() - i,
    {
        if !str_eq(a[i].as_str(), b[i].as_str()) {
            assert(strings_view(a@)[i as int] != strings_view(b@)[i as int]);
            return false;
        }
        i += 1;
    }
    assert(strings_view(a@) =~= strings_view(b@));
    true
}

/// One merge commit made for a commit, for some target reference.
#[derive(Debug, Eq)]
pub struct Merge {
    /// The id of the merge commit, in hexadecimal.
    pub merge_oid: String,
    /// The id of the commit of the target reference that was merged, in hexadecimal.
    pub target_parent_oid: String,
    /// The target reference.
    pub target_parent_reference: String,
    /// The ids of the other parents of the merge commit, in hexadecimal.
    pub parents_oid: Vec<String>,
    /// The reference under which the merge commit is published.
    pub merge_reference: String,
}

/// What a `Merge` holds.
pub ghost struct MergeView {
    pub merge_oid: Seq<char>,
    pub target_parent_oid: Seq<char>,
    pub target_parent_reference: Seq<char>,
    pub parents_oid: Seq<Seq<char>>,
    pub merge_reference: Seq<char>,
}

impl View for Merge {
    type V = MergeView;

    open spec fn view(&self) -> MergeView {
        MergeView {
            merge_oid: self.merge_oid@,
            target_parent_oid: self.target_parent_oid@,
            target_parent_reference: self.target_parent_reference@,
            parents_oid: strings_view(self.parents_oid@),
            merge_reference: self.merge_reference@,
        }
    }
}

impl PartialEq for Merge {
    fn eq(&self, other: &Merge) -> (r: bool) {
        self.merge_oid == other.merge_oid && self.target_parent_oid == other.target_parent_oid
            && self.target_parent_reference == other.target_parent_reference && same_strings(
            &self.parents_oid,
            &other.parents_oid,
        ) && self.merge_reference == other.merge_reference
    }
}

impl PartialEqSpecImpl for Merge {
    open spec fn obeys_eq_spec() -> bool {
        true
    }

    open spec fn eq_spec(&self, other: &Merge) -> bool {
        self@ == other@
    }
}

impl Clone for Merge {
    fn clone(&self) -> (r: Merge)
        ensures
            r@ == self@,
    {
        Merge {
            merge_oid: self.merge_oid.clone(),
            target_parent_oid: self.target_parent_oid.clone(),
            target_parent_reference: self.target_parent_reference.clone(),
            parents_oid: clone_strings(&self.parents_oid),
            merge_reference: self.merge_reference.clone(),
        }
    }
}

impl Merge {
    /// The record of a merge commit `merge_oid` of the commit `target_parent_oid` of
    /// `target_parent_reference` with `parents`, published as `merge_reference`.
    pub fn new(
        merge_oid: Oid,
        target_parent_oid: Oid,
        target_parent_reference: &str,
        parents: &[Oid],
        merge_reference: &str,
    ) -> (r: Merge)
        ensures
            r@ == (MergeView {
                merge_oid: spec_oid_hex(merge_oid@),
                target_parent_oid: spec_oid_hex(target_parent_oid@),
                target_parent_reference: target_parent_reference@,
                parents_oid: oids_hex(parents@),
                merge_reference: merge_reference@,
            }),
    {
        let mut parents_oid: Vec<String> = Vec::new();
        let mut i: usize = 0;
        while i < parents.len()
            invariant
                i <= parents@.len(),
                parents_oid@.len() == i,
                forall|j: int| 0 <= j < i ==> parents_oid@[j]@ == spec_oid_hex(parents@[j]@),
            decreases parents@.len() - i,
        {
            parents_oid.push(parents[i].to_string());
            i += 1;
        }
        assert(strings_view(parents_oid@) =~= oids_hex(parents@));
        Merge {
            merge_oid: merge_oid.to_string(),
            target_parent_oid: target_parent_oid.to_string(),
            target_parent_reference: target_parent_reference.to_string(),
            parents_oid: parents_oid,
            merge_reference: merge_reference.to_string(),
        }
    }
}

/// A key with its record.
#[derive(Debug)]
struct Entry {
    key: String,
    merge: Merge,
}

/// Merge records keyed by target reference: no key occurs twice, and the records keep the
/// order in which their keys first came.
#[derive(Debug)]
pub struct Merges {
    entries: Vec<Entry>,
}

impl View for Merges {
    type V = Map<Seq<char>, MergeView>;

    /// The record of each key.
    open spec fn view(&self) -> Map<Seq<char>, MergeView> {
        Map::new(
            |k: Seq<char>| self.keys().contains(k),
            |k: Seq<char>| self.values()[self.keys().index_of(k)],
        )
    }
}

impl Merges {
    /// The keys, in the order in which they first came.
    pub closed spec fn keys(&self) -> Seq<Seq<char>> {
        Seq::new(self.entries@.len(), |i: int| self.entries@[i].key@)
    }

    /// The records, each at the position of its key.
    pub closed spec fn values(&self) -> Seq<MergeView> {
        Seq::new(self.entries@.len(), |i: int| self.entries@[i].merge@)
    }

    /// No key occurs twice.
    #[verifier::type_invariant]
    pub open spec fn wf(&self) -> bool {
        &&& self.keys().no_duplicates()
        &&& self.keys().len() == self.values().len()
    }

    /// In valid records the key at a position maps to the record at that position.
    pub proof fn lemma_view_at(&self, i: int)
        requires
            self.wf(),
            0 <= i < self.keys().len(),
        ensures
            self@.dom().contains(self.keys()[i]),
            self@[self.keys()[i]] == self.values()[i],
    {
        let k = self.keys()[i];
        assert(self.keys().contains(k));
        let j = self.keys().index_of(k);
        assert(0 <= j < self.keys().len() && self.keys()[j] == k);
    }

    /// No records.
    pub fn new() -> (r: Merges)
        ensures
            r.wf(),
            r.keys() == Seq::<Seq<char>>::empty(),
            r@ == Map::<Seq<char>, MergeView>::empty(),
    {
        let r = Merges { entries: Vec::new() };
        assert(r.keys() =~= Seq::<Seq<char>>::empty());
        assert(r@ =~= Map::<Seq<char>, MergeView>::empty());
        r
    }

    /// The number of records.
    pub fn len(&self) -> (n: usize)
        ensures
            n == self.keys().len(),
            n == self.values().len(),
    {
        self.entries.len()
    }

    /// Whether there is no record.
    pub fn is_empty(&self) -> (r: bool)
        ensures
            r == (self.keys().len() == 0),
    {
        self.entries.len() == 0
    }

    /// The key at a position.
    pub fn key_at(&self, i: usize) -> (r: &str)
        requires
            i < self.keys().len(),
        ensures
            r@ == self.keys()[i as int],
    {
        self.entries[i].key.as_str()
    }

    /// The record at a position.
    pub fn value_at(&self, i: usize) -> (r: &Merge)
        requires
            i < self.values().len(),
        ensures
            r@ == self.values()[i as int],
    {
        &self.entries[i].merge
    }

    /// The position of a key.
    fn position(&self, key: &str) -> (r: Option<usize>)
        ensures
            r is Some <==> self.keys().contains(key@),
            r matches Some(i) ==> i < self.keys().len() && self.keys()[i as int] == key@
                && self.keys().index_of(key@) == i,
    {
        proof {
            use_type_invariant(self);
        }
        let mut i: usize = 0;
        while i < self.entries.len()
            invariant
                self.wf(),
                i <= self.entries@.len(),
                forall|j: int| 0 <= j < i ==> self.keys()[j] != key@,
            decreases self.entries@.len() - i,
        {
            if str_eq(self.entries[i].key.as_str(), key) {
                proof {
                    assert(self.keys()[i as int] == key@);
                    assert(self.keys().contains(key@));
                    let j = self.keys().index_of(key@);
                    assert(0 <= j < self.keys().len() && self.keys()[j] == key@);
                    assert(j == i);
                }
                return Some(i);
            }
            i += 1;
        }
        None
    }

    /// Whether a key has a record.
    pub fn contains_key(&self, key: &str) -> (r: bool)
        ensures
            r == self@.dom().contains(key@),
    {
        self.position(key).is_some()
    }

    /// The record of a key.
    pub fn get(&self, key: &str) -> (r: Option<&Merge>)
        ensures
            r is Some <==> self@.dom().contains(key@),
            r matches Some(m) ==> m@ == self@[key@],
    {
        match self.position(key) {
            Some(i) => Some(&self.entries[i].merge),
            None => None,
        }
    }

    /// Sets the record of a key and returns the record that the key had. A new key comes
    /// last; a known key keeps its place.
    pub fn insert(&mut self, key: String, merge: Merge) -> (r: Option<Merge>)
        ensures
            final(self).wf(),
            final(self)@ == old(self)@.insert(key@, merge@),
            r is Some <==> old(self)@.dom().contains(key@),
            r matches Some(m) ==> m@ == old(self)@[key@],
            old(self).keys().contains(key@) ==> final(self).keys() == old(self).keys(),
            !old(self).keys().contains(key@) ==> final(self).keys() == old(self).keys().push(
                key@,
            ),
            final(self).values() == (if old(self).keys().contains(key@) {
                old(self).values().update(old(self).keys().index_of(key@), merge@)
            } else {
                old(self).values().push(merge@)
            }),
    {
        proof {
            use_type_invariant(&*self);
        }
        let ghost before = *self;
        let ghost k = key@;
        let ghost m = merge@;
        let found = self.position(key.as_str());
        let mut entries: Vec<Entry> = Vec::new();
        std::mem::swap(&mut self.entries, &mut entries);
        let previous = match found {
            Some(i) => {
                let previous = entries.remove(i);
                entries.insert(i, Entry { key: key, merge: merge });
                Some(previous.merge)
            },
            None => {
                entries.push(Entry { key: key, merge: merge });
                None
            },
        };
        proof {
            let after = Merges { entries: entries };
            match found {
                Some(i) => {
                    assert(after.keys() =~= before.keys());
                    assert(after.values() =~= before.values().update(i as int, m));
                    assert forall|q: Seq<char>| after@.dom().contains(q) implies #[trigger] after@[q]
                        == before@.insert(k, m)[q] by {
                        let j = after.keys().index_of(q);
                        assert(0 <= j < after.keys().len() && after.keys()[j] == q);
                    }
                    assert(after@ =~= before@.insert(k, m));
                },
                None => {
                    assert(after.keys() =~= before.keys().push(k));
                    assert(after.values() =~= before.values().push(m));
                    let n = before.keys().len() as int;
                    assert(after.keys()[n] == k);
                    assert forall|i: int, j: int|
                        0 <= i < after.keys().len() && 0 <= j < after.keys().len() && i
                            != j implies after.keys()[i] != after.keys()[j] by {
                        if i < n && j < n {
                            assert(before.keys()[i] != before.keys()[j]);
                        } else if i < n {
                            assert(before.keys()[i] == after.keys()[i]);
                        } else {
                            assert(before.keys()[j] == after.keys()[j]);
                        }
                    }
                    assert forall|q: Seq<char>| #[trigger]
                        after@.dom().contains(q) <==> before@.insert(k, m).dom().contains(q) by {
                        if before.keys().contains(q) {
                            let j = before.keys().index_of(q);
                            assert(after.keys()[j] == q);
                        }
                        if q == k {
                            assert(after.keys()[n] == q);
                        }
                        if after.keys().contains(q) {
                            let j = after.keys().index_of(q);
                            if j < n {
                                assert(before.keys()[j] == q);
                            }
                        }
                    }
                    assert forall|q: Seq<char>| after@.dom().contains(q) implies #[trigger] after@[q]
                        == before@.insert(k, m)[q] by {
                        let j = after.keys().index_of(q);
                        assert(0 <= j < after.keys().len() && after.keys()[j] == q);
                        if j < n {
                            assert(before.keys()[j] == q);
                            let j2 = before.keys().index_of(q);
                            assert(0 <= j2 < n && before.keys()[j2] == q);
                            assert(after.keys()[j2] == q);
                        }
                    }
                    assert(after@ =~= before@.insert(k, m));
                },
            }
        }
        self.entries = entries;
        previous
    }
}

impl Clone for Merges {
    fn clone(&self) -> (r: Merges)
        ensures
            r.keys() == self.keys(),
            r.values() == self.values(),
            r@ == self@,
    {
        proof {
            use_type_invariant(self);
        }
        let mut entries: Vec<Entry> = Vec::new();
        let mut i: usize = 0;
        while i < self.entries.len()
            invariant
                i <= self.entries@.len(),
                entries@.len() == i,
                forall|j: int|
                    0 <= j < i ==> entries@[j].key@ == self.entries@[j].key@ && entries@[j].merge@
                        == self.entries@[j].merge@,
            decreases self.entries@.len() - i,
        {
            entries.push(
                Entry { key: self.entries[i].key.clone(), merge: self.entries[i].merge.clone() },
            );
            i += 1;
        }
        proof {
            let r = Merges { entries: entries };
            assert(r.keys() =~= self.keys());
            assert(r.values() =~= self.values());
        }
        Merges { entries: entries }
    }
}

impl PartialEq for Merges {
    fn eq(&self, other: &Merges) -> (r: bool) {
        proof {
            use_type_invariant(self);
            use_type_invariant(other);
        }
        if self.entries.len() != other.entries.len() {
            proof {
                lemma_dom_len(*self);
                lemma_dom_len(*other);
            }
            return false;
        }
        let mut i: usize = 0;
        while i < self.entries.len()
            invariant
                self.wf(),
                other.wf(),
                i <= self.entries@.len(),
                forall|j: int|
                    0 <= j < i ==> other@.dom().contains(#[trigger] self.keys()[j]) && other@[self.keys()[j]]
                        == self.values()[j],
            decreases self.entries@.len() - i,
        {
            let same = match other.get(self.entries[i].key.as_str()) {
                Some(m) => *m == self.entries[i].merge,
                None => false,
            };
            if !same {
                proof {
                    self.lemma_view_at(i as int);
                }
                return false;
            }
            i += 1;
        }
        proof {
            lemma_dom_len(*self);
            lemma_dom_len(*other);
            assert forall|k: Seq<char>| self@.dom().contains(k) implies other@.dom().contains(k)
                && self@[k] == other@[k] by {
                let j = self.keys().index_of(k);
                assert(0 <= j < self.keys().len() && self.keys()[j] == k);
            }
            assert(self@.dom().subset_of(other@.dom()));
            vstd::set_lib::lemma_subset_equality(self@.dom(), other@.dom());
            assert(self@ =~= other@);
        }
        true
    }
}

impl Eq for Merges {

}

impl PartialEqSpecImpl for Merges {
    open spec fn obeys_eq_spec() -> bool {
        true
    }

    open spec fn eq_spec(&self, other: &Merges) -> bool {
        self@ == other@
    }
}

/// Valid records have as many keys as their map has.
pub proof fn lemma_dom_len(m: Merges)
    requires
        m.wf(),
    ensures
        m@.dom().finite(),
        m@.dom().len() == m.keys().len(),
{
    m.keys().unique_seq_to_set();
    assert(m@.dom() =~= m.keys().to_set());
}

} // verus!
