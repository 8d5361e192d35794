//! The note kept for a commit: its merge records, one for each target reference.

use crate::merges::{Merge, MergeView, Merges};
use crate::oid::{spec_parse_oid, Oid};
use vstd::prelude::*;
use vstd::std_specs::cmp::PartialEqSpecImpl;

verus! {

/// The version of the notes that this library writes and reads.
pub const NOTE_VERSION: u8 = 1;

/// The text that marks a note as one of this library.
pub open spec fn spec_note_id() -> Seq<char> {
    "fusionner <https://github.com/lawliet89/fusionner>"@
}

/// The text that marks a note as one of this library.
pub fn note_id() -> (r: &'static str)
    ensures
        r@ == spec_note_id(),
{
    "fusionner <https://github.com/lawliet89/fusionner>"
}

/// Whether a record was made with the commit `target` as the parent on the target's side.
pub open spec fn merge_matches(m: MergeView, target: Seq<u8>) -> bool {
    spec_parse_oid(m.target_parent_oid) == Some(target)
}

/// The records, among those of a note, that were made with the commit `target`.
pub open spec fn matching_merges(m: Map<Seq<char>, MergeView>, target: Seq<u8>) -> Map<
    Seq<char>,
    MergeView,
> {
    Map::new(|k: Seq<char>| m.dom().contains(k) && merge_matches(m[k], target), |k: Seq<char>| m[k])
}

/// The keys of the records that were made with the commit `target`, in the order of `keys`.
pub open spec fn matching_keys(
    keys: Seq<Seq<char>>,
    values: Seq<MergeView>,
    target: Seq<u8>,
) -> Seq<Seq<char>>
    decreases keys.len(),
{
    if keys.len() == 0 || values.len() != keys.len() {
        Seq::empty()
    } else if merge_matches(values.last(), target) {
        matching_keys(keys.drop_last(), values.drop_last(), target).push(keys.last())
    } else {
        matching_keys(keys.drop_last(), values.drop_last(), target)
    }
}

/// The records that were made with the commit `target`, in the order of `values`.
pub open spec fn matching_values(values: Seq<MergeView>, target: Seq<u8>) -> Seq<MergeView>
    decreases values.len(),
{
    if values.len() == 0 {
        Seq::empty()
    } else if merge_matches(values.last(), target) {
        matching_values(values.drop_last(), target).push(values.last())
    } else {
        matching_values(values.drop_last(), target)
    }
}

/// The note of a commit.
#[derive(Debug, Eq)]
pub struct Note {
    /// Where the note comes from: a fixed text, for human readers.
    pub _note_origin: String,
    /// The version of the note.
    pub _version: u8,
    /// The merge records of the commit, keyed by target reference.
    pub merges: Merges,
}

/// What a `Note` holds.
pub ghost struct NoteView {
    pub note_origin: Seq<char>,
    pub version: u8,
    pub merges: Map<Seq<char>, MergeView>,
}

impl View for Note {
    type V = NoteView;

    open spec fn view(&self) -> NoteView {
        NoteView { note_origin: self._note_origin@, version: self._version, merges: self.merges@ }
    }
}

impl Clone for Note {
    fn clone(&self) -> (r: Note)
        ensures
            r@ == self@,
            r.merges.keys() == self.merges.keys(),
            r.merges.values() == self.merges.values(),
    {
        Note {
            _note_origin: self._note_origin.clone(),
            _version: self._version,
            merges: self.merges.clone(),
        }
    }
}

impl PartialEq for Note {
    fn eq(&self, other: &Note) -> (r: bool) {
        self._note_origin == other._note_origin && self._version == other._version && self.merges
            == other.merges
    }
}

impl PartialEqSpecImpl for Note {
    open spec fn obeys_eq_spec() -> bool {
        true
    }

    open spec fn eq_spec(&self, other: &Note) -> bool {
        self@ == other@
    }
}

impl Note {
    /// A note of the current version with the given records.
    pub fn new(merges: Merges) -> (r: Note)
        ensures
            r@ == (NoteView { note_origin: spec_note_id(), version: NOTE_VERSION, merges: merges@ }),
            r.merges == merges,
    {
        Note { _note_origin: note_id().to_string(), _version: NOTE_VERSION, merges: merges }
    }

    /// A note of the current version with one record, under its target reference.
    pub fn new_with_merge(merge: Merge) -> (r: Note)
        ensures
            r@ == (NoteView {
                note_origin: spec_note_id(),
                version: NOTE_VERSION,
                merges: Map::<Seq<char>, MergeView>::empty().insert(
                    merge@.target_parent_reference,
                    merge@,
                ),
            }),
    {
        let mut merges = Merges::new();
        let key = merge.target_parent_reference.clone();
        merges.insert(key, merge);
        Self::new(merges)
    }

    /// Sets the record of the target reference of `merge` and returns the record that this
    /// target reference had. The records of all other target references stay.
    pub fn append_with_merge(&mut self, merge: Merge) -> (r: Option<Merge>)
        ensures
            final(self)@ == (NoteView {
                merges: old(self)@.merges.insert(merge@.target_parent_reference, merge@),
                ..old(self)@
            }),
            r is Some <==> old(self)@.merges.dom().contains(merge@.target_parent_reference),
            r matches Some(m) ==> m@ == old(self)@.merges[merge@.target_parent_reference],
    {
        let key = merge.target_parent_reference.clone();
        self.merges.insert(key, merge)
    }

    /// The records that were made with the commit `target_oid`, whatever their target
    /// reference, in the order in which the note holds them.
    pub fn find_matching_merges(&self, target_oid: Oid) -> (r: Merges)
        ensures
            r@ == matching_merges(self@.merges, target_oid@),
            r.keys() == matching_keys(self.merges.keys(), self.merges.values(), target_oid@),
            r.values() == matching_values(self.merges.values(), target_oid@),
    {
        proof {
            use_type_invariant(&self.merges);
        }
        let ghost keys = self.merges.keys();
        let ghost values = self.merges.values();
        let ghost target = target_oid@;
        let mut out = Merges::new();
        let n = self.merges.len();
        let mut i: usize = 0;
        proof {
            assert(keys.take(0) =~= Seq::<Seq<char>>::empty());
            assert(values.take(0) =~= Seq::<MergeView>::empty());
        }
        while i < n
            invariant
                i <= n,
                n == keys.len(),
                n == values.len(),
                keys == self.merges.keys(),
                values == self.merges.values(),
                target == target_oid@,
                keys.no_duplicates(),
                out.wf(),
                out.keys() == matching_keys(keys.take(i as int), values.take(i as int), target),
                out.values() == matching_values(values.take(i as int), target),
                forall|k: Seq<char>| #[trigger]
                    out.keys().contains(k) <==> exists|j: int|
                        0 <= j < i && keys[j] == k && merge_matches(values[j], target),
                forall|j: int|
                    0 <= j < i && merge_matches(values[j], target) ==> out@[#[trigger] keys[j]]
                        == values[j],
            decreases n - i,
        {
            let merge = self.merges.value_at(i);
            let matches = match Oid::from_str(merge.target_parent_oid.as_str()) {
                Ok(oid) => oid.equals(&target_oid),
                Err(_) => false,
            };
            let ghost before = out;
            proof {
                assert(keys.take(i + 1).drop_last() =~= keys.take(i as int));
                assert(values.take(i + 1).drop_last() =~= values.take(i as int));
                assert(keys.take(i + 1).last() == keys[i as int]);
                assert(values.take(i + 1).last() == values[i as int]);
                assert(matches == merge_matches(values[i as int], target));
            }
            if matches {
                proof {
                    if out.keys().contains(keys[i as int]) {
                        let j = choose|j: int|
                            0 <= j < i && keys[j] == keys[i as int] && merge_matches(
                                values[j],
                                target,
                            );
                        assert(false);
                    }
                }
                let key = self.merges.key_at(i).to_string();
                out.insert(key, merge.clone());
                proof {
                    assert forall|k: Seq<char>| #[trigger]
                        out.keys().contains(k) <==> exists|j: int|
                            0 <= j < i + 1 && keys[j] == k && merge_matches(values[j], target) by {
                        if out.keys().contains(k) {
                            let p = out.keys().index_of(k);
                            assert(0 <= p < out.keys().len() && out.keys()[p] == k);
                            if p < before.keys().len() {
                                assert(before.keys()[p] == k);
                                assert(before.keys().contains(k));
                            } else {
                                assert(k == keys[i as int]);
                            }
                        }
                        if exists|j: int|
                            0 <= j < i + 1 && keys[j] == k && merge_matches(values[j], target) {
                            let j = choose|j: int|
                                0 <= j < i + 1 && keys[j] == k && merge_matches(values[j], target);
                            if j < i {
                                assert(before.keys().contains(k));
                                let p = before.keys().index_of(k);
                                assert(out.keys()[p] == k);
                            } else {
                                assert(out.keys()[before.keys().len() as int] == k);
                            }
                        }
                    }
                    assert forall|j: int|
                        0 <= j < i + 1 && merge_matches(values[j], target) implies out@[#[trigger] keys[j]]
                        == values[j] by {
                        if j < i {
                            assert(keys[j] != keys[i as int]);
                        }
                    }
                }
            }
            i += 1;
        }
        proof {
            assert(keys.take(n as int) =~= keys);
            assert(values.take(n as int) =~= values);
            let want = matching_merges(self@.merges, target);
            assert forall|k: Seq<char>| #[trigger] out@.dom().contains(k) <==> want.dom().contains(
                k,
            ) by {
                if out.keys().contains(k) {
                    let j = choose|j: int|
                        0 <= j < n && keys[j] == k && merge_matches(values[j], target);
                    self.merges.lemma_view_at(j);
                }
                if want.dom().contains(k) {
                    let j = keys.index_of(k);
                    assert(0 <= j < n && keys[j] == k);
                    self.merges.lemma_view_at(j);
                }
            }
            assert forall|k: Seq<char>| out@.dom().contains(k) implies #[trigger] out@[k]
                == want[k] by {
                let j = choose|j: int|
                    0 <= j < n && keys[j] == k && merge_matches(values[j], target);
                self.merges.lemma_view_at(j);
            }
            assert(out@ =~= want);
        }
        out
    }
}

} // verus!
