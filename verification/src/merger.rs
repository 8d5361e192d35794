//! The rules by which merge commits are made, named, recorded and published.

use crate::codec::{decode_text, encode_text};
use crate::error::ErrorKind;
use crate::git::{has_refspec, Direction, RefspecChange, Remote};
use crate::merges::MergeView;
use crate::note::{matching_merges, matching_values, merge_matches, NoteView};
use crate::oid::{lemma_parse_hex, spec_oid_hex, Oid};
use crate::text::{after_last, concat, tail_after_last};
use vstd::prelude::*;
use vstd::string::*;

pub use crate::merges::{Merge, Merges};
pub use crate::note::Note;

verus! {

/// The notes namespace that is used where none is given.
pub open spec fn spec_default_notes_namespace() -> Seq<char> {
    "fusionner"@
}

/// The name of the remote that is used where none is given.
pub open spec fn spec_default_remote() -> Seq<char> {
    "origin"@
}

/// The reference behind which the default namer puts merge references.
pub open spec fn spec_default_reference_base() -> Seq<char> {
    "refs/fusionner"@
}

/// The reference under which the notes of a namespace are kept.
pub open spec fn spec_notes_reference(namespace: Seq<char>) -> Seq<char> {
    "refs/notes/"@ + namespace
}

/// The forced refspec that maps a reference to itself.
pub open spec fn spec_mirror_refspec(reference: Seq<char>) -> Seq<char> {
    "+"@ + reference + ":"@ + reference
}

/// The merge reference that the default namer gives: the base, then the last segment of
/// the reference, then the last segment of the target reference.
pub open spec fn spec_default_merge_reference(reference: Seq<char>, target: Seq<char>) -> Seq<char> {
    "refs/fusionner"@ + "/"@ + after_last(reference, '/') + "/"@ + after_last(target, '/')
}

/// The message of a merge commit.
pub open spec fn spec_merge_commit_message(
    oid: Seq<u8>,
    target_oid: Seq<u8>,
    reference: Seq<char>,
    target_reference: Seq<char>,
) -> Seq<char> {
    "Merge "@ + reference + " ("@ + spec_oid_hex(oid) + ") into "@ + target_reference + " ("@
        + spec_oid_hex(target_oid) + ")"@
}

/// What each record of a list holds.
pub open spec fn merges_view(v: Seq<Merge>) -> Seq<MergeView> {
    Seq::new(v.len(), |i: int| v[i]@)
}

/// How merge references are named.
pub enum MergeReferenceNamer<F: Fn(&str, &str, Oid, Oid) -> String> {
    /// `refs/fusionner/{reference}/{target}`, each reduced to what follows its last `/`: two
    /// references with the same last segment share a merge reference.
    Default,
    /// A function of the reference, the target reference and their object ids.
    Custom(F),
}

/// The type of a naming function that is a plain function.
pub type NamerFn = fn(&str, &str, Oid, Oid) -> String;

impl<F: Fn(&str, &str, Oid, Oid) -> String> MergeReferenceNamer<F> {
    /// Whether the namer can be asked for this name.
    pub open spec fn accepts(
        &self,
        reference: &str,
        target_reference: &str,
        oid: Oid,
        target_oid: Oid,
    ) -> bool {
        match self {
            MergeReferenceNamer::Default => true,
            MergeReferenceNamer::Custom(f) => f.requires((reference, target_reference, oid, target_oid)),
        }
    }

    /// Whether `name` is a name that the namer gives.
    pub open spec fn names(
        &self,
        reference: &str,
        target_reference: &str,
        oid: Oid,
        target_oid: Oid,
        name: String,
    ) -> bool {
        match self {
            MergeReferenceNamer::Default => name@ == spec_default_merge_reference(
                reference@,
                target_reference@,
            ),
            MergeReferenceNamer::Custom(f) => f.ensures(
                (reference, target_reference, oid, target_oid),
                name,
            ),
        }
    }

    /// Whether the namer can be asked for this name, however the two references are held.
    pub open spec fn accepts_texts(
        &self,
        reference: Seq<char>,
        target_reference: Seq<char>,
        oid: Oid,
        target_oid: Oid,
    ) -> bool {
        forall|a: &str, b: &str|
            a@ == reference && b@ == target_reference ==> #[trigger] self.accepts(
                a,
                b,
                oid,
                target_oid,
            )
    }

    /// Whether `name` is a name that the namer gives for the two references.
    pub open spec fn names_texts(
        &self,
        reference: Seq<char>,
        target_reference: Seq<char>,
        oid: Oid,
        target_oid: Oid,
        name: String,
    ) -> bool {
        exists|a: &str, b: &str|
            a@ == reference && b@ == target_reference && #[trigger] self.names(
                a,
                b,
                oid,
                target_oid,
                name,
            )
    }

    /// The name of the merge reference for `reference` merged into `target_reference`.
    pub fn resolve(&self, reference: &str, target_reference: &str, oid: Oid, target_oid: Oid) -> (r:
        String)
        requires
            self.accepts(reference, target_reference, oid, target_oid),
        ensures
            self.names(reference, target_reference, oid, target_oid, r),
    {
        match self {
            MergeReferenceNamer::Default => {
                let mut out = Self::default_reference_base();
                out.append("/");
                out.append(Self::reference_last_item(reference).as_str());
                out.append("/");
                out.append(Self::reference_last_item(target_reference).as_str());
                out
            },
            MergeReferenceNamer::Custom(cb) => cb(reference, target_reference, oid, target_oid),
        }
    }

    /// The reference behind which the default namer puts merge references.
    pub fn default_reference_base() -> (r: String)
        ensures
            r@ == spec_default_reference_base(),
    {
        "refs/fusionner".to_string()
    }

    /// What follows the last `/` of a reference; the whole reference where it has none.
    pub fn reference_last_item(reference: &str) -> (r: String)
        ensures
            r@ == after_last(reference@, '/'),
    {
        tail_after_last(reference, '/')
    }
}

/// What is to be done about a commit and a target.
#[derive(Debug, Clone, PartialEq, Eq)]
pub enum ShouldMergeResult {
    /// A merge is to be made. Where the commit has a note, the record of the merge is
    /// added to it; where it has none, a note with this one record is made.
    Merge(Option<Note>),
    /// The note holds a merge with the commit of the target, under the target reference:
    /// nothing is to be made.
    ExistingMergeInSameTargetReference(Note),
    /// The note holds a merge with the commit of the target, under other target references
    /// only: the proposed record is to be added to the note.
    ExistingMergeInDifferentTargetReference {
        /// The note of the commit.
        note: Note,
        /// The records of the note that were made with the commit of the target.
        merges: Vec<Merge>,
        /// The record to add to the note.
        proposed_merge: Merge,
    },
}

impl ShouldMergeResult {
    /// A sentence that describes the result.
    pub fn to_string(&self) -> (r: String)
        ensures
            r@ == self.spec_to_string(),
    {
        let text = match self {
            ShouldMergeResult::Merge(_) => "Merge required",
            ShouldMergeResult::ExistingMergeInSameTargetReference(_) => "An up to date merge exists",
            ShouldMergeResult::ExistingMergeInDifferentTargetReference { .. } => {
                "A merge under another target reference exists"
            },
        };
        text.to_string()
    }

    /// The sentence that `to_string` returns.
    pub open spec fn spec_to_string(&self) -> Seq<char> {
        match self {
            ShouldMergeResult::Merge(_) => "Merge required"@,
            ShouldMergeResult::ExistingMergeInSameTargetReference(_) => {
                "An up to date merge exists"@
            },
            ShouldMergeResult::ExistingMergeInDifferentTargetReference { .. } => {
                "A merge under another target reference exists"@
            },
        }
    }
}

/// The part of the flags of an index entry that holds its stage.
pub const GIT_INDEX_ENTRY_STAGEMASK: u16 = 0x3000;

/// By how many bits the stage stands to the left in the flags of an index entry.
pub const GIT_INDEX_ENTRY_STAGESHIFT: u16 = 12;

/// An entry of a Git index, as far as a merge reads it.
#[derive(Clone, Copy, Debug, PartialEq, Eq)]
pub struct IndexEntry {
    /// The flags of the entry, as the Git index format lays them out.
    pub flags: u16,
}

/// The stage that the flags of an index entry hold.
pub open spec fn spec_stage(flags: u16) -> u16 {
    (flags & 0x3000) >> 12
}

/// The stage of an index entry: zero for a merged entry, one to three for the sides of a
/// conflict.
pub fn git_index_entry_stage(entry: &IndexEntry) -> (r: u16)
    ensures
        r == spec_stage(entry.flags),
        r <= 3,
{
    let flags = entry.flags;
    assert((flags & 0x3000) >> 12 <= 3) by (bit_vector);
    (flags & GIT_INDEX_ENTRY_STAGEMASK) >> GIT_INDEX_ENTRY_STAGESHIFT
}

/// Whether an index entry is one side of a conflict.
pub fn git_index_entry_is_conflict(entry: &IndexEntry) -> (r: bool)
    ensures
        r == (spec_stage(entry.flags) > 0),
{
    git_index_entry_stage(entry) > 0
}

/// Whether an index holds an entry in conflict.
pub fn index_in_conflict(entries: &[IndexEntry]) -> (r: bool)
    ensures
        r == exists|i: int| 0 <= i < entries@.len() && spec_stage(#[trigger] entries@[i].flags) > 0,
{
    let mut i: usize = 0;
    while i < entries.len()
        invariant
            i <= entries@.len(),
            forall|j: int| 0 <= j < i ==> spec_stage(#[trigger] entries@[j].flags) == 0,
        decreases entries@.len() - i,
    {
        if git_index_entry_is_conflict(&entries[i]) {
            return true;
        }
        i += 1;
    }
    false
}

/// The message of the merge commit of the commit `base_oid` of `reference` into the commit
/// `target_oid` of `target_reference`.
pub fn commit_message(base_oid: Oid, target_oid: Oid, reference: &str, target_reference: &str) -> (r:
    String)
    ensures
        r@ == spec_merge_commit_message(base_oid@, target_oid@, reference@, target_reference@),
{
    let mut out = "Merge ".to_string();
    out.append(reference);
    out.append(" (");
    out.append(base_oid.to_string().as_str());
    out.append(") into ");
    out.append(target_reference);
    out.append(" (");
    out.append(target_oid.to_string().as_str());
    out.append(")");
    out
}

/// What was found in the repository as the note of a commit.
#[derive(Debug, Clone, PartialEq, Eq)]
pub enum StoredNote {
    /// The commit has no note.
    Missing,
    /// The commit has a note whose message is no text.
    Unreadable,
    /// The message of the note of the commit.
    Text(String),
}

/// The note that is found for a commit: none without a stored note, an invalid one where
/// the stored note is no text, else the note that the text holds.
pub open spec fn spec_find_note(stored: StoredNote) -> Result<NoteView, ErrorKind> {
    match stored {
        StoredNote::Missing => Err(ErrorKind::NoteMissing),
        StoredNote::Unreadable => Err(ErrorKind::InvalidNote),
        StoredNote::Text(text) => decode_text(text@),
    }
}

/// The rules for the merges into one remote, with a namespace for the notes and a namer
/// for the merge references.
pub struct Merger<F: Fn(&str, &str, Oid, Oid) -> String> {
    remote_name: String,
    namespace: String,
    merge_reference_namer: MergeReferenceNamer<F>,
}

impl<F: Fn(&str, &str, Oid, Oid) -> String> Merger<F> {
    /// The name of the remote.
    pub closed spec fn spec_remote_name(&self) -> Seq<char> {
        self.remote_name@
    }

    /// The namespace of the notes.
    pub closed spec fn spec_namespace(&self) -> Seq<char> {
        self.namespace@
    }

    /// The namer of the merge references.
    pub closed spec fn namer(&self) -> MergeReferenceNamer<F> {
        self.merge_reference_namer
    }

    /// The rules for the remote `remote_name`, or `origin`; with the notes namespace
    /// `namespace`, or `fusionner`; with the given namer, or the default one.
    pub fn new(
        remote_name: Option<&str>,
        namespace: Option<&str>,
        merge_reference_namer: Option<MergeReferenceNamer<F>>,
    ) -> (r: Merger<F>)
        ensures
            r.spec_remote_name() == (match remote_name {
                Some(n) => n@,
                None => spec_default_remote(),
            }),
            r.spec_namespace() == (match namespace {
                Some(n) => n@,
                None => spec_default_notes_namespace(),
            }),
            r.namer() == (match merge_reference_namer {
                Some(n) => n,
                None => MergeReferenceNamer::Default,
            }),
    {
        Merger {
            remote_name: match remote_name {
                Some(n) => n.to_string(),
                None => "origin".to_string(),
            },
            namespace: match namespace {
                Some(n) => n.to_string(),
                None => "fusionner".to_string(),
            },
            merge_reference_namer: match merge_reference_namer {
                Some(n) => n,
                None => MergeReferenceNamer::Default,
            },
        }
    }

    /// The name that the namer gives to the merge reference of a merge.
    pub fn resolve_merge_reference(
        &self,
        reference: &str,
        target_reference: &str,
        oid: Oid,
        target_oid: Oid,
    ) -> (r: String)
        requires
            self.namer().accepts(reference, target_reference, oid, target_oid),
        ensures
            self.namer().names(reference, target_reference, oid, target_oid, r),
    {
        self.merge_reference_namer.resolve(reference, target_reference, oid, target_oid)
    }

    /// The name of the remote.
    pub fn remote_name(&self) -> (r: &str)
        ensures
            r@ == self.spec_remote_name(),
    {
        self.remote_name.as_str()
    }

    /// The reference under which the notes are kept.
    pub fn notes_reference(&self) -> (r: String)
        ensures
            r@ == spec_notes_reference(self.spec_namespace()),
    {
        concat("refs/notes/", self.namespace.as_str())
    }

    /// The refspec by which the notes are fetched and pushed: the notes reference, forced,
    /// onto itself.
    pub fn note_refspec(&self) -> (r: String)
        ensures
            r@ == spec_mirror_refspec(spec_notes_reference(self.spec_namespace())),
    {
        let reference = self.notes_reference();
        let mut out = "+".to_string();
        out.append(reference.as_str());
        out.append(":");
        out.append(reference.as_str());
        out
    }

    /// The refspecs to fetch so that the notes of the remote are at hand.
    pub fn fetch_notes(&self) -> (r: Vec<String>)
        ensures
            r@.len() == 1,
            r@[0]@ == spec_mirror_refspec(spec_notes_reference(self.spec_namespace())),
    {
        let mut out: Vec<String> = Vec::new();
        out.push(self.note_refspec());
        out
    }

    /// The note of a commit, from what was found stored for it under the notes reference.
    pub fn find_note(&self, stored: &StoredNote) -> (r: Result<Note, ErrorKind>)
        ensures
            r is Ok <==> spec_find_note(*stored) is Ok,
            r matches Ok(n) ==> Ok::<NoteView, ErrorKind>(n@) == spec_find_note(*stored),
            r matches Err(e) ==> Err::<NoteView, ErrorKind>(e) == spec_find_note(*stored),
    {
        match stored {
            StoredNote::Missing => Err(ErrorKind::NoteMissing),
            StoredNote::Unreadable => Err(ErrorKind::InvalidNote),
            StoredNote::Text(text) => Note::decode(text.as_str()),
        }
    }

    /// The text to store as the note of a commit under the notes reference, in place of any
    /// note that the commit has.
    pub fn add_note(&self, note: &Note) -> (r: Result<String, ErrorKind>)
        ensures
            r is Ok <==> encode_text(note@) is Some,
            r matches Ok(s) ==> Some(s@) == encode_text(note@),
            r matches Err(e) ==> e == ErrorKind::InvalidNote,
    {
        note.encode()
    }

    /// The message of the merge commit of `reference` into `target_reference`.
    pub fn merge_commit_message(
        base_oid: Oid,
        target_oid: Oid,
        reference: &str,
        target_reference: &str,
    ) -> (r: String)
        ensures
            r@ == spec_merge_commit_message(base_oid@, target_oid@, reference@, target_reference@),
    {
        commit_message(base_oid, target_oid, reference, target_reference)
    }

    /// Whether `r` is what is to be done about the commit `oid` of `reference` and the
    /// commit `target_oid` of `target_reference`, given the note that was found for `oid`.
    ///
    /// Without a note a merge is to be made. With a note that has no record made with
    /// `target_oid`, a merge is to be made and added to the note. With such a record under
    /// `target_reference`, nothing is to be made. With such records under other target
    /// references only, these are listed, and a record is proposed for `target_reference`
    /// that names the merge commit of the first of the list.
    pub open spec fn decides(
        &self,
        found: Result<NoteView, ErrorKind>,
        oid: Oid,
        target_oid: Oid,
        reference: Seq<char>,
        target_reference: Seq<char>,
        r: ShouldMergeResult,
    ) -> bool {
        match found {
            Err(_) => r matches ShouldMergeResult::Merge(None),
            Ok(found_note) => {
                let matching = matching_merges(found_note.merges, target_oid@);
                if matching.dom() =~= Set::<Seq<char>>::empty() {
                    r matches ShouldMergeResult::Merge(Some(n)) && n@ == found_note
                } else if matching.dom().contains(target_reference) {
                    r matches ShouldMergeResult::ExistingMergeInSameTargetReference(n) && n@
                        == found_note
                } else {
                    r matches ShouldMergeResult::ExistingMergeInDifferentTargetReference {
                        note,
                        merges,
                        proposed_merge,
                    } && note@ == found_note && lists(merges_view(merges@), matching)
                        && merges@.len() > 0 && proposed_merge@ == (MergeView {
                        merge_oid: merges@[0]@.merge_oid,
                        target_parent_oid: spec_oid_hex(target_oid@),
                        target_parent_reference: target_reference,
                        parents_oid: seq![spec_oid_hex(oid@)],
                        merge_reference: proposed_merge@.merge_reference,
                    }) && self.namer().names_texts(
                        reference,
                        target_reference,
                        oid,
                        target_oid,
                        proposed_merge.merge_reference,
                    )
                }
            },
        }
    }

    /// What is to be done about the commit `oid` of `reference` and the commit
    /// `target_oid` of `target_reference`, given the note that was found for `oid`. The
    /// records that were made with `target_oid` are listed in the order of the note.
    pub fn should_merge(
        &self,
        found: &Result<Note, ErrorKind>,
        oid: Oid,
        target_oid: Oid,
        reference: &str,
        target_reference: &str,
    ) -> (r: ShouldMergeResult)
        requires
            self.namer().accepts(reference, target_reference, oid, target_oid),
        ensures
            self.decides(found_view(*found), oid, target_oid, reference@, target_reference@, r),
            r matches ShouldMergeResult::ExistingMergeInDifferentTargetReference { merges, .. }
                ==> merges_view(merges@) == matching_values(
                found->Ok_0.merges.values(),
                target_oid@,
            ),
    {
        let note = match found {
            Err(_) => {
                return ShouldMergeResult::Merge(None);
            },
            Ok(note) => note,
        };
        let matching_merges = note.find_matching_merges(target_oid);
        proof {
            use_type_invariant(&matching_merges);
            if matching_merges.keys().len() > 0 {
                matching_merges.lemma_view_at(0);
            } else {
                assert(matching_merges@.dom() =~= Set::<Seq<char>>::empty());
            }
        }
        if matching_merges.is_empty() {
            ShouldMergeResult::Merge(Some(note.clone()))
        } else if matching_merges.contains_key(target_reference) {
            ShouldMergeResult::ExistingMergeInSameTargetReference(note.clone())
        } else {
            let commit_reference = self.merge_reference_namer.resolve(
                reference,
                target_reference,
                oid,
                target_oid,
            );
            let merges = list_merges(&matching_merges);
            let mut parents_oid: Vec<String> = Vec::new();
            parents_oid.push(oid.to_string());
            let proposed_merge = Merge {
                merge_oid: merges[0].merge_oid.clone(),
                target_parent_oid: target_oid.to_string(),
                target_parent_reference: target_reference.to_string(),
                parents_oid: parents_oid,
                merge_reference: commit_reference,
            };
            assert(proposed_merge@.parents_oid =~= seq![spec_oid_hex(oid@)]);
            assert(self.namer().names(
                reference,
                target_reference,
                oid,
                target_oid,
                proposed_merge.merge_reference,
            ));
            ShouldMergeResult::ExistingMergeInDifferentTargetReference {
                note: note.clone(),
                merges: merges,
                proposed_merge: proposed_merge,
            }
        }
    }
}

/// The records of a map, in its order.
pub fn list_merges(records: &Merges) -> (merges: Vec<Merge>)
    ensures
        merges_view(merges@) == records.values(),
        lists(merges_view(merges@), records@),
{
    proof {
        use_type_invariant(records);
    }
    let n = records.len();
    let mut merges: Vec<Merge> = Vec::new();
    let mut i: usize = 0;
    while i < n
        invariant
            i <= n,
            n == records.values().len(),
            merges@.len() == i,
            forall|j: int| 0 <= j < i ==> merges@[j]@ == records.values()[j],
        decreases n - i,
    {
        merges.push(records.value_at(i).clone());
        i += 1;
    }
    proof {
        assert(merges_view(merges@) =~= records.values());
        lemma_values_list(*records);
    }
    merges
}

/// The records of a valid map, in its order, are a list of its records.
pub proof fn lemma_values_list(records: Merges)
    requires
        records.wf(),
    ensures
        lists(records.values(), records@),
{
    let listed = records.values();
    let map = records@;
    assert forall|i: int| 0 <= i < listed.len() implies is_record(map, #[trigger] listed[i]) by {
        records.lemma_view_at(i);
        let k = records.keys()[i];
        assert(map.dom().contains(k) && map[k] == listed[i]);
    }
    assert forall|k: Seq<char>| #[trigger] map.dom().contains(k) implies listed.contains(
        map[k],
    ) by {
        let i = records.keys().index_of(k);
        assert(0 <= i < records.keys().len() && records.keys()[i] == k);
        records.lemma_view_at(i);
        assert(listed[i] == map[k]);
    }
}

/// What a note that was found or not holds.
pub open spec fn found_view(found: Result<Note, ErrorKind>) -> Result<NoteView, ErrorKind> {
    match found {
        Ok(n) => Ok(n@),
        Err(e) => Err(e),
    }
}

/// Whether a map holds a record under some key.
pub open spec fn is_record(records: Map<Seq<char>, MergeView>, v: MergeView) -> bool {
    exists|k: Seq<char>| #[trigger] records.dom().contains(k) && records[k] == v
}

/// Whether a list holds the records of a map: each item of the list is a record of the
/// map, and each record of the map is in the list.
pub open spec fn lists(listed: Seq<MergeView>, records: Map<Seq<char>, MergeView>) -> bool {
    &&& forall|i: int| 0 <= i < listed.len() ==> is_record(records, #[trigger] listed[i])
    &&& forall|k: Seq<char>| #[trigger] records.dom().contains(k) ==> listed.contains(records[k])
}

/// The refspec by which the merge references of the default namer are pushed: all that is
/// below the base, forced, to the same path below the references of the remote.
pub open spec fn spec_default_refspec(remote_name: Seq<char>) -> Seq<char> {
    "+"@ + "refs/fusionner/*"@ + ":"@ + "refs/remotes/"@ + remote_name + "/"@ + "fusionner/*"@
}

impl<F: Fn(&str, &str, Oid, Oid) -> String> MergeReferenceNamer<F> {
    /// What adding the push refspec of the default namer to the remote takes: nothing
    /// where it is configured, else one change of the configuration. An anonymous remote
    /// takes no refspec.
    pub fn add_default_refspecs(remote: &Remote) -> (r: Result<Option<RefspecChange>, ErrorKind>)
        ensures
            remote.name is None ==> r == Err::<Option<RefspecChange>, ErrorKind>(
                ErrorKind::ConfigInvalid,
            ),
            remote.name is Some ==> r is Ok,
            r matches Ok(change) ==> (change is None <==> has_refspec(
                remote.refspecs@,
                Direction::Push,
                spec_default_refspec(remote.name->Some_0@),
            )),
            r matches Ok(Some(change)) ==> change.remote_name@ == remote.name->Some_0@
                && change.refspec@ == spec_default_refspec(remote.name->Some_0@)
                && change.direction == Direction::Push,
    {
        let mut src = Self::default_reference_base();
        src.append("/*");
        proof {
            reveal_strlit("refs/fusionner");
            reveal_strlit("refs/fusionner/*");
            reveal_strlit("fusionner/*");
            reveal_strlit("/*");
            reveal_strlit("refs/");
            reveal_strlit("+");
            assert(src@ =~= "refs/fusionner/*"@);
            assert(src@.subrange(0, 5) =~= "refs/"@);
            assert(src@.subrange(5, src@.len() as int) =~= "fusionner/*"@);
        }
        match remote.generate_refspec(src.as_str(), true) {
            Ok(refspec) => remote.add_refspec(refspec.as_str(), Direction::Push),
            Err(_) => Err(ErrorKind::ConfigInvalid),
        }
    }
}

impl<F: Fn(&str, &str, Oid, Oid) -> String> Merger<F> {
    /// What adding the refspec of the notes to the remote takes, for fetching and for
    /// pushing: one change of the configuration for each direction in which it is not
    /// configured, fetching first. An anonymous remote takes no refspec.
    pub fn add_note_refspecs(&self, remote: &Remote) -> (r: Result<Vec<RefspecChange>, ErrorKind>)
        ensures
            remote.name is None ==> r == Err::<Vec<RefspecChange>, ErrorKind>(
                ErrorKind::ConfigInvalid,
            ),
            remote.name is Some ==> r is Ok,
            r matches Ok(changes) ==> {
                let refspec = spec_mirror_refspec(spec_notes_reference(self.spec_namespace()));
                let fetch = !has_refspec(remote.refspecs@, Direction::Fetch, refspec);
                let push = !has_refspec(remote.refspecs@, Direction::Push, refspec);
                &&& changes@.len() == (if fetch {
                    1int
                } else {
                    0int
                }) + (if push {
                    1int
                } else {
                    0int
                })
                &&& forall|i: int|
                    0 <= i < changes@.len() ==> (#[trigger] changes@[i]).refspec@ == refspec
                        && changes@[i].remote_name@ == remote.name->Some_0@
                &&& fetch ==> changes@[0].direction == Direction::Fetch
                &&& push ==> changes@[changes@.len() - 1].direction == Direction::Push
            },
    {
        let refspec = self.note_refspec();
        let mut changes: Vec<RefspecChange> = Vec::new();
        match remote.add_refspec(refspec.as_str(), Direction::Fetch) {
            Ok(Some(change)) => {
                changes.push(change);
            },
            Ok(None) => {},
            Err(e) => {
                return Err(e);
            },
        }
        match remote.add_refspec(refspec.as_str(), Direction::Push) {
            Ok(Some(change)) => {
                changes.push(change);
            },
            Ok(None) => {},
            Err(e) => {
                return Err(e);
            },
        }
        Ok(changes)
    }

    /// As long as the note of a commit stays as it is, the same is to be done about the
    /// commit and a target: two decisions are of the same kind, and speak of the same note.
    pub proof fn lemma_decides_same_kind(
        &self,
        found: Result<NoteView, ErrorKind>,
        oid: Oid,
        target_oid: Oid,
        reference: Seq<char>,
        target_reference: Seq<char>,
        first: ShouldMergeResult,
        second: ShouldMergeResult,
    )
        requires
            self.decides(found, oid, target_oid, reference, target_reference, first),
            self.decides(found, oid, target_oid, reference, target_reference, second),
        ensures
            match first {
                ShouldMergeResult::Merge(None) => second matches ShouldMergeResult::Merge(None),
                ShouldMergeResult::Merge(Some(n)) => {
                    second matches ShouldMergeResult::Merge(Some(m)) && m@ == n@
                },
                ShouldMergeResult::ExistingMergeInSameTargetReference(n) => {
                    second matches ShouldMergeResult::ExistingMergeInSameTargetReference(m) && m@
                        == n@
                },
                ShouldMergeResult::ExistingMergeInDifferentTargetReference { note: n, .. } => {
                    second matches ShouldMergeResult::ExistingMergeInDifferentTargetReference {
                        note: m,
                        ..
                    } && m@ == n@
                },
            },
    {
    }

    /// Once the record of a merge with the commit `target_oid` stands in the note under
    /// `target_reference`, nothing is to be made for this commit and this target
    /// reference: the merge is there.
    pub proof fn lemma_recorded_merge_is_found(
        &self,
        note: NoteView,
        merge: MergeView,
        oid: Oid,
        target_oid: Oid,
        reference: Seq<char>,
        target_reference: Seq<char>,
        decision: ShouldMergeResult,
    )
        requires
            note.merges.dom().contains(target_reference),
            note.merges[target_reference] == merge,
            merge.target_parent_oid == spec_oid_hex(target_oid@),
            self.decides(Ok(note), oid, target_oid, reference, target_reference, decision),
        ensures
            decision matches ShouldMergeResult::ExistingMergeInSameTargetReference(n) && n@ == note,
    {
        target_oid.lemma_len();
        lemma_parse_hex(target_oid@);
        assert(merge_matches(merge, target_oid@));
        let matching = matching_merges(note.merges, target_oid@);
        assert(matching.dom().contains(target_reference));
    }

    /// A record made with another commit of the target than `target_oid` does not stand
    /// in the way: where no record of the note was made with `target_oid`, a merge is to
    /// be made, and its record is to be added to this note.
    pub proof fn lemma_advanced_target_is_merged(
        &self,
        note: NoteView,
        oid: Oid,
        target_oid: Oid,
        reference: Seq<char>,
        target_reference: Seq<char>,
        decision: ShouldMergeResult,
    )
        requires
            forall|k: Seq<char>| #[trigger]
                note.merges.dom().contains(k) ==> !merge_matches(note.merges[k], target_oid@),
            self.decides(Ok(note), oid, target_oid, reference, target_reference, decision),
        ensures
            decision matches ShouldMergeResult::Merge(Some(n)) && n@ == note,
    {
        let matching = matching_merges(note.merges, target_oid@);
        assert(matching.dom() =~= Set::<Seq<char>>::empty());
    }
}

} // verus!
