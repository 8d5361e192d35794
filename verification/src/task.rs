//! Merging step by step: the library says what is to be done next in the repository, the
//! caller does it and reports what came of it.

use crate::codec::encode_text;
use crate::error::ErrorKind;
use crate::merger::{
    commit_message, found_view, index_in_conflict, spec_find_note, spec_merge_commit_message,
    spec_notes_reference, spec_stage, IndexEntry, Merger, ShouldMergeResult, StoredNote,
};
use crate::merges::{oids_hex, strings_view, Merge, MergeView};
use crate::note::{matching_merges, merge_matches, spec_note_id, Note, NoteView, NOTE_VERSION};
use crate::oid::{spec_oid_hex, Oid};
use crate::refspec::{spec_as_forced, RefspecStr};
use vstd::prelude::*;

verus! {

/// What the caller is asked to do in the repository or at the remote.
#[derive(Debug, Clone, PartialEq, Eq)]
pub enum Action {
    /// Look up the note of the commit `oid` under `notes_reference`.
    FindNote { notes_reference: String, oid: Oid },
    /// Look up both commits and merge `theirs` into `ours` in an index in memory.
    MergeCommits { ours: Oid, theirs: Oid },
    /// Write the merged index as a tree into the repository.
    WriteTree,
    /// Delete `reference` where it exists; then commit `tree` with `message` and
    /// `parents`, in this order, and let `reference` point to the commit.
    Commit { reference: String, message: String, tree: Oid, parents: Vec<Oid> },
    /// Store `text` as the note of the commit `oid` under `notes_reference`, in place of
    /// any note that the commit has.
    AddNote { notes_reference: String, oid: Oid, text: String },
    /// Fetch the refspecs from the remote.
    Fetch { refspecs: Vec<String> },
    /// Push the refspecs to the remote, all in one push.
    Push { refspecs: Vec<String> },
    /// Nothing: the work has ended.
    Nothing,
}

/// What came of the action that was asked for.
#[derive(Debug, Clone, PartialEq, Eq)]
pub enum Event {
    /// What was found stored as the note of the commit.
    Note(StoredNote),
    /// The entries of the merged index.
    Merged(Vec<IndexEntry>),
    /// The id of the tree that was written.
    TreeWritten(Oid),
    /// The id of the commit that was made.
    Committed(Oid),
    /// The note was stored, or the refspecs were fetched or pushed.
    Done,
    /// The action failed.
    Failed,
}

/// How far a merge has come.
#[derive(Debug, Clone, PartialEq, Eq)]
pub enum MergeState {
    /// The commits are to be merged into an index.
    Merging,
    /// The merged index is to be written as a tree.
    WritingTree,
    /// The tree is to be committed under the merge reference.
    Committing { tree: Oid, reference: String },
    /// The merge commit is made; this is its record.
    Merged(Merge),
    /// The merge has failed.
    Failed(ErrorKind),
}

/// A merge of the commit `oid` of `reference` into the commit `target_oid` of
/// `target_reference`, and how far it has come.
#[derive(Debug, Clone, PartialEq, Eq)]
pub struct MergeJob {
    /// The commit to merge.
    pub oid: Oid,
    /// The commit of the target to merge into.
    pub target_oid: Oid,
    /// The reference of the commit to merge.
    pub reference: String,
    /// The target reference.
    pub target_reference: String,
    /// How far the merge has come.
    pub state: MergeState,
}

/// Whether an index holds an entry in conflict.
pub open spec fn spec_in_conflict(entries: Seq<IndexEntry>) -> bool {
    exists|i: int| 0 <= i < entries.len() && spec_stage(#[trigger] entries[i].flags) > 0
}

impl MergeJob {
    /// Whether `action` is what the merge asks for next. The target's commit is the first
    /// parent of the merge commit.
    pub open spec fn asks(&self, action: Action) -> bool {
        match self.state {
            MergeState::Merging => action == (Action::MergeCommits {
                ours: self.target_oid,
                theirs: self.oid,
            }),
            MergeState::WritingTree => action == Action::WriteTree,
            MergeState::Committing { tree, reference } => action matches Action::Commit {
                reference: r,
                message,
                tree: t,
                parents,
            } && r@ == reference@ && message@ == spec_merge_commit_message(
                self.oid@,
                self.target_oid@,
                self.reference@,
                self.target_reference@,
            ) && t == tree && parents@ == seq![self.target_oid, self.oid],
            MergeState::Merged(_) => action == Action::Nothing,
            MergeState::Failed(_) => action == Action::Nothing,
        }
    }

    /// What the merge asks for next.
    pub fn action(&self) -> (r: Action)
        ensures
            self.asks(r),
    {
        match &self.state {
            MergeState::Merging => Action::MergeCommits { ours: self.target_oid, theirs: self.oid },
            MergeState::WritingTree => Action::WriteTree,
            MergeState::Committing { tree, reference } => {
                let mut parents: Vec<Oid> = Vec::new();
                parents.push(self.target_oid);
                parents.push(self.oid);
                assert(parents@ =~= seq![self.target_oid, self.oid]);
                Action::Commit {
                    reference: reference.clone(),
                    message: commit_message(
                        self.oid,
                        self.target_oid,
                        self.reference.as_str(),
                        self.target_reference.as_str(),
                    ),
                    tree: *tree,
                    parents: parents,
                }
            },
            MergeState::Merged(_) => Action::Nothing,
            MergeState::Failed(_) => Action::Nothing,
        }
    }

    /// The record of the merge commit once it is made, the error once the merge has
    /// failed, and nothing before.
    pub fn outcome(&self) -> (r: Option<Result<Merge, ErrorKind>>)
        ensures
            match self.state {
                MergeState::Merged(m) => r matches Some(Ok(x)) && x@ == m@,
                MergeState::Failed(e) => r == Some(Err::<Merge, ErrorKind>(e)),
                _ => r is None,
            },
    {
        match &self.state {
            MergeState::Merged(m) => Some(Ok(m.clone())),
            MergeState::Failed(e) => Some(Err(*e)),
            _ => None,
        }
    }
}

impl<F: Fn(&str, &str, Oid, Oid) -> String> Merger<F> {
    /// Whether a merge that stood at `before` stands at `after` once `event` has come.
    ///
    /// A merged index with an entry in conflict fails the merge; one without is written as
    /// a tree. The tree is committed under the name that the namer gives. The commit is
    /// recorded with the target's commit and reference, the merged commit as its other
    /// parent, and this name. A failed action fails the merge: with `CommitLookup` while
    /// merging, `TreeWrite` while writing the tree, `RefUpdate` while committing. An event
    /// that answers no request of the merge changes nothing.
    pub open spec fn merge_steps(&self, before: MergeJob, event: Event, after: MergeJob) -> bool {
        &&& after.oid == before.oid
        &&& after.target_oid == before.target_oid
        &&& after.reference == before.reference
        &&& after.target_reference == before.target_reference
        &&& match (before.state, event) {
            (MergeState::Merging, Event::Merged(entries)) => if spec_in_conflict(entries@) {
                after.state == MergeState::Failed(ErrorKind::Conflict)
            } else {
                after.state == MergeState::WritingTree
            },
            (MergeState::Merging, Event::Failed) => after.state == MergeState::Failed(
                ErrorKind::CommitLookup,
            ),
            (MergeState::WritingTree, Event::TreeWritten(tree)) => {
                after.state matches MergeState::Committing { tree: t, reference } && t == tree
                    && self.namer().names_texts(
                    before.reference@,
                    before.target_reference@,
                    before.oid,
                    before.target_oid,
                    reference,
                )
            },
            (MergeState::WritingTree, Event::Failed) => after.state == MergeState::Failed(
                ErrorKind::TreeWrite,
            ),
            (MergeState::Committing { tree, reference }, Event::Committed(merge_oid)) => {
                after.state matches MergeState::Merged(m) && m@ == (MergeView {
                    merge_oid: spec_oid_hex(merge_oid@),
                    target_parent_oid: spec_oid_hex(before.target_oid@),
                    target_parent_reference: before.target_reference@,
                    parents_oid: seq![spec_oid_hex(before.oid@)],
                    merge_reference: reference@,
                })
            },
            (MergeState::Committing { .. }, Event::Failed) => after.state == MergeState::Failed(
                ErrorKind::RefUpdate,
            ),
            _ => after.state == before.state,
        }
    }

    /// Whether the namer can be asked for the name of the merge reference of a merge.
    pub open spec fn can_name(&self, job: MergeJob) -> bool {
        self.namer().accepts_texts(job.reference@, job.target_reference@, job.oid, job.target_oid)
    }

    /// A merge of the commit `oid` of `reference` into the commit `target_oid` of
    /// `target_reference`, at its start.
    pub fn merge(&self, oid: Oid, target_oid: Oid, reference: &str, target_reference: &str) -> (r:
        MergeJob)
        ensures
            r.oid == oid,
            r.target_oid == target_oid,
            r.reference@ == reference@,
            r.target_reference@ == target_reference@,
            r.state == MergeState::Merging,
    {
        MergeJob {
            oid: oid,
            target_oid: target_oid,
            reference: reference.to_string(),
            target_reference: target_reference.to_string(),
            state: MergeState::Merging,
        }
    }

    /// Where the merge stands once `event` has come.
    pub fn merge_step(&self, job: MergeJob, event: &Event) -> (r: MergeJob)
        requires
            self.can_name(job),
        ensures
            self.merge_steps(job, *event, r),
    {
        let MergeJob { oid, target_oid, reference, target_reference, state } = job;
        let next = match (state, event) {
            (MergeState::Merging, Event::Merged(entries)) => {
                if index_in_conflict(entries.as_slice()) {
                    MergeState::Failed(ErrorKind::Conflict)
                } else {
                    MergeState::WritingTree
                }
            },
            (MergeState::Merging, Event::Failed) => MergeState::Failed(ErrorKind::CommitLookup),
            (MergeState::WritingTree, Event::TreeWritten(tree)) => {
                let a = reference.as_str();
                let b = target_reference.as_str();
                assert(self.namer().accepts(a, b, oid, target_oid));
                let commit_reference = self.resolve_merge_reference(a, b, oid, target_oid);
                assert(self.namer().names(a, b, oid, target_oid, commit_reference));
                MergeState::Committing { tree: *tree, reference: commit_reference }
            },
            (MergeState::WritingTree, Event::Failed) => MergeState::Failed(ErrorKind::TreeWrite),
            (MergeState::Committing { tree, reference: commit_reference }, Event::Committed(merge_oid)) => {
                let mut parents: Vec<Oid> = Vec::new();
                parents.push(oid);
                let merge = Merge::new(
                    *merge_oid,
                    target_oid,
                    target_reference.as_str(),
                    parents.as_slice(),
                    commit_reference.as_str(),
                );
                assert(oids_hex(parents@) =~= seq![spec_oid_hex(oid@)]);
                MergeState::Merged(merge)
            },
            (MergeState::Committing { .. }, Event::Failed) => MergeState::Failed(
                ErrorKind::RefUpdate,
            ),
            (state, _) => state,
        };
        MergeJob {
            oid: oid,
            target_oid: target_oid,
            reference: reference,
            target_reference: target_reference,
            state: next,
        }
    }
}

/// How far the work on a commit and a target has come.
#[derive(Debug, Clone, PartialEq, Eq)]
pub enum TaskState {
    /// The note of the commit is to be looked up.
    FindingNote,
    /// A merge is under way.
    Merging { decision: ShouldMergeResult, job: MergeJob },
    /// The note of the commit is to be stored; then the merge reference is to be fetched,
    /// or not.
    AddingNote { decision: ShouldMergeResult, merge: Merge, text: String, fetch: bool },
    /// The merge reference is to be fetched.
    Fetching { decision: ShouldMergeResult, merge: Merge },
    /// The notes and what was made are to be pushed.
    Pushing { decision: ShouldMergeResult, merge: Merge },
    /// The work has ended with this record, after this decision.
    Finished { merge: Merge, decision: ShouldMergeResult },
    /// The work has failed.
    Failed(ErrorKind),
}

/// The work on the commit `oid` of `reference` and the commit `target_oid` of
/// `target_reference`: a merge commit is made unless the note of the commit records one,
/// the note is brought up to date, and what was made is pushed or not.
#[derive(Debug, Clone, PartialEq, Eq)]
pub struct MergeTask {
    /// The commit to merge.
    pub oid: Oid,
    /// The commit of the target to merge into.
    pub target_oid: Oid,
    /// The reference of the commit to merge.
    pub reference: String,
    /// The target reference.
    pub target_reference: String,
    /// Whether to push what was made.
    pub push: bool,
    /// How far the work has come.
    pub state: TaskState,
}

/// The note of a commit once a merge is recorded in it: the note that the commit had with
/// the record under its target reference, or a new note with this one record.
pub open spec fn recorded_note(prior: Option<NoteView>, merge: MergeView) -> NoteView {
    match prior {
        Some(n) => NoteView {
            merges: n.merges.insert(merge.target_parent_reference, merge),
            ..n
        },
        None => NoteView {
            note_origin: spec_note_id(),
            version: NOTE_VERSION,
            merges: Map::<Seq<char>, MergeView>::empty().insert(
                merge.target_parent_reference,
                merge,
            ),
        },
    }
}

/// The note that a decision to merge found for the commit.
pub open spec fn note_of(decision: ShouldMergeResult) -> Option<NoteView> {
    match decision {
        ShouldMergeResult::Merge(Some(n)) => Some(n@),
        _ => None,
    }
}

/// Whether the work stands where a note is to be stored, or has failed because the note
/// has no text.
pub open spec fn stores(
    decision: ShouldMergeResult,
    note: NoteView,
    merge: MergeView,
    fetch: bool,
    after: TaskState,
) -> bool {
    match encode_text(note) {
        None => after == TaskState::Failed(ErrorKind::InvalidNote),
        Some(content) => after matches TaskState::AddingNote { decision: d, merge: m, text, fetch: f }
            && d == decision && m@ == merge && text@ == content && f == fetch,
    }
}

/// Where the work stands once nothing is left to fetch: what was made is pushed, or the
/// work has ended.
pub open spec fn published(
    push: bool,
    decision: ShouldMergeResult,
    merge: Merge,
    after: TaskState,
) -> bool {
    if push {
        after == (TaskState::Pushing { decision, merge })
    } else {
        after == (TaskState::Finished { merge, decision })
    }
}

/// The refspecs to push after a decision: the notes reference, and the merge reference
/// unless the merge was there under the same target reference; each forced.
pub open spec fn push_refspecs(
    notes_reference: Seq<char>,
    decision: ShouldMergeResult,
    merge: MergeView,
) -> Seq<Seq<char>> {
    if decision is ExistingMergeInSameTargetReference {
        seq![spec_as_forced(notes_reference)]
    } else {
        seq![spec_as_forced(notes_reference), spec_as_forced(merge.merge_reference)]
    }
}

impl<F: Fn(&str, &str, Oid, Oid) -> String> Merger<F> {
    /// Whether the work can go on: the namer can be asked for the name of the merge
    /// reference, and a merge that is under way is the merge of this work.
    pub open spec fn ready(&self, task: MergeTask) -> bool {
        &&& self.namer().accepts_texts(
            task.reference@,
            task.target_reference@,
            task.oid,
            task.target_oid,
        )
        &&& task.state matches TaskState::Merging { job, .. } ==> job.oid == task.oid
            && job.target_oid == task.target_oid && job.reference@ == task.reference@
            && job.target_reference@ == task.target_reference@
    }

    /// Whether `action` is what the work asks for next.
    pub open spec fn task_asks(&self, task: MergeTask, action: Action) -> bool {
        match task.state {
            TaskState::FindingNote => action matches Action::FindNote { notes_reference, oid }
                && notes_reference@ == spec_notes_reference(self.spec_namespace()) && oid
                == task.oid,
            TaskState::Merging { job, .. } => job.asks(action),
            TaskState::AddingNote { text, .. } => action matches Action::AddNote {
                notes_reference,
                oid,
                text: t,
            } && notes_reference@ == spec_notes_reference(self.spec_namespace()) && oid
                == task.oid && t@ == text@,
            TaskState::Fetching { merge, .. } => action matches Action::Fetch { refspecs }
                && strings_view(refspecs@) == seq![spec_as_forced(merge@.merge_reference)],
            TaskState::Pushing { decision, merge } => action matches Action::Push { refspecs }
                && strings_view(refspecs@) == push_refspecs(
                spec_notes_reference(self.spec_namespace()),
                decision,
                merge@,
            ),
            TaskState::Finished { .. } => action == Action::Nothing,
            TaskState::Failed(_) => action == Action::Nothing,
        }
    }

    /// Whether the work stands at `after` once the decision `d` is taken.
    ///
    /// For a merge, the merge starts. With the merge there under the same target reference,
    /// its record is taken from the note and its reference is fetched. With the merge there
    /// under other target references, the proposed record is added to the note, and the
    /// note is stored.
    pub open spec fn follows(&self, before: MergeTask, d: ShouldMergeResult, after: TaskState) -> bool {
        match d {
            ShouldMergeResult::Merge(_) => after matches TaskState::Merging { decision, job }
                && decision == d && job.oid == before.oid && job.target_oid == before.target_oid
                && job.reference@ == before.reference@ && job.target_reference@
                == before.target_reference@ && job.state == MergeState::Merging,
            ShouldMergeResult::ExistingMergeInSameTargetReference(note) => if note@.merges.dom().contains(
                before.target_reference@,
            ) {
                after matches TaskState::Fetching { decision, merge } && decision == d && merge@
                    == note@.merges[before.target_reference@]
            } else {
                after == TaskState::Failed(ErrorKind::InvalidNote)
            },
            ShouldMergeResult::ExistingMergeInDifferentTargetReference {
                note,
                proposed_merge,
                ..
            } => stores(
                d,
                recorded_note(Some(note@), proposed_merge@),
                proposed_merge@,
                true,
                after,
            ),
        }
    }

    /// Whether the work that stood at `before` stands at `after` once `event` has come.
    ///
    /// What was found as the note decides what is to be done; a note that cannot be read
    /// fails the work. A merge goes its steps; once its commit is made, its record is added
    /// to the note, and the note is stored. After the note, the merge reference is fetched
    /// where the commit was not made here. Then what was made is pushed, if pushing was
    /// asked for. A failed action fails the work: with `RefUpdate` for the note, with
    /// `RemoteUnreachable` for a fetch or a push. An event that answers no request of the
    /// work changes nothing.
    pub open spec fn task_steps(&self, before: MergeTask, event: Event, after: MergeTask) -> bool {
        &&& after.oid == before.oid
        &&& after.target_oid == before.target_oid
        &&& after.reference == before.reference
        &&& after.target_reference == before.target_reference
        &&& after.push == before.push
        &&& match (before.state, event) {
            (TaskState::FindingNote, Event::Note(stored)) => {
                let found = spec_find_note(stored);
                if found is Err && found->Err_0 != ErrorKind::NoteMissing {
                    after.state == TaskState::Failed(found->Err_0)
                } else {
                    exists|d: ShouldMergeResult| #[trigger]
                        self.decides(
                            found,
                            before.oid,
                            before.target_oid,
                            before.reference@,
                            before.target_reference@,
                            d,
                        ) && self.follows(before, d, after.state)
                }
            },
            (TaskState::Merging { decision, job }, _) => exists|next: MergeJob| #[trigger]
                self.merge_steps(job, event, next) && match next.state {
                    MergeState::Merged(m) => stores(
                        decision,
                        recorded_note(note_of(decision), m@),
                        m@,
                        false,
                        after.state,
                    ),
                    MergeState::Failed(e) => after.state == TaskState::Failed(e),
                    _ => after.state == (TaskState::Merging { decision, job: next }),
                },
            (TaskState::AddingNote { decision, merge, fetch, .. }, Event::Done) => if fetch {
                after.state == (TaskState::Fetching { decision, merge })
            } else {
                published(before.push, decision, merge, after.state)
            },
            (TaskState::AddingNote { .. }, Event::Failed) => after.state == TaskState::Failed(
                ErrorKind::RefUpdate,
            ),
            (TaskState::Fetching { decision, merge }, Event::Done) => published(
                before.push,
                decision,
                merge,
                after.state,
            ),
            (TaskState::Fetching { .. }, Event::Failed) => after.state == TaskState::Failed(
                ErrorKind::RemoteUnreachable,
            ),
            (TaskState::Pushing { decision, merge }, Event::Done) => {
                after.state == (TaskState::Finished { merge, decision })
            },
            (TaskState::Pushing { .. }, Event::Failed) => after.state == TaskState::Failed(
                ErrorKind::RemoteUnreachable,
            ),
            _ => after.state == before.state,
        }
    }

    /// The work on the commit `oid` of `reference` and the commit `target_oid` of
    /// `target_reference`, at its start.
    pub fn check_and_merge(
        &self,
        oid: Oid,
        target_oid: Oid,
        reference: &str,
        target_ref: &str,
        push: bool,
    ) -> (r: MergeTask)
        requires
            self.namer().accepts_texts(reference@, target_ref@, oid, target_oid),
        ensures
            r.oid == oid,
            r.target_oid == target_oid,
            r.reference@ == reference@,
            r.target_reference@ == target_ref@,
            r.push == push,
            r.state == TaskState::FindingNote,
            self.ready(r),
    {
        MergeTask {
            oid: oid,
            target_oid: target_oid,
            reference: reference.to_string(),
            target_reference: target_ref.to_string(),
            push: push,
            state: TaskState::FindingNote,
        }
    }

    /// What the work asks for next.
    pub fn action(&self, task: &MergeTask) -> (r: Action)
        ensures
            self.task_asks(*task, r),
    {
        match &task.state {
            TaskState::FindingNote => Action::FindNote {
                notes_reference: self.notes_reference(),
                oid: task.oid,
            },
            TaskState::Merging { job, .. } => job.action(),
            TaskState::AddingNote { text, .. } => Action::AddNote {
                notes_reference: self.notes_reference(),
                oid: task.oid,
                text: text.clone(),
            },
            TaskState::Fetching { merge, .. } => {
                let mut refspecs: Vec<String> = Vec::new();
                refspecs.push(RefspecStr::as_forced(merge.merge_reference.as_str()));
                assert(strings_view(refspecs@) =~= seq![spec_as_forced(merge@.merge_reference)]);
                Action::Fetch { refspecs: refspecs }
            },
            TaskState::Pushing { decision, merge } => {
                let mut refspecs: Vec<String> = Vec::new();
                refspecs.push(RefspecStr::as_forced(self.notes_reference().as_str()));
                match decision {
                    ShouldMergeResult::ExistingMergeInSameTargetReference(_) => {},
                    _ => {
                        refspecs.push(RefspecStr::as_forced(merge.merge_reference.as_str()));
                    },
                }
                assert(strings_view(refspecs@) =~= push_refspecs(
                    spec_notes_reference(self.spec_namespace()),
                    *decision,
                    merge@,
                ));
                Action::Push { refspecs: refspecs }
            },
            TaskState::Finished { .. } => Action::Nothing,
            TaskState::Failed(_) => Action::Nothing,
        }
    }

    /// Where the work stands once the note with the record of a merge has its text.
    fn store(&self, decision: ShouldMergeResult, note: &Note, merge: Merge, fetch: bool) -> (r:
        TaskState)
        ensures
            stores(decision, note@, merge@, fetch, r),
            !(r is Merging),
    {
        match self.add_note(note) {
            Ok(text) => TaskState::AddingNote {
                decision: decision,
                merge: merge,
                text: text,
                fetch: fetch,
            },
            Err(_) => TaskState::Failed(ErrorKind::InvalidNote),
        }
    }

    /// Where the work stands once nothing is left to fetch.
    fn publish(push: bool, decision: ShouldMergeResult, merge: Merge) -> (r: TaskState)
        ensures
            published(push, decision, merge, r),
            !(r is Merging),
    {
        if push {
            TaskState::Pushing { decision: decision, merge: merge }
        } else {
            TaskState::Finished { merge: merge, decision: decision }
        }
    }

    /// Where the work stands once a decision is taken.
    fn dispatch(&self, task: &MergeTask, decision: ShouldMergeResult) -> (r: TaskState)
        ensures
            self.follows(*task, decision, r),
            r matches TaskState::Merging { job, .. } ==> job.oid == task.oid && job.target_oid
                == task.target_oid && job.reference@ == task.reference@ && job.target_reference@
                == task.target_reference@,
    {
        match &decision {
            ShouldMergeResult::Merge(_) => {
                let job = self.merge(
                    task.oid,
                    task.target_oid,
                    task.reference.as_str(),
                    task.target_reference.as_str(),
                );
                TaskState::Merging { decision: decision, job: job }
            },
            ShouldMergeResult::ExistingMergeInSameTargetReference(note) => {
                match note.merges.get(task.target_reference.as_str()) {
                    Some(merge) => {
                        let merge = merge.clone();
                        TaskState::Fetching { decision: decision, merge: merge }
                    },
                    None => TaskState::Failed(ErrorKind::InvalidNote),
                }
            },
            ShouldMergeResult::ExistingMergeInDifferentTargetReference {
                note,
                proposed_merge,
                ..
            } => {
                let mut note = note.clone();
                let merge = proposed_merge.clone();
                note.append_with_merge(proposed_merge.clone());
                self.store(decision, &note, merge, true)
            },
        }
    }

    /// Where the work stands once `event` has come.
    pub fn advance(&self, task: MergeTask, event: &Event) -> (r: MergeTask)
        requires
            self.ready(task),
        ensures
            self.ready(r),
            self.task_steps(task, *event, r),
    {
        let ghost before = task;
        let MergeTask { oid, target_oid, reference, target_reference, push, state } = task;
        let next = match (state, event) {
            (TaskState::FindingNote, Event::Note(stored)) => {
                let found = self.find_note(stored);
                match found {
                    Err(ErrorKind::NoteMissing) | Ok(_) => {
                        let a = reference.as_str();
                        let b = target_reference.as_str();
                        assert(self.namer().accepts(a, b, oid, target_oid));
                        let decision = self.should_merge(&found, oid, target_oid, a, b);
                        let start = MergeTask {
                            oid: oid,
                            target_oid: target_oid,
                            reference: reference,
                            target_reference: target_reference,
                            push: push,
                            state: TaskState::FindingNote,
                        };
                        assert(found_view(found) == spec_find_note(*stored));
                        let next = self.dispatch(&start, decision);
                        assert(self.decides(
                            spec_find_note(*stored),
                            before.oid,
                            before.target_oid,
                            before.reference@,
                            before.target_reference@,
                            decision,
                        ) && self.follows(before, decision, next));
                        return MergeTask { state: next, ..start };
                    },
                    Err(e) => TaskState::Failed(e),
                }
            },
            (TaskState::Merging { decision, job }, _) => {
                let next_job = self.merge_step(job, event);
                assert(self.merge_steps(job, *event, next_job));
                match &next_job.state {
                    MergeState::Merged(merge) => {
                        let note = match &decision {
                            ShouldMergeResult::Merge(Some(note)) => {
                                let mut note = note.clone();
                                note.append_with_merge(merge.clone());
                                note
                            },
                            _ => Note::new_with_merge(merge.clone()),
                        };
                        self.store(decision, &note, merge.clone(), false)
                    },
                    MergeState::Failed(e) => TaskState::Failed(*e),
                    _ => TaskState::Merging { decision: decision, job: next_job },
                }
            },
            (TaskState::AddingNote { decision, merge, text, fetch }, Event::Done) => {
                if fetch {
                    TaskState::Fetching { decision: decision, merge: merge }
                } else {
                    Self::publish(push, decision, merge)
                }
            },
            (TaskState::AddingNote { .. }, Event::Failed) => TaskState::Failed(ErrorKind::RefUpdate),
            (TaskState::Fetching { decision, merge }, Event::Done) => Self::publish(
                push,
                decision,
                merge,
            ),
            (TaskState::Fetching { .. }, Event::Failed) => TaskState::Failed(
                ErrorKind::RemoteUnreachable,
            ),
            (TaskState::Pushing { decision, merge }, Event::Done) => TaskState::Finished {
                merge: merge,
                decision: decision,
            },
            (TaskState::Pushing { .. }, Event::Failed) => TaskState::Failed(
                ErrorKind::RemoteUnreachable,
            ),
            (state, _) => state,
        };
        MergeTask {
            oid: oid,
            target_oid: target_oid,
            reference: reference,
            target_reference: target_reference,
            push: push,
            state: next,
        }
    }
}

impl MergeTask {
    /// The record of the merge and the decision once the work has ended, the error once it
    /// has failed, and nothing before.
    pub fn outcome(&self) -> (r: Option<Result<(&Merge, &ShouldMergeResult), ErrorKind>>)
        ensures
            match self.state {
                TaskState::Finished { merge, decision } => r matches Some(Ok(x)) && *x.0 == merge
                    && *x.1 == decision,
                TaskState::Failed(e) => r matches Some(Err(x)) && x == e,
                _ => r is None,
            },
    {
        match &self.state {
            TaskState::Finished { merge, decision } => Some(Ok((merge, decision))),
            TaskState::Failed(e) => Some(Err(*e)),
            _ => None,
        }
    }
}

impl<F: Fn(&str, &str, Oid, Oid) -> String> Merger<F> {
    /// Where the note of a commit records a merge with the commit of the target, under
    /// whatever target reference, no merge is started.
    pub proof fn lemma_existing_merge_starts_no_merge(
        &self,
        before: MergeTask,
        stored: StoredNote,
        after: MergeTask,
        key: Seq<char>,
    )
        requires
            before.state == TaskState::FindingNote,
            self.task_steps(before, Event::Note(stored), after),
            spec_find_note(stored) is Ok,
            spec_find_note(stored)->Ok_0.merges.dom().contains(key),
            merge_matches(spec_find_note(stored)->Ok_0.merges[key], before.target_oid@),
        ensures
            !(after.state is Merging),
    {
        let note = spec_find_note(stored)->Ok_0;
        let matching = matching_merges(note.merges, before.target_oid@);
        assert(matching.dom().contains(key));
    }

    /// A merge is under way only where one was started after the note was looked up, or
    /// was under way before.
    pub proof fn lemma_merge_starts_from_note(&self, before: MergeTask, event: Event, after: MergeTask)
        requires
            self.task_steps(before, event, after),
            after.state is Merging,
        ensures
            before.state is FindingNote || before.state is Merging,
    {
    }

    /// Commits, trees and merged indexes are asked for only while a merge is under way.
    pub proof fn lemma_commit_only_while_merging(&self, task: MergeTask, action: Action)
        requires
            self.task_asks(task, action),
            action is MergeCommits || action is WriteTree || action is Commit,
        ensures
            task.state is Merging,
    {
    }

    /// A merged index with an entry in conflict ends the work: no commit is made, no note
    /// is stored, nothing is pushed.
    pub proof fn lemma_conflict_fails(
        &self,
        before: MergeTask,
        entries: Vec<IndexEntry>,
        after: MergeTask,
    )
        requires
            before.state matches TaskState::Merging { job, .. } && job.state
                == MergeState::Merging,
            spec_in_conflict(entries@),
            self.task_steps(before, Event::Merged(entries), after),
        ensures
            after.state == TaskState::Failed(ErrorKind::Conflict),
    {
    }
}

} // verus!
