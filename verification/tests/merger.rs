use std::cell::Cell;

use fusionner::error::ErrorKind;
use fusionner::git::{Direction, Oid, Refspec, Remote};
use fusionner::merger::{
    git_index_entry_is_conflict, git_index_entry_stage, index_in_conflict, IndexEntry, Merge,
    MergeReferenceNamer, Merger, Merges, NamerFn, Note, ShouldMergeResult, StoredNote,
};
use fusionner::task::{Action, Event, MergeState, TaskState};

const TOPIC: &str = "78314aadffca88c53c91f8e3bea9b6d582504ba6";
const TARGET: &str = "99dbca6642980876d004188b52f01d01d48a82e0";
const OTHER: &str = "0123456789abcdef0123456789abcdef01234567";
const TREE: &str = "4b825dc642cb6eb9a060e54bf8d69288fbee4904";
const MERGED: &str = "e69de29bb2d1d6434b8b29ae775ad8c2e48c5391";

fn hex(text: &str) -> Oid {
    Oid::from_str(text).unwrap()
}

fn make_merge(oid: Oid, target_oid: Oid, target_reference: &str) -> Merge {
    Merge::new(oid, target_oid, target_reference, &[], "refs/fusionner/some-merge")
}

fn make_note(oid: Oid, target_oid: Oid, target_reference: &str) -> Note {
    let merge = make_merge(oid, target_oid, target_reference);
    Note::new_with_merge(merge)
}

fn default_merger(namespace: Option<&str>) -> Merger<NamerFn> {
    Merger::new(None, namespace, None)
}

fn configured(remote: &Remote, changes: Vec<fusionner::git::RefspecChange>) -> Remote {
    let mut refspecs = remote.refspecs.clone();
    for change in changes {
        refspecs.push(Refspec { direction: change.direction, text: Some(change.refspec) });
    }
    Remote { name: remote.name.clone(), refspecs: refspecs }
}

#[test]
fn default_note_refspecs_are_added() {
    let merger = default_merger(None);
    let remote = Remote { name: Some("origin".to_string()), refspecs: vec![] };
    let changes = merger.add_note_refspecs(&remote).unwrap();
    assert_eq!(2, changes.len());

    let remote = configured(&remote, changes);
    let refspec = "+refs/notes/fusionner:refs/notes/fusionner";
    assert!(Remote::find_matching_refspec(remote.refspecs(), Direction::Fetch, refspec).is_some());
    assert!(Remote::find_matching_refspec(remote.refspecs(), Direction::Push, refspec).is_some());
    assert!(merger.add_note_refspecs(&remote).unwrap().is_empty());
}

#[test]
fn custom_note_refspecs_are_added() {
    let merger = default_merger(Some("foobar"));
    let remote = Remote { name: Some("origin".to_string()), refspecs: vec![] };
    let changes = merger.add_note_refspecs(&remote).unwrap();
    assert_eq!(Direction::Fetch, changes[0].direction);
    assert_eq!(Direction::Push, changes[1].direction);

    let remote = configured(&remote, changes);
    let refspec = "+refs/notes/foobar:refs/notes/foobar";
    assert!(Remote::find_matching_refspec(remote.refspecs(), Direction::Fetch, refspec).is_some());
    assert!(Remote::find_matching_refspec(remote.refspecs(), Direction::Push, refspec).is_some());
    assert_eq!(vec!["+refs/notes/foobar:refs/notes/foobar".to_string()], merger.fetch_notes());
}

#[test]
fn note_refspec_is_added_in_the_missing_direction_only() {
    let merger = default_merger(None);
    let remote = Remote {
        name: Some("origin".to_string()),
        refspecs: vec![Refspec {
            direction: Direction::Fetch,
            text: Some("+refs/notes/fusionner:refs/notes/fusionner".to_string()),
        }],
    };
    let changes = merger.add_note_refspecs(&remote).unwrap();
    assert_eq!(1, changes.len());
    assert_eq!(Direction::Push, changes[0].direction);
    assert_eq!("origin", changes[0].remote_name);

    let anonymous = Remote { name: None, refspecs: vec![] };
    assert_eq!(Some(ErrorKind::ConfigInvalid), merger.add_note_refspecs(&anonymous).err());
}

#[test]
fn default_merge_refspec_covers_the_merge_references() {
    let remote = Remote { name: Some("origin".to_string()), refspecs: vec![] };
    let change = MergeReferenceNamer::<NamerFn>::add_default_refspecs(&remote).unwrap().unwrap();
    assert_eq!("+refs/fusionner/*:refs/remotes/origin/fusionner/*", change.refspec);
    assert_eq!(Direction::Push, change.direction);
    assert_eq!("origin", change.remote_name);

    let remote = configured(&remote, vec![change]);
    assert!(MergeReferenceNamer::<NamerFn>::add_default_refspecs(&remote).unwrap().is_none());

    let anonymous = Remote { name: None, refspecs: vec![] };
    assert_eq!(
        Some(ErrorKind::ConfigInvalid),
        MergeReferenceNamer::<NamerFn>::add_default_refspecs(&anonymous).err()
    );
}

#[test]
fn correct_merges_are_found_from_note() {
    let oid = hex("78314aadffca88c53c91f8e3bea9b6d582504ba6");
    let target_oid = hex("99dbca6642980876d004188b52f01d01d48a82e0");

    let mut merges = Merges::new();
    merges.insert("refs/heads/master".to_string(), make_merge(oid, target_oid, "refs/heads/master"));
    merges.insert(
        "refs/heads/develop".to_string(),
        make_merge(oid, target_oid, "refs/heads/develop"),
    );
    let note = Note::new(merges);
    let matching_merges = note.find_matching_merges(target_oid);
    assert_eq!(2, matching_merges.len());
}

#[test]
fn merges_with_other_targets_are_not_found() {
    let oid = hex(TOPIC);
    let mut merges = Merges::new();
    merges.insert("refs/heads/master".to_string(), make_merge(oid, hex(TARGET), "refs/heads/master"));
    merges.insert("refs/heads/develop".to_string(), make_merge(oid, hex(OTHER), "refs/heads/develop"));
    let mut broken = make_merge(oid, hex(TARGET), "refs/heads/broken");
    broken.target_parent_oid = "not an object id".to_string();
    merges.insert("refs/heads/broken".to_string(), broken);
    let note = Note::new(merges);

    let matching = note.find_matching_merges(hex(TARGET));
    assert_eq!(1, matching.len());
    assert_eq!("refs/heads/master", matching.key_at(0));
    assert!(matching.contains_key("refs/heads/master"));
    assert!(!matching.contains_key("refs/heads/develop"));
    assert!(note.find_matching_merges(hex(MERGED)).is_empty());
}

#[test]
fn merge_smoke_test() {
    let merger = default_merger(Some("foobar"));

    let oid = hex(TARGET);
    let branch_oid = hex(TOPIC);
    let reference = "refs/heads/branch";
    let target_reference = "refs/heads/master";

    let found = merger.find_note(&StoredNote::Missing);
    let should_merge = merger.should_merge(&found, branch_oid, oid, reference, target_reference);
    assert!(matches!(should_merge, ShouldMergeResult::Merge(None)));

    // First merge completes successfully
    let mut job = merger.merge(branch_oid, oid, reference, target_reference);
    job = merger.merge_step(job, &Event::Merged(vec![IndexEntry { flags: 0 }]));
    job = merger.merge_step(job, &Event::TreeWritten(hex(TREE)));
    job = merger.merge_step(job, &Event::Committed(hex(MERGED)));
    assert!(job.outcome().unwrap().is_ok());

    // Second merge to the same reference should not fail
    let mut job = merger.merge(branch_oid, oid, reference, target_reference);
    job = merger.merge_step(job, &Event::Merged(vec![IndexEntry { flags: 0 }]));
    job = merger.merge_step(job, &Event::TreeWritten(hex(TREE)));
    job = merger.merge_step(job, &Event::Committed(hex(MERGED)));
    let merge = job.outcome().unwrap().unwrap();

    let note = Note::new_with_merge(merge);
    // We can add the note to the repository
    let stored = StoredNote::Text(merger.add_note(&note).unwrap());

    // And we should not meed to merge again
    let found = merger.find_note(&stored);
    let should_merge = merger.should_merge(&found, branch_oid, oid, reference, target_reference);
    assert!(matches!(should_merge, ShouldMergeResult::ExistingMergeInSameTargetReference { .. }));
}

#[test]
fn merge_asks_for_each_step_in_turn() {
    let merger = default_merger(None);
    let oid = hex(TARGET);
    let branch_oid = hex(TOPIC);
    let mut job = merger.merge(branch_oid, oid, "refs/heads/branch", "refs/heads/master");
    assert_eq!(Action::MergeCommits { ours: oid, theirs: branch_oid }, job.action());
    assert!(job.outcome().is_none());

    // an event that answers no request changes nothing
    job = merger.merge_step(job, &Event::Done);
    assert_eq!(MergeState::Merging, job.state);

    job = merger.merge_step(job, &Event::Merged(vec![]));
    assert_eq!(Action::WriteTree, job.action());

    job = merger.merge_step(job, &Event::TreeWritten(hex(TREE)));
    assert_eq!(
        Action::Commit {
            reference: "refs/fusionner/branch/master".to_string(),
            message: format!(
                "Merge refs/heads/branch ({}) into refs/heads/master ({})",
                TOPIC, TARGET
            ),
            tree: hex(TREE),
            parents: vec![oid, branch_oid],
        },
        job.action()
    );

    job = merger.merge_step(job, &Event::Committed(hex(MERGED)));
    assert_eq!(Action::Nothing, job.action());
    let merge = job.outcome().unwrap().unwrap();
    assert_eq!(MERGED, merge.merge_oid);
    assert_eq!(TARGET, merge.target_parent_oid);
    assert_eq!("refs/heads/master", merge.target_parent_reference);
    assert_eq!(vec![TOPIC.to_string()], merge.parents_oid);
    assert_eq!("refs/fusionner/branch/master", merge.merge_reference);
}

#[test]
fn merge_fails_on_conflict_and_on_failed_actions() {
    let merger = default_merger(None);
    let start = || merger.merge(hex(TOPIC), hex(TARGET), "refs/heads/branch", "refs/heads/master");

    let entries = vec![IndexEntry { flags: 0 }, IndexEntry { flags: 0x2000 }];
    let job = merger.merge_step(start(), &Event::Merged(entries));
    assert_eq!(Some(Err(ErrorKind::Conflict)), job.outcome());
    assert_eq!(Action::Nothing, job.action());

    let job = merger.merge_step(start(), &Event::Failed);
    assert_eq!(Some(Err(ErrorKind::CommitLookup)), job.outcome());

    let job = merger.merge_step(start(), &Event::Merged(vec![]));
    let job = merger.merge_step(job, &Event::Failed);
    assert_eq!(Some(Err(ErrorKind::TreeWrite)), job.outcome());

    let job = merger.merge_step(start(), &Event::Merged(vec![]));
    let job = merger.merge_step(job, &Event::TreeWritten(hex(TREE)));
    let job = merger.merge_step(job, &Event::Failed);
    assert_eq!(Some(Err(ErrorKind::RefUpdate)), job.outcome());
}

#[test]
fn check_and_merge_smoke_test() {
    let merger = default_merger(Some("foobar"));

    let oid = hex(TARGET);
    let branch_oid = hex(TOPIC);
    let reference = "refs/heads/branch";
    let target_reference = "refs/heads/master";

    let mut task = merger.check_and_merge(branch_oid, oid, reference, target_reference, false);
    assert_eq!(
        Action::FindNote { notes_reference: "refs/notes/foobar".to_string(), oid: branch_oid },
        merger.action(&task)
    );
    task = merger.advance(task, &Event::Note(StoredNote::Missing));
    assert_eq!(Action::MergeCommits { ours: oid, theirs: branch_oid }, merger.action(&task));
    task = merger.advance(task, &Event::Merged(vec![IndexEntry { flags: 0 }]));
    assert_eq!(Action::WriteTree, merger.action(&task));
    task = merger.advance(task, &Event::TreeWritten(hex(TREE)));
    assert!(matches!(merger.action(&task), Action::Commit { .. }));
    task = merger.advance(task, &Event::Committed(hex(MERGED)));
    let text = match merger.action(&task) {
        Action::AddNote { notes_reference, oid, text } => {
            assert_eq!("refs/notes/foobar", notes_reference);
            assert_eq!(branch_oid, oid);
            text
        }
        other => panic!("unexpected action {:?}", other),
    };
    task = merger.advance(task, &Event::Done);
    assert_eq!(Action::Nothing, merger.action(&task));

    let (merge, should_merge) = task.outcome().unwrap().unwrap();
    assert!(matches!(should_merge, ShouldMergeResult::Merge(None)));
    assert_eq!(merge.target_parent_oid, format!("{}", oid.to_string()));
    assert_eq!(merge.target_parent_reference, target_reference);
    assert_eq!(merge.parents_oid, vec![format!("{}", branch_oid.to_string())]);

    let merge_oid = Oid::from_str(&merge.merge_oid).unwrap();
    assert_eq!(hex(MERGED), merge_oid);

    // the note that was stored records the merge
    let note = Note::decode(&text).unwrap();
    assert_eq!(1, note.merges.len());
    assert_eq!(Some(merge), note.merges.get(target_reference));
}

#[test]
fn check_and_merge_pushes_notes_and_merge_reference() {
    let merger = default_merger(None);
    let mut task =
        merger.check_and_merge(hex(TOPIC), hex(TARGET), "refs/heads/branch", "refs/heads/master", true);
    task = merger.advance(task, &Event::Note(StoredNote::Missing));
    task = merger.advance(task, &Event::Merged(vec![]));
    task = merger.advance(task, &Event::TreeWritten(hex(TREE)));
    task = merger.advance(task, &Event::Committed(hex(MERGED)));
    task = merger.advance(task, &Event::Done);
    assert_eq!(
        Action::Push {
            refspecs: vec![
                "+refs/notes/fusionner".to_string(),
                "+refs/fusionner/branch/master".to_string()
            ]
        },
        merger.action(&task)
    );
    assert!(task.outcome().is_none());
    task = merger.advance(task, &Event::Done);
    assert!(matches!(task.state, TaskState::Finished { .. }));
}

#[test]
fn check_and_merge_appends_to_the_note_when_the_target_advanced() {
    let merger = default_merger(None);
    let target_reference = "refs/heads/master";
    let old = Merge::new(
        hex(OTHER),
        hex(OTHER),
        target_reference,
        &[hex(TOPIC)],
        "refs/fusionner/branch/master",
    );
    let mut note = Note::new_with_merge(old);
    note.append_with_merge(make_merge(hex(OTHER), hex(OTHER), "refs/heads/develop"));
    let stored = StoredNote::Text(note.encode().unwrap());

    let mut task =
        merger.check_and_merge(hex(TOPIC), hex(TARGET), "refs/heads/branch", target_reference, false);
    task = merger.advance(task, &Event::Note(stored));
    assert!(matches!(task.state, TaskState::Merging { .. }));
    task = merger.advance(task, &Event::Merged(vec![]));
    task = merger.advance(task, &Event::TreeWritten(hex(TREE)));
    task = merger.advance(task, &Event::Committed(hex(MERGED)));
    let text = match merger.action(&task) {
        Action::AddNote { text, .. } => text,
        other => panic!("unexpected action {:?}", other),
    };
    let updated = Note::decode(&text).unwrap();
    // exactly one record under the target reference, now for the new commit of the target
    assert_eq!(2, updated.merges.len());
    let record = updated.merges.get(target_reference).unwrap();
    assert_eq!(MERGED, record.merge_oid);
    assert_eq!(TARGET, record.target_parent_oid);
    assert!(updated.merges.contains_key("refs/heads/develop"));
}

#[test]
fn check_and_merge_fetches_an_up_to_date_merge() {
    let merger = default_merger(None);
    let target_reference = "refs/heads/master";
    let recorded = Merge::new(
        hex(MERGED),
        hex(TARGET),
        target_reference,
        &[hex(TOPIC)],
        "refs/fusionner/branch/master",
    );
    let stored = StoredNote::Text(Note::new_with_merge(recorded.clone()).encode().unwrap());

    let mut task =
        merger.check_and_merge(hex(TOPIC), hex(TARGET), "refs/heads/branch", target_reference, true);
    task = merger.advance(task, &Event::Note(stored));
    assert_eq!(
        Action::Fetch { refspecs: vec!["+refs/fusionner/branch/master".to_string()] },
        merger.action(&task)
    );
    task = merger.advance(task, &Event::Done);
    assert_eq!(
        Action::Push { refspecs: vec!["+refs/notes/fusionner".to_string()] },
        merger.action(&task)
    );
    task = merger.advance(task, &Event::Done);
    let (merge, should_merge) = task.outcome().unwrap().unwrap();
    assert_eq!(&recorded, merge);
    assert!(matches!(should_merge, ShouldMergeResult::ExistingMergeInSameTargetReference(_)));
}

#[test]
fn check_and_merge_records_an_alias_without_a_commit() {
    let merger = default_merger(None);
    let recorded = Merge::new(
        hex(MERGED),
        hex(TARGET),
        "refs/heads/master",
        &[hex(TOPIC)],
        "refs/fusionner/branch/master",
    );
    let stored = StoredNote::Text(Note::new_with_merge(recorded).encode().unwrap());

    let mut task =
        merger.check_and_merge(hex(TOPIC), hex(TARGET), "refs/heads/branch", "refs/heads/main", true);
    task = merger.advance(task, &Event::Note(stored));
    let text = match merger.action(&task) {
        Action::AddNote { text, .. } => text,
        other => panic!("unexpected action {:?}", other),
    };
    let updated = Note::decode(&text).unwrap();
    assert_eq!(2, updated.merges.len());
    assert_eq!(MERGED, updated.merges.get("refs/heads/master").unwrap().merge_oid);
    assert_eq!(MERGED, updated.merges.get("refs/heads/main").unwrap().merge_oid);

    task = merger.advance(task, &Event::Done);
    assert_eq!(
        Action::Fetch { refspecs: vec!["+refs/fusionner/branch/main".to_string()] },
        merger.action(&task)
    );
    task = merger.advance(task, &Event::Done);
    assert_eq!(
        Action::Push {
            refspecs: vec![
                "+refs/notes/fusionner".to_string(),
                "+refs/fusionner/branch/main".to_string()
            ]
        },
        merger.action(&task)
    );
    task = merger.advance(task, &Event::Done);
    let (merge, should_merge) = task.outcome().unwrap().unwrap();
    assert_eq!("refs/heads/main", merge.target_parent_reference);
    assert_eq!("refs/fusionner/branch/main", merge.merge_reference);
    assert!(matches!(
        should_merge,
        ShouldMergeResult::ExistingMergeInDifferentTargetReference { .. }
    ));
}

#[test]
fn check_and_merge_fails_without_note_or_push_on_conflict() {
    let merger = default_merger(None);
    let mut task =
        merger.check_and_merge(hex(TOPIC), hex(TARGET), "refs/heads/x", "refs/heads/master", true);
    task = merger.advance(task, &Event::Note(StoredNote::Missing));
    task = merger.advance(task, &Event::Merged(vec![IndexEntry { flags: 0x1000 }]));
    assert_eq!(Action::Nothing, merger.action(&task));
    assert_eq!(Some(ErrorKind::Conflict), task.outcome().unwrap().err());
}

#[test]
fn check_and_merge_fails_on_unreadable_notes_and_failed_actions() {
    let merger = default_merger(None);
    let start =
        || merger.check_and_merge(hex(TOPIC), hex(TARGET), "refs/heads/x", "refs/heads/master", true);

    let task = merger.advance(start(), &Event::Note(StoredNote::Unreadable));
    assert_eq!(Some(ErrorKind::InvalidNote), task.outcome().unwrap().err());

    let task = merger.advance(start(), &Event::Note(StoredNote::Text("merges = 1".to_string())));
    assert_eq!(Some(ErrorKind::InvalidNote), task.outcome().unwrap().err());

    let recorded =
        Merge::new(hex(MERGED), hex(TARGET), "refs/heads/master", &[hex(TOPIC)], "refs/fusionner/x/master");
    let stored = StoredNote::Text(Note::new_with_merge(recorded).encode().unwrap());
    let task = merger.advance(start(), &Event::Note(stored.clone()));
    let task = merger.advance(task, &Event::Failed);
    assert_eq!(Some(ErrorKind::RemoteUnreachable), task.outcome().unwrap().err());

    let task = merger.advance(start(), &Event::Note(stored));
    let task = merger.advance(task, &Event::Done);
    let task = merger.advance(task, &Event::Failed);
    assert_eq!(Some(ErrorKind::RemoteUnreachable), task.outcome().unwrap().err());

    let mut task = merger.advance(start(), &Event::Note(StoredNote::Missing));
    task = merger.advance(task, &Event::Merged(vec![]));
    task = merger.advance(task, &Event::TreeWritten(hex(TREE)));
    task = merger.advance(task, &Event::Committed(hex(MERGED)));
    task = merger.advance(task, &Event::Failed);
    assert_eq!(Some(ErrorKind::RefUpdate), task.outcome().unwrap().err());
}

#[test]
fn notes_are_added_and_retrieved() {
    let merger = default_merger(Some("foobar"));
    let oid = hex(TARGET);

    let note = make_note(oid, oid, "refs/heads/master");
    let stored = StoredNote::Text(merger.add_note(&note).unwrap());

    let found_note = merger.find_note(&stored).unwrap();

    assert_eq!(note, found_note);
}

#[test]
fn missing_and_unreadable_notes_are_told_apart() {
    let merger = default_merger(None);
    assert_eq!(Err(ErrorKind::NoteMissing), merger.find_note(&StoredNote::Missing));
    assert_eq!(Err(ErrorKind::InvalidNote), merger.find_note(&StoredNote::Unreadable));
    assert_eq!(
        Err(ErrorKind::InvalidNote),
        merger.find_note(&StoredNote::Text("not = [toml".to_string()))
    );
}

#[test]
fn should_merge_on_missing_note() {
    let merger = default_merger(Some("foobar"));

    let oid = hex(TARGET);
    let branch_oid = hex(TOPIC);
    let reference = "refs/heads/branch";
    let target_reference = "refs/heads/master";

    let found = merger.find_note(&StoredNote::Missing);
    let should_merge = merger.should_merge(&found, branch_oid, oid, reference, target_reference);
    assert!(matches!(should_merge, ShouldMergeResult::Merge(None)));
    assert_eq!("Merge required", should_merge.to_string());
}

#[test]
fn should_not_merge_on_equal_target_oid_for_same_target_reference() {
    let merger = default_merger(Some("foobar"));

    let oid = hex(TARGET);
    let branch_oid = hex(TOPIC);
    let reference = "refs/heads/branch";
    let target_reference = "refs/heads/master";

    let note = make_note(branch_oid, oid, target_reference);
    let stored = StoredNote::Text(merger.add_note(&note).unwrap());

    let found = merger.find_note(&stored);
    let should_merge = merger.should_merge(&found, branch_oid, oid, reference, target_reference);
    assert!(matches!(should_merge, ShouldMergeResult::ExistingMergeInSameTargetReference { .. }));
    assert_eq!("An up to date merge exists", should_merge.to_string());
}

#[test]
fn should_merge_on_unequal_target_oid_for_same_target_reference() {
    let merger = default_merger(Some("foobar"));

    let oid = hex(TARGET);
    let branch_oid = hex(TOPIC);
    let reference = "refs/heads/branch";
    let target_reference = "refs/heads/master";

    // the note is stored for the old commit of the branch
    let note = make_note(branch_oid, oid, target_reference);
    let _stored = StoredNote::Text(merger.add_note(&note).unwrap());

    let new_branch_oid = hex(OTHER);

    assert!(branch_oid != new_branch_oid);

    // the new commit of the branch has no note
    let found = merger.find_note(&StoredNote::Missing);
    let should_merge = merger.should_merge(&found, new_branch_oid, oid, reference, target_reference);
    assert!(matches!(should_merge, ShouldMergeResult::Merge(None)));
}

#[test]
fn should_merge_when_the_target_has_advanced() {
    let merger = default_merger(None);
    let note = make_note(hex(TOPIC), hex(TARGET), "refs/heads/master");
    let found = Ok(note.clone());
    let should_merge =
        merger.should_merge(&found, hex(TOPIC), hex(OTHER), "refs/heads/branch", "refs/heads/master");
    assert_eq!(ShouldMergeResult::Merge(Some(note)), should_merge);
}

#[test]
fn should_not_merge_on_equal_target_oid_for_different_target_reference() {
    let merger = default_merger(Some("foobar"));

    let oid = hex(TARGET);
    let branch_oid = hex(TOPIC);
    let reference = "refs/heads/branch";
    let target_reference = "refs/heads/master";

    let note = make_note(branch_oid, oid, target_reference);
    let stored = StoredNote::Text(merger.add_note(&note).unwrap());

    let new_target_reference = "refs/heads/develop";
    let found = merger.find_note(&stored);
    let should_merge =
        merger.should_merge(&found, branch_oid, oid, reference, new_target_reference);
    assert_eq!("A merge under another target reference exists", should_merge.to_string());
    match should_merge {
        ShouldMergeResult::ExistingMergeInDifferentTargetReference {
            note: found_note,
            merges,
            proposed_merge,
        } => {
            assert_eq!(note, found_note);
            assert_eq!(vec![make_merge(branch_oid, oid, target_reference)], merges);
            assert_eq!(
                Merge {
                    merge_oid: TOPIC.to_string(),
                    target_parent_oid: TARGET.to_string(),
                    target_parent_reference: "refs/heads/develop".to_string(),
                    parents_oid: vec![TOPIC.to_string()],
                    merge_reference: "refs/fusionner/branch/develop".to_string(),
                },
                proposed_merge
            );
        }
        other => panic!("unexpected decision {:?}", other),
    }
}

#[test]
fn notes_only_has_latest_merge_for_target_reference() {
    let oid = hex(TARGET);
    let branch_oid = hex(TOPIC);
    let target_reference = "refs/heads/master";

    let mut note = make_note(branch_oid, oid, target_reference);

    let new_target_oid = hex(OTHER);
    let merge = make_merge(oid, new_target_oid, target_reference);
    let old_merge = note.append_with_merge(merge.clone()).unwrap();

    assert_eq!(format!("{}", oid.to_string()), old_merge.target_parent_oid);
    assert_eq!(1, note.merges.len());
    assert_eq!(Some(&merge), note.merges.get(target_reference));
}

#[test]
fn appending_under_another_target_reference_keeps_the_others() {
    let mut note = make_note(hex(TOPIC), hex(TARGET), "refs/heads/master");
    let first = note.merges.get("refs/heads/master").unwrap().clone();
    let second = make_merge(hex(TOPIC), hex(OTHER), "refs/heads/develop");
    assert!(note.append_with_merge(second.clone()).is_none());
    assert_eq!(2, note.merges.len());
    assert_eq!(Some(&first), note.merges.get("refs/heads/master"));
    assert_eq!(Some(&second), note.merges.get("refs/heads/develop"));
    assert_eq!(1, note._version);
    assert_eq!("fusionner <https://github.com/lawliet89/fusionner>", note._note_origin);
}

#[test]
fn correct_default_merge_reference_is_returned() {
    let oid = hex(TARGET);

    let expected = "refs/fusionner/some-branch/master";
    let actual = MergeReferenceNamer::<NamerFn>::Default.resolve(
        "refs/heads/some-branch",
        "refs/heads/master",
        oid,
        oid,
    );
    assert_eq!(expected, actual);
}

#[test]
fn default_merge_reference_takes_the_last_segments() {
    let oid = hex(TARGET);
    let namer = MergeReferenceNamer::<NamerFn>::Default;
    // two references with the same last segment share a merge reference
    assert_eq!("refs/fusionner/x/master", namer.resolve("refs/heads/a/x", "refs/heads/master", oid, oid));
    assert_eq!("refs/fusionner/x/master", namer.resolve("refs/heads/b/x", "refs/heads/master", oid, oid));
    assert_eq!("refs/fusionner/plain/", namer.resolve("plain", "refs/heads/", oid, oid));
    assert_eq!("", MergeReferenceNamer::<NamerFn>::reference_last_item(""));
    assert_eq!("refs/fusionner", MergeReferenceNamer::<NamerFn>::default_reference_base());
}

#[test]
fn custom_merge_reference_namer_is_invoked() {
    let hit = Cell::new(false);

    {
        let namer = MergeReferenceNamer::Custom(
            |reference: &str, target_reference: &str, _oid: Oid, _target_oid: Oid| {
                hit.set(true);

                format!("{};{}", reference, target_reference)
            },
        );

        let merger = Merger::new(None, Some("foobar"), Some(namer));

        let oid = hex(TARGET);
        let branch_oid = hex(TOPIC);
        let reference = "refs/heads/branch";
        let target_reference = "refs/heads/master";

        let mut job = merger.merge(branch_oid, oid, reference, target_reference);
        job = merger.merge_step(job, &Event::Merged(vec![]));
        job = merger.merge_step(job, &Event::TreeWritten(hex(TREE)));
        job = merger.merge_step(job, &Event::Committed(hex(MERGED)));
        let merge = job.outcome().unwrap().unwrap();

        assert_eq!("refs/heads/branch;refs/heads/master", merge.merge_reference);
    }
    assert!(hit.get());
}

#[test]
fn merger_defaults() {
    let merger = default_merger(None);
    assert_eq!("origin", merger.remote_name());
    assert_eq!("refs/notes/fusionner", merger.notes_reference());
    assert_eq!("+refs/notes/fusionner:refs/notes/fusionner", merger.note_refspec());
    let merger: Merger<NamerFn> = Merger::new(Some("upstream"), Some("ns"), None);
    assert_eq!("upstream", merger.remote_name());
    assert_eq!("refs/notes/ns", merger.notes_reference());
}

#[test]
fn merge_commit_message_names_both_sides() {
    assert_eq!(
        format!("Merge refs/heads/topic ({}) into refs/heads/master ({})", TOPIC, TARGET),
        Merger::<NamerFn>::merge_commit_message(
            hex(TOPIC),
            hex(TARGET),
            "refs/heads/topic",
            "refs/heads/master"
        )
    );
}

#[test]
fn index_entries_in_conflict_are_found_by_their_stage() {
    assert_eq!(0, git_index_entry_stage(&IndexEntry { flags: 0x0fff }));
    assert_eq!(1, git_index_entry_stage(&IndexEntry { flags: 0x1000 }));
    assert_eq!(2, git_index_entry_stage(&IndexEntry { flags: 0x2abc }));
    assert_eq!(3, git_index_entry_stage(&IndexEntry { flags: 0xffff }));
    assert!(!git_index_entry_is_conflict(&IndexEntry { flags: 0xc000 }));
    assert!(git_index_entry_is_conflict(&IndexEntry { flags: 0x3000 }));
    assert!(!index_in_conflict(&[]));
    assert!(!index_in_conflict(&[IndexEntry { flags: 0 }, IndexEntry { flags: 0x8fff }]));
    assert!(index_in_conflict(&[IndexEntry { flags: 0 }, IndexEntry { flags: 0x1000 }]));
}

#[test]
fn should_merge_gives_the_same_for_the_same_note() {
    let merger = default_merger(None);
    let note = make_note(hex(TOPIC), hex(TARGET), "refs/heads/master");
    let cases: Vec<(Result<Note, ErrorKind>, Oid, &str)> = vec![
        (Err(ErrorKind::NoteMissing), hex(TARGET), "refs/heads/master"),
        (Ok(note.clone()), hex(OTHER), "refs/heads/master"),
        (Ok(note.clone()), hex(TARGET), "refs/heads/master"),
        (Ok(note.clone()), hex(TARGET), "refs/heads/develop"),
    ];
    for (found, target_oid, target_reference) in cases.iter() {
        let first =
            merger.should_merge(found, hex(TOPIC), *target_oid, "refs/heads/branch", target_reference);
        let second =
            merger.should_merge(found, hex(TOPIC), *target_oid, "refs/heads/branch", target_reference);
        assert_eq!(first, second);
    }
}
