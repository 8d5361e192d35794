//! One round of the program: from the heads that the remote advertises to the work of the
//! round.

use crate::error::ErrorKind;
use crate::git::RemoteHead;
use crate::merges::strings_view;
use crate::oid::Oid;
use crate::refspec::{spec_as_forced, RefspecStr};
use crate::text::{first_where, lemma_first_where_is, str_eq};
use crate::watch::{is_watched, watched, WatchReferences};
use vstd::prelude::*;

verus! {

/// How much of what happens is logged.
#[derive(Clone, Copy, Debug, PartialEq, Eq, Structural)]
pub enum LogLevel {
    Trace,
    Debug,
    Info,
    Warn,
    Error,
}

/// The level that a name stands for; no name stands for `info`.
pub open spec fn spec_log_level(name: Option<Seq<char>>) -> Option<LogLevel> {
    if name is None || name == Some("info"@) {
        Some(LogLevel::Info)
    } else if name == Some("trace"@) {
        Some(LogLevel::Trace)
    } else if name == Some("debug"@) {
        Some(LogLevel::Debug)
    } else if name == Some("warn"@) {
        Some(LogLevel::Warn)
    } else if name == Some("error"@) {
        Some(LogLevel::Error)
    } else {
        None
    }
}

/// The string slice of a string that may be absent.
pub fn to_option_str(opt: &Option<String>) -> (r: Option<&str>)
    ensures
        r is Some <==> opt is Some,
        r matches Some(s) ==> s@ == opt->Some_0@,
{
    match opt {
        Some(s) => Some(s.as_str()),
        None => None,
    }
}

/// The level that a name stands for: one of `trace`, `debug`, `info`, `warn` and `error`;
/// no name stands for `info`, any other name for nothing.
pub fn resolve_log_level(log_level: &Option<String>) -> (r: Option<LogLevel>)
    ensures
        r == spec_log_level(
            match log_level {
                Some(s) => Some(s@),
                None => None,
            },
        ),
{
    proof {
        reveal_strlit("info");
        reveal_strlit("trace");
        reveal_strlit("debug");
        reveal_strlit("warn");
        reveal_strlit("error");
        assert("info"@[0] == 'i' && "warn"@[0] == 'w');
        assert("trace"@[0] == 't' && "debug"@[0] == 'd' && "error"@[0] == 'e');
    }
    match to_option_str(log_level) {
        None => Some(LogLevel::Info),
        Some(name) => {
            if str_eq(name, "trace") {
                Some(LogLevel::Trace)
            } else if str_eq(name, "debug") {
                Some(LogLevel::Debug)
            } else if str_eq(name, "warn") {
                Some(LogLevel::Warn)
            } else if str_eq(name, "error") {
                Some(LogLevel::Error)
            } else if str_eq(name, "info") {
                Some(LogLevel::Info)
            } else {
                None
            }
        },
    }
}

/// The object id that the remote advertises for a reference: that of the first head with
/// this name.
pub open spec fn spec_resolve_oid(reference: Seq<char>, heads: Seq<RemoteHead>) -> Option<Oid> {
    let i = first_where(heads, |h: RemoteHead| h.name@ == reference);
    if i < heads.len() {
        Some(heads[i].oid)
    } else {
        None
    }
}

/// Each name once, in the order in which the names first come, with the object id that the
/// remote advertises for it.
pub open spec fn spec_resolve_oids(names: Seq<Seq<char>>, heads: Seq<RemoteHead>) -> Seq<
    (Seq<char>, Option<Oid>),
>
    decreases names.len(),
{
    if names.len() == 0 {
        Seq::empty()
    } else if names.drop_last().contains(names.last()) {
        spec_resolve_oids(names.drop_last(), heads)
    } else {
        spec_resolve_oids(names.drop_last(), heads).push(
            (names.last(), spec_resolve_oid(names.last(), heads)),
        )
    }
}

/// The names that have an object id, with it.
pub open spec fn spec_resolved(pairs: Seq<(Seq<char>, Option<Oid>)>) -> Seq<(Seq<char>, Oid)>
    decreases pairs.len(),
{
    if pairs.len() == 0 {
        Seq::empty()
    } else {
        match pairs.last().1 {
            Some(oid) => spec_resolved(pairs.drop_last()).push((pairs.last().0, oid)),
            None => spec_resolved(pairs.drop_last()),
        }
    }
}

/// What each pair of a name and an object id, or none, holds.
pub open spec fn pairs_view(v: Seq<(String, Option<Oid>)>) -> Seq<(Seq<char>, Option<Oid>)> {
    Seq::new(v.len(), |i: int| (v[i].0@, v[i].1))
}

/// What each pair of a name and an object id holds.
pub open spec fn topics_view(v: Seq<(String, Oid)>) -> Seq<(Seq<char>, Oid)> {
    Seq::new(v.len(), |i: int| (v[i].0@, v[i].1))
}

/// The characters of each string slice of a list.
pub open spec fn strs_view(v: Seq<&str>) -> Seq<Seq<char>> {
    Seq::new(v.len(), |i: int| v[i]@)
}

/// The object id that the remote advertises for a reference.
pub fn resolve_oid(reference: &str, remote_ls: &[RemoteHead]) -> (r: Option<Oid>)
    ensures
        r == spec_resolve_oid(reference@, remote_ls@),
{
    let ghost p = |h: RemoteHead| h.name@ == reference@;
    let mut i: usize = 0;
    while i < remote_ls.len()
        invariant
            i <= remote_ls@.len(),
            p == |h: RemoteHead| h.name@ == reference@,
            forall|j: int| 0 <= j < i ==> !p(#[trigger] remote_ls@[j]),
        decreases remote_ls@.len() - i,
    {
        if str_eq(remote_ls[i].name.as_str(), reference) {
            proof {
                assert(p(remote_ls@[i as int]));
                lemma_first_where_is(remote_ls@, p, i as int);
            }
            return Some(remote_ls[i].oid);
        }
        i += 1;
    }
    proof {
        lemma_first_where_is(remote_ls@, p, remote_ls@.len() as int);
    }
    None
}

/// Whether the name at a position stands at an earlier position too.
fn occurs_before(references: &[&str], i: usize) -> (r: bool)
    requires
        i < references@.len(),
    ensures
        r == strs_view(references@).take(i as int).contains(references@[i as int]@),
{
    let ghost names = strs_view(references@);
    let mut j: usize = 0;
    while j < i
        invariant
            j <= i,
            i < references@.len(),
            names == strs_view(references@),
            forall|k: int| 0 <= k < j ==> names[k] != names[i as int],
        decreases i - j,
    {
        if str_eq(references[j], references[i]) {
            assert(names.take(i as int)[j as int] == names[i as int]);
            return true;
        }
        j += 1;
    }
    proof {
        if names.take(i as int).contains(names[i as int]) {
            let k = choose|k: int|
                0 <= k < names.take(i as int).len() && names.take(i as int)[k] == names[i as int];
            assert(names[k] == names[i as int]);
        }
    }
    false
}

/// Each reference once, in the order in which the references first come, with the object
/// id that the remote advertises for it.
pub fn resolve_oids(references: &[&str], remote_ls: &[RemoteHead]) -> (r: Vec<
    (String, Option<Oid>),
>)
    ensures
        pairs_view(r@) == spec_resolve_oids(strs_view(references@), remote_ls@),
{
    let ghost names = strs_view(references@);
    let mut out: Vec<(String, Option<Oid>)> = Vec::new();
    let mut i: usize = 0;
    proof {
        assert(names.take(0) =~= Seq::<Seq<char>>::empty());
        assert(pairs_view(out@) =~= spec_resolve_oids(names.take(0), remote_ls@));
    }
    while i < references.len()
        invariant
            i <= references@.len(),
            names == strs_view(references@),
            pairs_view(out@) == spec_resolve_oids(names.take(i as int), remote_ls@),
        decreases references@.len() - i,
    {
        let ghost before = pairs_view(out@);
        proof {
            assert(names.take(i + 1).drop_last() =~= names.take(i as int));
            assert(names.take(i + 1).last() == names[i as int]);
        }
        if !occurs_before(references, i) {
            let oid = resolve_oid(references[i], remote_ls);
            out.push((references[i].to_string(), oid));
            assert(pairs_view(out@) =~= before.push((names[i as int], oid)));
        }
        i += 1;
    }
    proof {
        assert(names.take(references@.len() as int) =~= names);
    }
    out
}

/// The watched references of a round with their commits, and the commit of the target.
#[derive(Clone, Debug, PartialEq, Eq)]
pub struct Topics {
    /// The watched references that have a commit at the remote, each once, with that
    /// commit.
    pub oids: Vec<(String, Oid)>,
    /// The commit of the target reference.
    pub target_oid: Oid,
}

/// What a round does once the remote has advertised its heads.
#[derive(Debug, PartialEq, Eq)]
pub struct Tick {
    /// The references to fetch: the watched ones, then the target reference.
    pub fetch_refs: Vec<String>,
    /// The refspecs to fetch: the forced form of each of these references.
    pub fetch_refspecs: Vec<String>,
    /// What to work on after the fetch, or why the round ends there.
    pub topics: Result<Topics, ErrorKind>,
}

/// What a round works on after the fetch: the watched references that have a commit at the
/// remote, each to be merged into the commit of the target reference. The target reference
/// is worked on only where it is watched itself. The round ends where none of the watched
/// references has a commit at the remote, and where the target reference has none.
pub open spec fn spec_topics(
    watched: Seq<Seq<char>>,
    heads: Seq<RemoteHead>,
    target_ref: Seq<char>,
) -> Result<(Seq<(Seq<char>, Oid)>, Oid), ErrorKind> {
    let resolved = spec_resolved(spec_resolve_oids(watched, heads));
    if resolved.len() == 0 {
        Err(ErrorKind::OidUnresolved)
    } else if spec_resolve_oid(target_ref, heads) is None {
        Err(ErrorKind::UnknownTargetRef)
    } else {
        Ok((resolved, spec_resolve_oid(target_ref, heads)->Some_0))
    }
}

/// Whether some reference that a head stands for is watched.
pub open spec fn some_watched(watch_refs: WatchReferences, heads: Seq<RemoteHead>) -> bool {
    exists|k: Seq<char>| #[trigger] is_watched(watch_refs.exacts(), watch_refs.patterns(), heads, k)
}

/// What a round does once the remote has advertised `remote_ls`. The round fails where
/// the remote advertises nothing, and where none of the advertised references is watched.
/// Else the watched references and the target reference are fetched, forced; then each
/// watched reference that has a commit at the remote is worked on.
pub fn process_loop(remote_ls: &[RemoteHead], watch_refs: &WatchReferences, target_ref: &str) -> (r:
    Result<Tick, ErrorKind>)
    ensures
        remote_ls@.len() == 0 ==> r == Err::<Tick, ErrorKind>(ErrorKind::EmptyAdvertisement),
        remote_ls@.len() > 0 && !some_watched(*watch_refs, remote_ls@) ==> r == Err::<
            Tick,
            ErrorKind,
        >(ErrorKind::NoWatchMatch),
        remote_ls@.len() > 0 && some_watched(*watch_refs, remote_ls@) ==> r is Ok,
        r matches Ok(tick) ==> {
            let names = strings_view(tick.fetch_refs@);
            &&& names == watched(watch_refs.exacts(), watch_refs.patterns(), remote_ls@).push(
                target_ref@,
            )
            &&& names.drop_last().no_duplicates()
            &&& forall|k: Seq<char>| #[trigger]
                names.drop_last().contains(k) <==> is_watched(
                    watch_refs.exacts(),
                    watch_refs.patterns(),
                    remote_ls@,
                    k,
                )
            &&& tick.fetch_refspecs@.len() == names.len()
            &&& forall|i: int|
                0 <= i < names.len() ==> (#[trigger] tick.fetch_refspecs@[i])@ == spec_as_forced(
                    names[i],
                )
            &&& match spec_topics(names.drop_last(), remote_ls@, target_ref@) {
                Ok((oids, target_oid)) => tick.topics matches Ok(t) && topics_view(t.oids@)
                    == oids && t.target_oid == target_oid,
                Err(e) => tick.topics == Err::<Topics, ErrorKind>(e),
            }
        },
{
    if remote_ls.len() == 0 {
        return Err(ErrorKind::EmptyAdvertisement);
    }
    let watch_heads = watch_refs.resolve_watch_refs(remote_ls);
    let ghost watched = strings_view(watch_heads@);
    if watch_heads.len() == 0 {
        proof {
            if some_watched(*watch_refs, remote_ls@) {
                let k = choose|k: Seq<char>| #[trigger]
                    is_watched(watch_refs.exacts(), watch_refs.patterns(), remote_ls@, k);
                assert(watched.contains(k));
            }
        }
        return Err(ErrorKind::NoWatchMatch);
    }
    proof {
        assert(watched.contains(watched[0]));
        assert(some_watched(*watch_refs, remote_ls@));
    }
    let mut fetch_refs = watch_heads;
    fetch_refs.push(target_ref.to_string());
    let ghost names = strings_view(fetch_refs@);
    assert(names =~= watched.push(target_ref@));
    assert(names.drop_last() =~= watched);
    let count = fetch_refs.len() - 1;
    let mut watch_strs: Vec<&str> = Vec::new();
    let mut fetch_refspecs: Vec<String> = Vec::new();
    let mut i: usize = 0;
    while i < fetch_refs.len()
        invariant
            i <= fetch_refs@.len(),
            count == fetch_refs@.len() - 1,
            names == strings_view(fetch_refs@),
            watch_strs@.len() == (if i <= count {
                i
            } else {
                count
            }),
            fetch_refspecs@.len() == i,
            forall|j: int| 0 <= j < watch_strs@.len() ==> (#[trigger] watch_strs@[j])@ == names[j],
            forall|j: int|
                0 <= j < i ==> (#[trigger] fetch_refspecs@[j])@ == spec_as_forced(names[j]),
        decreases fetch_refs@.len() - i,
    {
        if i < count {
            watch_strs.push(fetch_refs[i].as_str());
        }
        fetch_refspecs.push(RefspecStr::as_forced(fetch_refs[i].as_str()));
        i += 1;
    }
    assert(strs_view(watch_strs@) =~= names.drop_last());
    let pairs = resolve_oids(watch_strs.as_slice(), remote_ls);
    let mut oids: Vec<(String, Oid)> = Vec::new();
    let mut p: usize = 0;
    proof {
        assert(pairs_view(pairs@).take(0) =~= Seq::<(Seq<char>, Option<Oid>)>::empty());
        assert(topics_view(oids@) =~= spec_resolved(pairs_view(pairs@).take(0)));
    }
    while p < pairs.len()
        invariant
            p <= pairs@.len(),
            topics_view(oids@) == spec_resolved(pairs_view(pairs@).take(p as int)),
        decreases pairs@.len() - p,
    {
        let ghost before = topics_view(oids@);
        let ghost all = pairs_view(pairs@);
        proof {
            assert(all.take(p + 1).drop_last() =~= all.take(p as int));
            assert(all.take(p + 1).last() == all[p as int]);
        }
        match pairs[p].1 {
            Some(oid) => {
                oids.push((pairs[p].0.clone(), oid));
                assert(topics_view(oids@) =~= before.push((all[p as int].0, oid)));
            },
            None => {},
        }
        p += 1;
    }
    proof {
        assert(pairs_view(pairs@).take(pairs@.len() as int) =~= pairs_view(pairs@));
    }
    let topics = if oids.len() == 0 {
        Err(ErrorKind::OidUnresolved)
    } else {
        match resolve_oid(target_ref, remote_ls) {
            Some(target_oid) => Ok(Topics { oids: oids, target_oid: target_oid }),
            None => Err(ErrorKind::UnknownTargetRef),
        }
    };
    Ok(Tick { fetch_refs: fetch_refs, fetch_refspecs: fetch_refspecs, topics: topics })
}

/// Each name of the list that `spec_resolve_oids` gives is one of the names, and stands
/// with the object id that the remote advertises for it.
pub proof fn lemma_resolve_oids_names(names: Seq<Seq<char>>, heads: Seq<RemoteHead>, j: int)
    requires
        0 <= j < spec_resolve_oids(names, heads).len(),
    ensures
        names.contains(spec_resolve_oids(names, heads)[j].0),
        spec_resolve_oids(names, heads)[j].1 == spec_resolve_oid(
            spec_resolve_oids(names, heads)[j].0,
            heads,
        ),
    decreases names.len(),
{
    let rest = spec_resolve_oids(names.drop_last(), heads);
    if j < rest.len() {
        lemma_resolve_oids_names(names.drop_last(), heads, j);
        let k = choose|k: int|
            0 <= k < names.drop_last().len() && names.drop_last()[k] == rest[j].0;
        assert(names[k] == rest[j].0);
    } else {
        assert(names[names.len() - 1] == names.last());
    }
}

/// Each name of the list that `spec_resolved` gives stands in the pairs, with its object id.
pub proof fn lemma_resolved_pairs(pairs: Seq<(Seq<char>, Option<Oid>)>, i: int)
    requires
        0 <= i < spec_resolved(pairs).len(),
    ensures
        exists|j: int|
            0 <= j < pairs.len() && #[trigger] pairs[j] == (
                spec_resolved(pairs)[i].0,
                Some(spec_resolved(pairs)[i].1),
            ),
    decreases pairs.len(),
{
    let rest = spec_resolved(pairs.drop_last());
    if i < rest.len() {
        lemma_resolved_pairs(pairs.drop_last(), i);
        let j = choose|j: int|
            0 <= j < pairs.drop_last().len() && #[trigger] pairs.drop_last()[j] == (
                rest[i].0,
                Some(rest[i].1),
            );
        assert(pairs[j] == pairs.drop_last()[j]);
    } else {
        assert(pairs[pairs.len() - 1] == pairs.last());
    }
}

/// A round works on watched references only, each with the commit that the remote
/// advertises for it, and merges them into the commit that the remote advertises for the
/// target reference. The target reference is worked on only where it is watched itself.
pub proof fn lemma_topics_are_watched(
    watched: Seq<Seq<char>>,
    heads: Seq<RemoteHead>,
    target_ref: Seq<char>,
    i: int,
)
    requires
        spec_topics(watched, heads, target_ref) is Ok,
        0 <= i < spec_topics(watched, heads, target_ref)->Ok_0.0.len(),
    ensures
        watched.contains(spec_topics(watched, heads, target_ref)->Ok_0.0[i].0),
        spec_resolve_oid(spec_topics(watched, heads, target_ref)->Ok_0.0[i].0, heads) == Some(
            spec_topics(watched, heads, target_ref)->Ok_0.0[i].1,
        ),
        spec_resolve_oid(target_ref, heads) == Some(
            spec_topics(watched, heads, target_ref)->Ok_0.1,
        ),
{
    let pairs = spec_resolve_oids(watched, heads);
    lemma_resolved_pairs(pairs, i);
    let topic = spec_resolved(pairs)[i];
    let j = choose|j: int| 0 <= j < pairs.len() && #[trigger] pairs[j] == (topic.0, Some(topic.1));
    lemma_resolve_oids_names(watched, heads, j);
}

} // verus!
