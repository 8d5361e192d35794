//! The references that are watched: given by name, or by regular expression.

use crate::error::ErrorKind;
use crate::git::{spec_flatten, RemoteHead};
use crate::merges::strings_view;
use crate::text::contains_str;
use vstd::prelude::*;

verus! {

#[verifier::external_type_specification]
#[verifier::external_body]
pub struct ExRegexSet(regex::RegexSet);

#[verifier::external_type_specification]
#[verifier::external_body]
pub struct ExRegexError(regex::Error);

/// The regular expressions that a set was made of, in their order.
pub uninterp spec fn regex_set_patterns(set: regex::RegexSet) -> Seq<Seq<char>>;

/// Whether `regex` makes a set of the given regular expressions.
pub uninterp spec fn regex_set_compiles(patterns: Seq<Seq<char>>) -> bool;

/// Whether one of the given regular expressions matches somewhere in the text.
pub uninterp spec fn regex_set_matches(patterns: Seq<Seq<char>>, text: Seq<char>) -> bool;

/// Makes a set with `regex::RegexSet::new`, which fails where one of the texts is no
/// regular expression or the set would be too large, and else keeps the texts as the
/// patterns of the set.
#[verifier::external_body]
fn regex_set_new(patterns: &[String]) -> (r: Result<regex::RegexSet, regex::Error>)
    ensures
        r is Ok <==> regex_set_compiles(strings_view(patterns@)),
        r matches Ok(set) ==> regex_set_patterns(set) == strings_view(patterns@),
{
    regex::RegexSet::new(patterns)
}

/// Asks `regex::RegexSet::is_match`, which says whether one of the regular expressions of
/// the set matches somewhere in the text. This holds of a set that `regex::RegexSet::new`
/// has made, as every set of this library is: a set built with other flags could match
/// otherwise with the same regular expressions.
#[verifier::external_body]
fn regex_set_is_match(set: &regex::RegexSet, text: &str) -> (r: bool)
    ensures
        r == regex_set_matches(regex_set_patterns(*set), text@),
{
    set.is_match(text)
}

/// The references to watch for commits that are to be merged into the target reference.
#[derive(Debug)]
pub struct WatchReferences {
    regex_set: regex::RegexSet,
    exact_list: Vec<String>,
}

/// The references that the heads of a remote stand for.
pub open spec fn flattened(heads: Seq<RemoteHead>) -> Seq<Seq<char>> {
    Seq::new(heads.len(), |i: int| spec_flatten(heads[i]))
}

/// Whether a reference is watched: it is one that a head stands for, and it is named
/// exactly or one of the regular expressions matches it.
pub open spec fn is_watched(
    exacts: Seq<Seq<char>>,
    patterns: Seq<Seq<char>>,
    heads: Seq<RemoteHead>,
    reference: Seq<char>,
) -> bool {
    flattened(heads).contains(reference) && (exacts.contains(reference) || regex_set_matches(
        patterns,
        reference,
    ))
}

/// A list with one more item at its end, unless the list holds the item.
pub open spec fn push_new(list: Seq<Seq<char>>, x: Seq<char>) -> Seq<Seq<char>> {
    if list.contains(x) {
        list
    } else {
        list.push(x)
    }
}

/// The names, among `exacts` and in their order, that some head stands for, each once.
pub open spec fn watched_by_name(exacts: Seq<Seq<char>>, flat: Seq<Seq<char>>) -> Seq<Seq<char>>
    decreases exacts.len(),
{
    if exacts.len() == 0 {
        Seq::empty()
    } else if flat.contains(exacts.last()) {
        push_new(watched_by_name(exacts.drop_last(), flat), exacts.last())
    } else {
        watched_by_name(exacts.drop_last(), flat)
    }
}

/// `first`, followed by the references, among `flat` and in their order, that one of the
/// regular expressions matches and that did not come before.
pub open spec fn watched_by_pattern(
    first: Seq<Seq<char>>,
    patterns: Seq<Seq<char>>,
    flat: Seq<Seq<char>>,
) -> Seq<Seq<char>>
    decreases flat.len(),
{
    if flat.len() == 0 {
        first
    } else if regex_set_matches(patterns, flat.last()) {
        push_new(watched_by_pattern(first, patterns, flat.drop_last()), flat.last())
    } else {
        watched_by_pattern(first, patterns, flat.drop_last())
    }
}

/// The watched references in the order in which they are worked on: those named exactly, in
/// the order of the names, then those that a regular expression matches, in the order of
/// the heads; each once.
pub open spec fn watched(
    exacts: Seq<Seq<char>>,
    patterns: Seq<Seq<char>>,
    heads: Seq<RemoteHead>,
) -> Seq<Seq<char>> {
    watched_by_pattern(watched_by_name(exacts, flattened(heads)), patterns, flattened(heads))
}

impl WatchReferences {
    /// The references that are named exactly.
    pub closed spec fn exacts(&self) -> Seq<Seq<char>> {
        strings_view(self.exact_list@)
    }

    /// The regular expressions.
    pub closed spec fn patterns(&self) -> Seq<Seq<char>> {
        regex_set_patterns(self.regex_set)
    }

    /// Watches the references named by `exacts` and those that one of `regexes` matches.
    /// Fails where `regexes` make no set of regular expressions.
    pub fn new(exacts: &[String], regexes: &[String]) -> (r: Result<WatchReferences, ErrorKind>)
        ensures
            r is Ok <==> regex_set_compiles(strings_view(regexes@)),
            r matches Ok(w) ==> w.exacts() == strings_view(exacts@) && w.patterns() == strings_view(
                regexes@,
            ),
            r matches Err(e) ==> e == ErrorKind::ConfigInvalid,
    {
        let mut exact_list: Vec<String> = Vec::new();
        let mut i: usize = 0;
        while i < exacts.len()
            invariant
                i <= exacts@.len(),
                exact_list@.len() == i,
                forall|j: int| 0 <= j < i ==> exact_list@[j]@ == exacts@[j]@,
            decreases exacts@.len() - i,
        {
            exact_list.push(exacts[i].clone());
            i += 1;
        }
        assert(strings_view(exact_list@) =~= strings_view(exacts@));
        match regex_set_new(regexes) {
            Ok(regex_set) => Ok(WatchReferences { regex_set: regex_set, exact_list: exact_list }),
            Err(_) => Err(ErrorKind::ConfigInvalid),
        }
    }

    /// The watched references among those that the heads of the remote stand for: each
    /// once, those named exactly first.
    pub fn resolve_watch_refs(&self, remote_ls: &[RemoteHead]) -> (r: Vec<String>)
        ensures
            strings_view(r@) == watched(self.exacts(), self.patterns(), remote_ls@),
            strings_view(r@).no_duplicates(),
            forall|k: Seq<char>| #[trigger]
                strings_view(r@).contains(k) <==> is_watched(
                    self.exacts(),
                    self.patterns(),
                    remote_ls@,
                    k,
                ),
    {
        let ghost flat = flattened(remote_ls@);
        let ghost exacts = self.exacts();
        let ghost patterns = self.patterns();
        let mut names: Vec<String> = Vec::new();
        let mut i: usize = 0;
        while i < remote_ls.len()
            invariant
                i <= remote_ls@.len(),
                names@.len() == i,
                forall|j: int| 0 <= j < i ==> names@[j]@ == spec_flatten(remote_ls@[j]),
            decreases remote_ls@.len() - i,
        {
            names.push(remote_ls[i].flatten_clone());
            i += 1;
        }
        assert(strings_view(names@) =~= flat);
        let mut refs: Vec<String> = Vec::new();
        let mut e: usize = 0;
        proof {
            assert(exacts.take(0) =~= Seq::<Seq<char>>::empty());
            assert(strings_view(refs@) =~= watched_by_name(exacts.take(0), flat));
        }
        while e < self.exact_list.len()
            invariant
                e <= self.exact_list@.len(),
                exacts == strings_view(self.exact_list@),
                strings_view(names@) == flat,
                strings_view(refs@) == watched_by_name(exacts.take(e as int), flat),
                strings_view(refs@).no_duplicates(),
                forall|k: Seq<char>| #[trigger]
                    strings_view(refs@).contains(k) <==> flat.contains(k) && in_prefix(
                        exacts,
                        e as int,
                        k,
                    ),
            decreases self.exact_list@.len() - e,
        {
            let name = &self.exact_list[e];
            let ghost before = strings_view(refs@);
            proof {
                lemma_contains_view(names@, name@);
                lemma_contains_view(refs@, name@);
                assert(exacts[e as int] == name@);
                assert(exacts.take(e + 1).drop_last() =~= exacts.take(e as int));
                assert(exacts.take(e + 1).last() == name@);
            }
            if contains_str(&names, name.as_str()) && !contains_str(&refs, name.as_str()) {
                refs.push(name.clone());
                proof {
                    assert(strings_view(refs@) =~= before.push(name@));
                    lemma_push_no_duplicates(before, name@);
                }
            }
            proof {
                let after = strings_view(refs@);
                assert forall|k: Seq<char>| #[trigger]
                    after.contains(k) <==> flat.contains(k) && in_prefix(exacts, e + 1, k) by {
                    lemma_push_contains(before, name@, k);
                    lemma_in_prefix_step(exacts, e as int, k);
                }
            }
            e += 1;
        }
        let ghost exact_part = strings_view(refs@);
        let mut m: usize = 0;
        proof {
            assert(exacts.take(self.exact_list@.len() as int) =~= exacts);
            assert(flat.take(0) =~= Seq::<Seq<char>>::empty());
        }
        while m < names.len()
            invariant
                m <= names@.len(),
                patterns == regex_set_patterns(self.regex_set),
                strings_view(names@) == flat,
                names@.len() == flat.len(),
                strings_view(refs@) == watched_by_pattern(exact_part, patterns, flat.take(m as int)),
                strings_view(refs@).no_duplicates(),
                forall|k: Seq<char>| #[trigger]
                    strings_view(refs@).contains(k) <==> exact_part.contains(k) || (in_prefix(
                        flat,
                        m as int,
                        k,
                    ) && regex_set_matches(patterns, k)),
            decreases names@.len() - m,
        {
            let name = &names[m];
            let ghost before = strings_view(refs@);
            proof {
                lemma_contains_view(refs@, name@);
                assert(flat[m as int] == name@);
                assert(flat.take(m + 1).drop_last() =~= flat.take(m as int));
                assert(flat.take(m + 1).last() == name@);
            }
            if regex_set_is_match(&self.regex_set, name.as_str()) && !contains_str(
                &refs,
                name.as_str(),
            ) {
                refs.push(name.clone());
                proof {
                    assert(strings_view(refs@) =~= before.push(name@));
                    lemma_push_no_duplicates(before, name@);
                }
            }
            proof {
                let after = strings_view(refs@);
                assert forall|k: Seq<char>| #[trigger]
                    after.contains(k) <==> exact_part.contains(k) || (in_prefix(flat, m + 1, k)
                        && regex_set_matches(patterns, k)) by {
                    lemma_push_contains(before, name@, k);
                    lemma_in_prefix_step(flat, m as int, k);
                }
            }
            m += 1;
        }
        proof {
            let after = strings_view(refs@);
            assert(flat.take(names@.len() as int) =~= flat);
            assert forall|k: Seq<char>| #[trigger]
                after.contains(k) <==> is_watched(exacts, patterns, remote_ls@, k) by {
                lemma_in_prefix_all(exacts, k);
                lemma_in_prefix_all(flat, k);
                assert(exact_part.contains(k) <==> flat.contains(k) && in_prefix(
                    exacts,
                    exacts.len() as int,
                    k,
                ));
            }
        }
        refs
    }
}

/// Whether `k` is among the first `n` items of a list.
pub open spec fn in_prefix(list: Seq<Seq<char>>, n: int, k: Seq<char>) -> bool {
    exists|j: int| 0 <= j < n && j < list.len() && list[j] == k
}

/// One more item of the list is `k`, or `k` was among the items before.
pub proof fn lemma_in_prefix_step(list: Seq<Seq<char>>, n: int, k: Seq<char>)
    requires
        0 <= n < list.len(),
    ensures
        in_prefix(list, n + 1, k) <==> in_prefix(list, n, k) || list[n] == k,
{
    if in_prefix(list, n + 1, k) {
        let j = choose|j: int| 0 <= j < n + 1 && j < list.len() && list[j] == k;
        if j < n {
            assert(in_prefix(list, n, k));
        }
    }
    if in_prefix(list, n, k) {
        let j = choose|j: int| 0 <= j < n && j < list.len() && list[j] == k;
        assert(0 <= j < n + 1 && j < list.len() && list[j] == k);
    }
    if list[n] == k {
        assert(0 <= n < n + 1 && n < list.len() && list[n] == k);
    }
}

/// To be among all items of a list is to be in the list.
pub proof fn lemma_in_prefix_all(list: Seq<Seq<char>>, k: Seq<char>)
    ensures
        in_prefix(list, list.len() as int, k) <==> list.contains(k),
{
    if in_prefix(list, list.len() as int, k) {
        let j = choose|j: int| 0 <= j < list.len() && j < list.len() && list[j] == k;
        assert(list[j] == k);
    }
    if list.contains(k) {
        let j = choose|j: int| 0 <= j < list.len() && list[j] == k;
        assert(0 <= j < list.len() && j < list.len() && list[j] == k);
    }
}

/// A list of strings holds a text exactly where the list of their characters does.
pub proof fn lemma_contains_view(list: Seq<String>, s: Seq<char>)
    ensures
        strings_view(list).contains(s) <==> exists|i: int| 0 <= i < list.len() && list[i]@ == s,
{
    if strings_view(list).contains(s) {
        let i = choose|i: int| 0 <= i < strings_view(list).len() && strings_view(list)[i] == s;
        assert(list[i]@ == s);
    }
    if exists|i: int| 0 <= i < list.len() && list[i]@ == s {
        let i = choose|i: int| 0 <= i < list.len() && list[i]@ == s;
        assert(strings_view(list)[i] == s);
    }
}

/// A list without duplicates stays so when something new is added.
pub proof fn lemma_push_no_duplicates(s: Seq<Seq<char>>, x: Seq<char>)
    requires
        s.no_duplicates(),
        !s.contains(x),
    ensures
        s.push(x).no_duplicates(),
{
    let t = s.push(x);
    assert forall|i: int, j: int| 0 <= i < t.len() && 0 <= j < t.len() && i != j implies t[i]
        != t[j] by {
        if i < s.len() && j < s.len() {
        } else if i < s.len() {
            assert(s[i] == t[i]);
            if t[i] == x {
                assert(s.contains(x));
            }
        } else {
            assert(s[j] == t[j]);
            if t[j] == x {
                assert(s.contains(x));
            }
        }
    }
}

/// What a list holds after something is added, or after nothing is.
pub proof fn lemma_push_contains(s: Seq<Seq<char>>, x: Seq<char>, k: Seq<char>)
    ensures
        s.push(x).contains(k) <==> s.contains(k) || k == x,
{
    let t = s.push(x);
    if t.contains(k) {
        let i = choose|i: int| 0 <= i < t.len() && t[i] == k;
        if i < s.len() {
            assert(s[i] == k);
        }
    }
    if s.contains(k) {
        let i = choose|i: int| 0 <= i < s.len() && s[i] == k;
        assert(t[i] == k);
    }
    if k == x {
        assert(t[s.len() as int] == k);
    }
}

} // verus!
