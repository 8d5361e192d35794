//! What the library knows of a repository and of its remote, and the rules that depend on it.

use crate::config::RepositoryConfiguration;
use crate::error::ErrorKind;
use crate::text::{first_where, lemma_first_where_is, str_eq};
use vstd::prelude::*;
use vstd::string::*;

pub use crate::oid::Oid;
pub use crate::refspec::RefspecStr;

verus! {

/// The direction in which a refspec is used.
#[derive(Clone, Copy, Debug, PartialEq, Eq, Structural)]
pub enum Direction {
    /// From the remote into the repository.
    Fetch,
    /// From the repository to the remote.
    Push,
}

/// One reference of the list that a remote advertises.
#[derive(Clone, Debug)]
pub struct RemoteHead {
    /// Whether the object is in the local repository.
    pub is_local: bool,
    /// The object id that the remote has for the reference.
    pub oid: Oid,
    /// The object id that the local repository has for the reference.
    pub loid: Oid,
    /// The name of the reference.
    pub name: String,
    /// The reference that a symbolic reference points to.
    pub symref_target: Option<String>,
}

/// The reference that a head stands for: a symbolic reference stands for its target.
pub open spec fn spec_flatten(head: RemoteHead) -> Seq<char> {
    match head.symref_target {
        Some(s) => s@,
        None => head.name@,
    }
}

impl RemoteHead {
    /// The reference that the head stands for: a symbolic reference stands for its target.
    pub fn flatten(&self) -> (r: &str)
        ensures
            r@ == spec_flatten(*self),
    {
        match &self.symref_target {
            Some(s) => s.as_str(),
            None => self.name.as_str(),
        }
    }

    /// The reference that the head stands for, as a string of its own.
    pub fn flatten_clone(&self) -> (r: String)
        ensures
            r@ == spec_flatten(*self),
    {
        self.flatten().to_string()
    }
}

/// A refspec that is configured for a remote.
#[derive(Clone, Debug)]
pub struct Refspec {
    /// The direction of the refspec.
    pub direction: Direction,
    /// The text of the refspec, where it is text.
    pub text: Option<String>,
}

/// A refspec that is to be added to the configuration of a remote.
#[derive(Clone, Debug)]
pub struct RefspecChange {
    /// The name of the remote.
    pub remote_name: String,
    /// The text of the refspec.
    pub refspec: String,
    /// The direction of the refspec.
    pub direction: Direction,
}

/// A remote of the repository, as far as the rules read it.
#[derive(Clone, Debug)]
pub struct Remote {
    /// The name of the remote; an anonymous remote has none.
    pub name: Option<String>,
    /// The refspecs that are configured for the remote.
    pub refspecs: Vec<Refspec>,
}

/// Whether a head is the symbolic reference `HEAD`.
pub open spec fn is_symbolic_head(head: RemoteHead) -> bool {
    head.name@ == "HEAD"@ && head.symref_target is Some
}

/// The reference that the remote `HEAD` points to: the target of the first head that is
/// the symbolic reference `HEAD`.
pub open spec fn spec_resolve_head(heads: Seq<RemoteHead>) -> Option<Seq<char>> {
    let i = first_where(heads, |h: RemoteHead| is_symbolic_head(h));
    if i < heads.len() {
        Some(heads[i].symref_target->Some_0@)
    } else {
        None
    }
}

/// Whether some head has the given name.
pub open spec fn is_advertised(heads: Seq<RemoteHead>, name: Seq<char>) -> bool {
    exists|i: int| 0 <= i < heads.len() && (#[trigger] heads[i]).name@ == name
}

/// The target reference that a request stands for. No request, or `HEAD`, stands for what
/// the remote `HEAD` points to; a name stands for itself where the remote advertises it.
pub open spec fn spec_resolve_target_ref(
    target_ref: Option<Seq<char>>,
    heads: Seq<RemoteHead>,
) -> Option<Seq<char>> {
    if target_ref is None || target_ref == Some("HEAD"@) {
        spec_resolve_head(heads)
    } else if is_advertised(heads, target_ref->Some_0) {
        target_ref
    } else {
        None
    }
}

/// Whether a configured refspec has the given direction and text.
pub open spec fn refspec_matches(r: Refspec, direction: Direction, text: Seq<char>) -> bool {
    r.direction == direction && r.text is Some && r.text->Some_0@ == text
}

/// Whether a refspec with the given direction and text is configured.
pub open spec fn has_refspec(refspecs: Seq<Refspec>, direction: Direction, text: Seq<char>) -> bool {
    exists|i: int| 0 <= i < refspecs.len() && refspec_matches(#[trigger] refspecs[i], direction, text)
}

/// Whether a reference begins with `refs/`.
pub open spec fn begins_with_refs(s: Seq<char>) -> bool {
    s.len() >= 5 && s.subrange(0, 5) == "refs/"@
}

/// The refspec that maps a reference `refs/<rest>` to `refs/remotes/<name>/<rest>`, or the
/// reason why there is none.
pub open spec fn spec_generate_refspec(name: Option<Seq<char>>, src: Seq<char>, force: bool) -> Result<
    Seq<char>,
    Seq<char>,
> {
    if !begins_with_refs(src) {
        Err("Invalid reference -- does not begin with refs/"@)
    } else if name is None {
        Err("Un-named remote"@)
    } else {
        Ok(
            (if force {
                "+"@
            } else {
                Seq::<char>::empty()
            }) + src + ":"@ + "refs/remotes/"@ + name->Some_0 + "/"@ + src.subrange(
                5,
                src.len() as int,
            ),
        )
    }
}

impl Remote {
    /// The name of the remote as a sequence of characters.
    pub open spec fn spec_name(&self) -> Option<Seq<char>> {
        match self.name {
            Some(n) => Some(n@),
            None => None,
        }
    }

    /// The name of the remote; an anonymous remote has none.
    pub fn name(&self) -> (r: Option<&str>)
        ensures
            r is Some <==> self.name is Some,
            r matches Some(n) ==> n@ == self.name->Some_0@,
    {
        match &self.name {
            Some(n) => Some(n.as_str()),
            None => None,
        }
    }

    /// The refspecs that are configured for the remote.
    pub fn refspecs(&self) -> (r: &Vec<Refspec>)
        ensures
            r == self.refspecs,
    {
        &self.refspecs
    }

    /// Whether two directions are the same.
    pub fn direction_eq(left: &Direction, right: &Direction) -> (r: bool)
        ensures
            r == (*left == *right),
    {
        match (left, right) {
            (Direction::Fetch, Direction::Fetch) => true,
            (Direction::Push, Direction::Push) => true,
            _ => false,
        }
    }

    /// The first of the refspecs that has the given direction and text.
    pub fn find_matching_refspec<'a>(
        refspecs: &'a Vec<Refspec>,
        direction: Direction,
        refspec: &str,
    ) -> (r: Option<&'a Refspec>)
        ensures
            r is Some <==> has_refspec(refspecs@, direction, refspec@),
            r matches Some(found) ==> {
                let i = first_where(
                    refspecs@,
                    |x: Refspec| refspec_matches(x, direction, refspec@),
                );
                i < refspecs@.len() && *found == refspecs@[i]
            },
    {
        let ghost p = |x: Refspec| refspec_matches(x, direction, refspec@);
        let mut i: usize = 0;
        while i < refspecs.len()
            invariant
                i <= refspecs@.len(),
                p == |x: Refspec| refspec_matches(x, direction, refspec@),
                forall|j: int| 0 <= j < i ==> !p(#[trigger] refspecs@[j]),
            decreases refspecs@.len() - i,
        {
            let r = &refspecs[i];
            let same = Self::direction_eq(&r.direction, &direction) && match &r.text {
                Some(t) => str_eq(t.as_str(), refspec),
                None => false,
            };
            if same {
                proof {
                    assert(p(refspecs@[i as int]));
                    lemma_first_where_is(refspecs@, p, i as int);
                }
                return Some(r);
            }
            i += 1;
        }
        proof {
            if has_refspec(refspecs@, direction, refspec@) {
                let j = choose|j: int|
                    0 <= j < refspecs@.len() && refspec_matches(
                        #[trigger] refspecs@[j],
                        direction,
                        refspec@,
                    );
                assert(p(refspecs@[j]));
            }
        }
        None
    }

    /// The refspec that maps the reference `src`, which begins with `refs/`, to the same
    /// path below `refs/remotes/<name>`, forced or not.
    pub fn generate_refspec(&self, src: &str, force: bool) -> (r: Result<String, String>)
        ensures
            r is Ok <==> spec_generate_refspec(self.spec_name(), src@, force) is Ok,
            r matches Ok(s) ==> Ok::<Seq<char>, Seq<char>>(s@) == spec_generate_refspec(
                self.spec_name(),
                src@,
                force,
            ),
            r matches Err(e) ==> Err::<Seq<char>, Seq<char>>(e@) == spec_generate_refspec(
                self.spec_name(),
                src@,
                force,
            ),
    {
        proof {
            reveal_strlit("refs/");
        }
        let n = src.unicode_len();
        if n < 5 || !str_eq(src.substring_char(0, 5), "refs/") {
            return Err("Invalid reference -- does not begin with refs/".to_string());
        }
        let name = match self.name() {
            Some(name) => name,
            None => {
                return Err("Un-named remote".to_string());
            },
        };
        let mut out = if force {
            "+".to_string()
        } else {
            "".to_string()
        };
        assert(""@ =~= Seq::<char>::empty()) by {
            reveal_strlit("");
        }
        out.append(src);
        out.append(":");
        out.append("refs/remotes/");
        out.append(name);
        out.append("/");
        out.append(src.substring_char(5, n));
        Ok(out)
    }

    /// What adding a refspec to the remote takes: nothing where a refspec of this direction
    /// and text is configured, else one change of the configuration. An anonymous remote
    /// takes no refspec.
    pub fn add_refspec(&self, refspec: &str, direction: Direction) -> (r: Result<
        Option<RefspecChange>,
        ErrorKind,
    >)
        ensures
            self.name is None ==> r == Err::<Option<RefspecChange>, ErrorKind>(
                ErrorKind::ConfigInvalid,
            ),
            self.name is Some ==> r is Ok,
            r matches Ok(change) ==> (change is None <==> has_refspec(
                self.refspecs@,
                direction,
                refspec@,
            )),
            r matches Ok(Some(change)) ==> change.remote_name@ == self.name->Some_0@
                && change.refspec@ == refspec@ && change.direction == direction,
    {
        let remote_name = match self.name() {
            Some(n) => n,
            None => {
                return Err(ErrorKind::ConfigInvalid);
            },
        };
        if Self::find_matching_refspec(&self.refspecs, direction, refspec).is_none() {
            Ok(
                Some(
                    RefspecChange {
                        remote_name: remote_name.to_string(),
                        refspec: refspec.to_string(),
                        direction: direction,
                    },
                ),
            )
        } else {
            Ok(None)
        }
    }

    /// The reference that the remote `HEAD` points to, from the heads that it advertises.
    pub fn resolve_head(heads: &[RemoteHead]) -> (r: Option<String>)
        ensures
            r is Some <==> spec_resolve_head(heads@) is Some,
            r matches Some(s) ==> Some(s@) == spec_resolve_head(heads@),
    {
        let ghost p = |h: RemoteHead| is_symbolic_head(h);
        let mut i: usize = 0;
        while i < heads.len()
            invariant
                i <= heads@.len(),
                p == |h: RemoteHead| is_symbolic_head(h),
                forall|j: int| 0 <= j < i ==> !p(#[trigger] heads@[j]),
            decreases heads@.len() - i,
        {
            let head = &heads[i];
            if str_eq(head.name.as_str(), "HEAD") {
                match &head.symref_target {
                    Some(target) => {
                        proof {
                            assert(p(heads@[i as int]));
                            lemma_first_where_is(heads@, p, i as int);
                        }
                        return Some(target.clone());
                    },
                    None => {},
                }
            }
            i += 1;
        }
        proof {
            lemma_first_where_is(heads@, p, heads@.len() as int);
        }
        None
    }

    /// The target reference that a request stands for, given the heads that the remote
    /// advertises.
    pub fn resolve_target_ref(target_ref: Option<&str>, heads: &[RemoteHead]) -> (r: Result<
        String,
        ErrorKind,
    >)
        ensures
            r is Ok <==> spec_resolve_target_ref(
                match target_ref {
                    Some(t) => Some(t@),
                    None => None,
                },
                heads@,
            ) is Some,
            r matches Ok(s) ==> Some(s@) == spec_resolve_target_ref(
                match target_ref {
                    Some(t) => Some(t@),
                    None => None,
                },
                heads@,
            ),
            r matches Err(e) ==> e == ErrorKind::UnknownTargetRef,
    {
        let reference = match target_ref {
            None => {
                return match Self::resolve_head(heads) {
                    Some(head) => Ok(head),
                    None => Err(ErrorKind::UnknownTargetRef),
                };
            },
            Some(reference) => reference,
        };
        if str_eq(reference, "HEAD") {
            return match Self::resolve_head(heads) {
                Some(head) => Ok(head),
                None => Err(ErrorKind::UnknownTargetRef),
            };
        }
        let mut i: usize = 0;
        while i < heads.len()
            invariant
                i <= heads@.len(),
                target_ref == Some(reference),
                reference@ != "HEAD"@,
                forall|j: int| 0 <= j < i ==> (#[trigger] heads@[j]).name@ != reference@,
            decreases heads@.len() - i,
        {
            if str_eq(heads[i].name.as_str(), reference) {
                return Ok(reference.to_string());
            }
            i += 1;
        }
        Err(ErrorKind::UnknownTargetRef)
    }
}

/// The texts, among `texts` and in their order, of which no refspec of the given direction
/// is configured.
pub open spec fn missing_refspecs(
    texts: Seq<Seq<char>>,
    configured: Seq<Refspec>,
    direction: Direction,
) -> Seq<Seq<char>>
    decreases texts.len(),
{
    if texts.len() == 0 {
        Seq::empty()
    } else if has_refspec(configured, direction, texts.last()) {
        missing_refspecs(texts.drop_last(), configured, direction)
    } else {
        missing_refspecs(texts.drop_last(), configured, direction).push(texts.last())
    }
}

impl Remote {
    /// What adding several refspecs to the remote takes: one change of the configuration
    /// for each of them, in their order, of which no refspec of this direction is
    /// configured. An anonymous remote takes no refspec.
    pub fn add_refspecs(&self, refspecs: &[&str], direction: Direction) -> (r: Result<
        Vec<RefspecChange>,
        ErrorKind,
    >)
        ensures
            self.name is None && refspecs@.len() > 0 ==> r == Err::<Vec<RefspecChange>, ErrorKind>(
                ErrorKind::ConfigInvalid,
            ),
            self.name is Some || refspecs@.len() == 0 ==> r is Ok,
            r matches Ok(changes) ==> {
                let missing = missing_refspecs(
                    Seq::new(refspecs@.len(), |i: int| refspecs@[i]@),
                    self.refspecs@,
                    direction,
                );
                &&& changes@.len() == missing.len()
                &&& forall|i: int|
                    0 <= i < changes@.len() ==> (#[trigger] changes@[i]).refspec@ == missing[i]
                        && changes@[i].direction == direction && changes@[i].remote_name@
                        == self.name->Some_0@
            },
    {
        let ghost texts = Seq::new(refspecs@.len(), |i: int| refspecs@[i]@);
        let mut changes: Vec<RefspecChange> = Vec::new();
        let mut i: usize = 0;
        while i < refspecs.len()
            invariant
                i <= refspecs@.len(),
                texts == Seq::new(refspecs@.len(), |i: int| refspecs@[i]@),
                i > 0 ==> self.name is Some,
                changes@.len() == missing_refspecs(
                    texts.take(i as int),
                    self.refspecs@,
                    direction,
                ).len(),
                forall|j: int|
                    0 <= j < changes@.len() ==> (#[trigger] changes@[j]).refspec@
                        == missing_refspecs(texts.take(i as int), self.refspecs@, direction)[j]
                        && changes@[j].direction == direction && changes@[j].remote_name@
                        == self.name->Some_0@,
            decreases refspecs@.len() - i,
        {
            proof {
                assert(texts.take(i + 1).drop_last() =~= texts.take(i as int));
                assert(texts.take(i + 1).last() == refspecs@[i as int]@);
            }
            match self.add_refspec(refspecs[i], direction) {
                Ok(Some(change)) => {
                    changes.push(change);
                },
                Ok(None) => {},
                Err(e) => {
                    return Err(e);
                },
            }
            i += 1;
        }
        proof {
            assert(texts.take(refspecs@.len() as int) =~= texts);
        }
        Ok(changes)
    }
}

/// The name and email under which commits and notes are made.
#[derive(Clone, Debug, PartialEq, Eq)]
pub struct Signature {
    /// The name.
    pub name: String,
    /// The email.
    pub email: String,
}

/// What became of the attempt to open the repository at the checkout path.
#[derive(Clone, Copy, Debug, PartialEq, Eq, Structural)]
pub enum OpenOutcome {
    /// The repository was opened.
    Opened,
    /// There is no repository at the path.
    NotFound,
    /// The repository could not be opened for another reason.
    Failed,
}

/// What to do after the attempt to open the repository.
#[derive(Clone, Copy, Debug, PartialEq, Eq, Structural)]
pub enum OpenAction {
    /// Use the repository that was opened.
    Use,
    /// Clone the repository from its address to the checkout path.
    Clone,
    /// Give up with the error of the attempt.
    Fail,
}

/// The kinds of credentials that a remote asks for, as the bits of Git's credential types.
#[derive(Clone, Copy, Debug, PartialEq, Eq, Structural)]
pub struct CredentialType {
    /// The bits: one for each kind that the remote accepts.
    pub bits: u32,
}

/// The bit of a user name with a password.
pub const USER_PASS_PLAINTEXT: u32 = 1;

/// The bit of an SSH key.
pub const SSH_KEY: u32 = 2;

/// The bit of a user name alone.
pub const USERNAME: u32 = 32;

impl CredentialType {
    /// Whether the remote accepts one of the kinds of `bits`.
    pub fn intersects(&self, bits: u32) -> (r: bool)
        ensures
            r == (self.bits & bits != 0),
    {
        self.bits & bits != 0
    }
}

/// The credential to hand to a remote.
#[derive(Clone, PartialEq, Eq)]
pub enum Credential {
    /// A user name alone.
    Username(String),
    /// A user name with its password.
    UserPassPlaintext { username: String, password: String },
    /// A private key from a file, with its passphrase where it has one.
    SshKey { username: String, key: String, passphrase: Option<String> },
    /// A private key from the SSH agent.
    SshKeyFromAgent { username: String },
    /// What Git's credential helper gives for the address.
    Helper { uri: String, user: Option<String> },
}

/// What a `Credential` holds.
pub ghost enum CredentialView {
    Username(Seq<char>),
    UserPassPlaintext { username: Seq<char>, password: Seq<char> },
    SshKey { username: Seq<char>, key: Seq<char>, passphrase: Option<Seq<char>> },
    SshKeyFromAgent { username: Seq<char> },
    Helper { uri: Seq<char>, user: Option<Seq<char>> },
}

/// The characters of a string that may be absent.
pub open spec fn option_view(s: Option<String>) -> Option<Seq<char>> {
    match s {
        Some(s) => Some(s@),
        None => None,
    }
}

impl View for Credential {
    type V = CredentialView;

    open spec fn view(&self) -> CredentialView {
        match self {
            Credential::Username(u) => CredentialView::Username(u@),
            Credential::UserPassPlaintext { username, password } => CredentialView::UserPassPlaintext {
                username: username@,
                password: password@,
            },
            Credential::SshKey { username, key, passphrase } => CredentialView::SshKey {
                username: username@,
                key: key@,
                passphrase: option_view(*passphrase),
            },
            Credential::SshKeyFromAgent { username } => CredentialView::SshKeyFromAgent {
                username: username@,
            },
            Credential::Helper { uri, user } => CredentialView::Helper {
                uri: uri@,
                user: option_view(*user),
            },
        }
    }
}

/// The credential for a request of the remote. The user name is the one that the remote
/// names, else the configured one. With a user name, the first kind that the remote accepts
/// is served, in this order: the user name alone, the user name with the configured
/// password, a key: the configured one, else one from the SSH agent. In every other case
/// Git's credential helper is asked for the configured address.
pub open spec fn spec_resolve_credentials(
    details: RepositoryConfiguration,
    username: Option<Seq<char>>,
    bits: u32,
) -> CredentialView {
    let user = if username is Some {
        username
    } else {
        option_view(details.username)
    };
    if bits & USERNAME != 0 && user is Some {
        CredentialView::Username(user->Some_0)
    } else if bits & USER_PASS_PLAINTEXT != 0 && user is Some && details.password is Some {
        CredentialView::UserPassPlaintext {
            username: user->Some_0,
            password: details.password->Some_0.password@,
        }
    } else if bits & SSH_KEY != 0 && user is Some {
        if details.key is Some {
            CredentialView::SshKey {
                username: user->Some_0,
                key: details.key->Some_0@,
                passphrase: match details.key_passphrase {
                    Some(p) => Some(p.password@),
                    None => None,
                },
            }
        } else {
            CredentialView::SshKeyFromAgent { username: user->Some_0 }
        }
    } else {
        CredentialView::Helper { uri: details.uri@, user: user }
    }
}

/// The signature for commits and notes: the configured name and email where both are
/// configured, else the signature of the repository where it has one, else a fixed one.
pub open spec fn spec_signature(
    details: RepositoryConfiguration,
    repository_signature: Option<Signature>,
) -> (Seq<char>, Seq<char>) {
    if details.signature_name is Some && details.signature_email is Some {
        (details.signature_name->Some_0@, details.signature_email->Some_0@)
    } else if repository_signature is Some {
        (repository_signature->Some_0.name@, repository_signature->Some_0.email@)
    } else {
        ("fusionner"@, "fusionner@github.com"@)
    }
}

/// A repository, as far as the rules read it: its configuration.
pub struct Repository<'repo> {
    details: &'repo RepositoryConfiguration,
}

impl<'repo> Repository<'repo> {
    /// The configuration of the repository.
    pub closed spec fn spec_details(&self) -> RepositoryConfiguration {
        *self.details
    }

    /// A repository with the given configuration.
    pub fn new(configuration: &'repo RepositoryConfiguration) -> (r: Repository<'repo>)
        ensures
            r.spec_details() == *configuration,
    {
        Repository { details: configuration }
    }

    /// The configuration of the repository.
    pub fn details(&self) -> (r: &'repo RepositoryConfiguration)
        ensures
            *r == self.spec_details(),
    {
        self.details
    }

    /// What to do after the attempt to open the repository: one that is not there is
    /// cloned, any other failure stands.
    pub fn clone_or_open(outcome: OpenOutcome) -> (r: OpenAction)
        ensures
            r == (match outcome {
                OpenOutcome::Opened => OpenAction::Use,
                OpenOutcome::NotFound => OpenAction::Clone,
                OpenOutcome::Failed => OpenAction::Fail,
            }),
    {
        match outcome {
            OpenOutcome::Opened => OpenAction::Use,
            OpenOutcome::NotFound => OpenAction::Clone,
            OpenOutcome::Failed => OpenAction::Fail,
        }
    }

    /// The name of the remote that is meant: the given one, or `origin`.
    pub fn remote_name_or_default(remote: Option<&str>) -> (r: String)
        ensures
            r@ == (match remote {
                Some(n) => n@,
                None => "origin"@,
            }),
    {
        match remote {
            Some(n) => n.to_string(),
            None => "origin".to_string(),
        }
    }

    /// The credential for a request of the remote for the kinds `cred_type`, for the user
    /// `username` where the remote names one.
    pub fn resolve_credentials(
        repo_details: &RepositoryConfiguration,
        _uri: &str,
        username: Option<&str>,
        cred_type: CredentialType,
    ) -> (r: Credential)
        ensures
            r@ == spec_resolve_credentials(
                *repo_details,
                match username {
                    Some(u) => Some(u@),
                    None => None,
                },
                cred_type.bits,
            ),
    {
        let username: Option<String> = match username {
            Some(u) => Some(u.to_string()),
            None => match &repo_details.username {
                Some(u) => Some(u.clone()),
                None => None,
            },
        };
        match username {
            Some(user) => {
                if cred_type.intersects(USERNAME) {
                    return Credential::Username(user);
                }
                if cred_type.intersects(USER_PASS_PLAINTEXT) {
                    match &repo_details.password {
                        Some(p) => {
                            return Credential::UserPassPlaintext {
                                username: user,
                                password: p.password.clone(),
                            };
                        },
                        None => {},
                    }
                }
                if cred_type.intersects(SSH_KEY) {
                    return match &repo_details.key {
                        Some(key) => Credential::SshKey {
                            username: user,
                            key: key.clone(),
                            passphrase: match &repo_details.key_passphrase {
                                Some(p) => Some(p.password.clone()),
                                None => None,
                            },
                        },
                        None => Credential::SshKeyFromAgent { username: user },
                    };
                }
                Credential::Helper { uri: repo_details.uri.clone(), user: Some(user) }
            },
            None => Credential::Helper { uri: repo_details.uri.clone(), user: None },
        }
    }

    /// The signature for commits and notes, given the signature that the repository has
    /// from the Git configuration, if any.
    pub fn signature(&self, repository_signature: Option<Signature>) -> (r: Signature)
        ensures
            (r.name@, r.email@) == spec_signature(self.spec_details(), repository_signature),
    {
        match (&self.details.signature_name, &self.details.signature_email) {
            (Some(name), Some(email)) => {
                return Signature { name: name.clone(), email: email.clone() };
            },
            _ => {},
        }
        match repository_signature {
            Some(signature) => signature,
            None => Signature {
                name: "fusionner".to_string(),
                email: "fusionner@github.com".to_string(),
            },
        }
    }
}

} // verus!
