use fusionner::error::ErrorKind;
use fusionner::git::{
    Credential, CredentialType, Direction, Oid, OpenAction, OpenOutcome, Refspec, Remote,
    RemoteHead, Repository, Signature, SSH_KEY, USERNAME, USER_PASS_PLAINTEXT,
};
use fusionner::{Password, RepositoryConfiguration};

fn an_oid(hex: &str) -> Oid {
    Oid::from_str(hex).unwrap()
}

fn config_init() -> RepositoryConfiguration {
    RepositoryConfiguration {
        uri: "file:///tmp/test".to_string(),
        checkout_path: "/tmp/test".to_string(),
        fetch_refspecs: vec![],
        push_refspecs: vec![],
        username: Some("foobar".to_string()),
        password: Some(Password::from_str("password").unwrap()),
        key: Some("/path/to/some.key".to_string()),
        key_passphrase: None,
        signature_name: None,
        signature_email: None,
    }
}

fn origin() -> Remote {
    Remote { name: Some("origin".to_string()), refspecs: vec![] }
}

fn advertised() -> Vec<RemoteHead> {
    let master = an_oid("99dbca6642980876d004188b52f01d01d48a82e0");
    let zero = Oid::from_bytes([0u8; 20]);
    vec![
        RemoteHead {
            is_local: false,
            oid: master,
            loid: zero,
            name: "HEAD".to_string(),
            symref_target: Some("refs/heads/master".to_string()),
        },
        RemoteHead {
            is_local: false,
            oid: master,
            loid: zero,
            name: "refs/heads/master".to_string(),
            symref_target: None,
        },
    ]
}

#[test]
fn smoke_test_opem() {
    assert_eq!(OpenAction::Use, Repository::clone_or_open(OpenOutcome::Opened));
}

#[test]
fn smoke_test_clone() {
    assert_eq!(OpenAction::Clone, Repository::clone_or_open(OpenOutcome::NotFound));
}

#[test]
fn open_failure_stands() {
    assert_eq!(OpenAction::Fail, Repository::clone_or_open(OpenOutcome::Failed));
}

#[test]
fn resolve_credentials_smoke_test() {
    let config = config_init();

    let username =
        Repository::resolve_credentials(&config, "", None, CredentialType { bits: USERNAME });
    assert!(username == Credential::Username("foobar".to_string()));

    let plain = Repository::resolve_credentials(
        &config,
        "",
        None,
        CredentialType { bits: USER_PASS_PLAINTEXT },
    );
    assert!(
        plain
            == Credential::UserPassPlaintext {
                username: "foobar".to_string(),
                password: "password".to_string()
            }
    );

    let key = Repository::resolve_credentials(&config, "", None, CredentialType { bits: SSH_KEY });
    assert!(
        key == Credential::SshKey {
            username: "foobar".to_string(),
            key: "/path/to/some.key".to_string(),
            passphrase: None
        }
    );
}

#[test]
fn resolve_credentials_will_get_key_from_ssh_agent_in_absence_of_key() {
    let mut config = config_init();
    config.key = None;

    let actual =
        Repository::resolve_credentials(&config, "", None, CredentialType { bits: SSH_KEY });
    assert!(actual == Credential::SshKeyFromAgent { username: "foobar".to_string() });
}

#[test]
fn resolve_credentials_prefers_the_user_that_the_remote_names() {
    let config = config_init();
    let actual = Repository::resolve_credentials(
        &config,
        "",
        Some("git"),
        CredentialType { bits: USERNAME | SSH_KEY },
    );
    assert!(actual == Credential::Username("git".to_string()));
}

#[test]
fn resolve_credentials_falls_back_to_the_helper() {
    let mut config = config_init();
    config.username = None;
    let actual = Repository::resolve_credentials(
        &config,
        "ignored",
        None,
        CredentialType { bits: USERNAME | USER_PASS_PLAINTEXT | SSH_KEY },
    );
    assert!(actual == Credential::Helper { uri: "file:///tmp/test".to_string(), user: None });

    let mut config = config_init();
    config.password = None;
    let actual = Repository::resolve_credentials(
        &config,
        "",
        None,
        CredentialType { bits: USER_PASS_PLAINTEXT },
    );
    assert!(
        actual
            == Credential::Helper {
                uri: "file:///tmp/test".to_string(),
                user: Some("foobar".to_string())
            }
    );
}

#[test]
fn signature_prefers_configuration_then_repository_then_default() {
    let mut config = config_init();
    let theirs = Signature { name: "name".to_string(), email: "email".to_string() };
    {
        let repo = Repository::new(&config);
        assert_eq!(theirs, repo.signature(Some(theirs.clone())));
        assert_eq!(
            Signature { name: "fusionner".to_string(), email: "fusionner@github.com".to_string() },
            repo.signature(None)
        );
    }
    config.signature_name = Some("me".to_string());
    {
        let repo = Repository::new(&config);
        assert_eq!(theirs, repo.signature(Some(theirs.clone())));
    }
    config.signature_email = Some("me@example.com".to_string());
    let repo = Repository::new(&config);
    assert_eq!(
        Signature { name: "me".to_string(), email: "me@example.com".to_string() },
        repo.signature(Some(theirs))
    );
}

#[test]
fn remote_name_defaults_to_origin() {
    assert_eq!("origin", Repository::remote_name_or_default(None));
    assert_eq!("upstream", Repository::remote_name_or_default(Some("upstream")));
}

#[test]
fn refspecs_are_generated_correctly() {
    let remote = origin();

    for force in [true, false].iter() {
        let force_flag = if *force { "+" } else { "" };
        let expected_refspec =
            format!("{}{}", force_flag, "refs/pulls/*:refs/remotes/origin/pulls/*");
        assert_eq!(expected_refspec, remote.generate_refspec("refs/pulls/*", *force).unwrap());
    }
}

#[test]
fn refspecs_are_refused_outside_refs_and_for_anonymous_remotes() {
    let remote = origin();
    assert_eq!(
        Err("Invalid reference -- does not begin with refs/".to_string()),
        remote.generate_refspec("heads/master", true)
    );
    assert_eq!(
        Err("Invalid reference -- does not begin with refs/".to_string()),
        remote.generate_refspec("refsx/master", true)
    );
    let anonymous = Remote { name: None, refspecs: vec![] };
    assert_eq!(
        Err("Un-named remote".to_string()),
        anonymous.generate_refspec("refs/heads/master", true)
    );
    for src in ["refs", "", "ref", "refs!x", "Refs/heads/master"].iter() {
        assert_eq!(
            Err("Invalid reference -- does not begin with refs/".to_string()),
            remote.generate_refspec(src, false)
        );
    }
    assert_eq!(
        Ok("refs/:refs/remotes/origin/".to_string()),
        remote.generate_refspec("refs/", false)
    );
    assert_eq!(
        Ok("+refs/é/x:refs/remotes/origin/é/x".to_string()),
        remote.generate_refspec("refs/é/x", true)
    );
}

#[test]
fn refspecs_smoke_test() {
    let remote = origin();
    let refspec = remote.generate_refspec("refs/pulls/*", true).unwrap();

    let push = remote.add_refspec(&refspec, Direction::Push).unwrap().unwrap();
    let fetch = remote.add_refspec(&refspec, Direction::Fetch).unwrap().unwrap();
    assert_eq!("origin", push.remote_name);
    assert_eq!(refspec, push.refspec);
    assert_eq!(Direction::Push, push.direction);
    assert_eq!(Direction::Fetch, fetch.direction);

    // the remote as it is once both changes are made
    let remote = Remote {
        name: Some("origin".to_string()),
        refspecs: vec![
            Refspec { direction: push.direction, text: Some(push.refspec) },
            Refspec { direction: fetch.direction, text: Some(fetch.refspec) },
        ],
    };

    assert!(Remote::find_matching_refspec(remote.refspecs(), Direction::Push, &refspec).is_some());
    assert!(Remote::find_matching_refspec(remote.refspecs(), Direction::Fetch, &refspec).is_some());
    assert!(remote.add_refspec(&refspec, Direction::Push).unwrap().is_none());
    assert!(remote.add_refspec(&refspec, Direction::Fetch).unwrap().is_none());
}

#[test]
fn refspecs_are_added_once_per_missing_text() {
    let remote = Remote {
        name: Some("origin".to_string()),
        refspecs: vec![
            Refspec { direction: Direction::Fetch, text: Some("a".to_string()) },
            Refspec { direction: Direction::Push, text: Some("b".to_string()) },
            Refspec { direction: Direction::Fetch, text: None },
        ],
    };
    let changes = remote.add_refspecs(&["a", "b", "c", "b"], Direction::Fetch).unwrap();
    let texts: Vec<&str> = changes.iter().map(|c| c.refspec.as_str()).collect();
    assert_eq!(vec!["b", "c", "b"], texts);

    let anonymous = Remote { name: None, refspecs: vec![] };
    assert_eq!(Some(ErrorKind::ConfigInvalid), anonymous.add_refspec("a", Direction::Push).err());
    assert_eq!(Some(ErrorKind::ConfigInvalid), anonymous.add_refspecs(&["a"], Direction::Push).err());
    assert!(anonymous.add_refspecs(&[], Direction::Push).unwrap().is_empty());
}

#[test]
fn directions_are_eq_correctly() {
    let test_values: Vec<(Direction, Direction, bool)> = vec![
        (Direction::Fetch, Direction::Fetch, true),
        (Direction::Push, Direction::Push, true),
        (Direction::Push, Direction::Fetch, false),
        (Direction::Fetch, Direction::Push, false),
    ];

    for (left, right, expected_result) in test_values {
        assert_eq!(expected_result, Remote::direction_eq(&left, &right));
    }
}

#[test]
fn target_ref_is_resolved_to_head_by_default() {
    let target_ref = Remote::resolve_target_ref(None, &advertised()).unwrap();
    assert_eq!("refs/heads/master", target_ref);
    let target_ref = Remote::resolve_target_ref(Some("HEAD"), &advertised()).unwrap();
    assert_eq!("refs/heads/master", target_ref);
}

#[test]
fn target_ref_is_resolved_correctly() {
    let target_ref = Some("refs/heads/master".to_string());
    let target_ref = Remote::resolve_target_ref(target_ref.as_deref(), &advertised()).unwrap();
    assert_eq!("refs/heads/master", target_ref);
}

#[test]
fn invalid_target_ref_should_error() {
    let target_ref = Some("refs/heads/unknown".to_string());
    let result = Remote::resolve_target_ref(target_ref.as_deref(), &advertised());
    assert_eq!(Err(ErrorKind::UnknownTargetRef), result);
}

#[test]
fn head_without_symbolic_target_is_not_resolved() {
    let mut heads = advertised();
    heads[0].symref_target = None;
    assert_eq!(None, Remote::resolve_head(&heads));
    assert_eq!(Err(ErrorKind::UnknownTargetRef), Remote::resolve_target_ref(None, &heads));
    assert_eq!(Err(ErrorKind::UnknownTargetRef), Remote::resolve_target_ref(None, &[]));
}

#[test]
fn heads_are_flattened() {
    let heads = advertised();
    assert_eq!("refs/heads/master", heads[0].flatten());
    assert_eq!("refs/heads/master", heads[0].flatten_clone());
    assert_eq!("refs/heads/master", heads[1].flatten());
}

#[test]
fn oids_are_parsed_and_written_in_hexadecimal() {
    let text = "78314aadffca88c53c91f8e3bea9b6d582504ba6";
    let oid = an_oid(text);
    assert_eq!(text, oid.to_string());
    assert_eq!(0x78, oid.as_bytes()[0]);
    assert_eq!(0x31, oid.as_bytes()[1]);
    assert_eq!(0xa6, oid.as_bytes()[19]);
    assert!(oid.equals(&Oid::from_bytes(*oid.as_bytes())));
    assert!(!oid.equals(&an_oid("99dbca6642980876d004188b52f01d01d48a82e0")));

    // either case is read; lower case is written
    let upper = an_oid("78314AADFFCA88C53C91F8E3BEA9B6D582504BA6");
    assert!(upper.equals(&oid));
    assert_eq!(text, upper.to_string());
}

#[test]
fn short_oids_are_padded_with_zero_digits() {
    let oid = an_oid("abc");
    assert_eq!("abc0000000000000000000000000000000000000", oid.to_string());
    assert_eq!(0xab, oid.as_bytes()[0]);
    assert_eq!(0xc0, oid.as_bytes()[1]);
    assert_eq!(0x00, oid.as_bytes()[2]);
}

#[test]
fn invalid_oids_are_refused() {
    assert_eq!(Err(ErrorKind::InvalidOid), Oid::from_str(""));
    assert_eq!(Err(ErrorKind::InvalidOid), Oid::from_str("xyz"));
    assert_eq!(
        Err(ErrorKind::InvalidOid),
        Oid::from_str("78314aadffca88c53c91f8e3bea9b6d582504ba60")
    );
    assert_eq!(Err(ErrorKind::InvalidOid), Oid::from_str("78314aadffca88c53c91f8e3bea9b6d582504bé"));
}
