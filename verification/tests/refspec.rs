use fusionner::refspec::RefspecStr;

#[test]
fn refspec_str_constructed_from_str_correctly() {
    let refspec = "refs/heads/master:refs/remotes/origin/heads/master";
    let r = RefspecStr::from_str(refspec);

    assert_eq!(refspec, r.refspec());
    assert_eq!(false, r.force());
    assert_eq!(refspec, r.to_string());

    assert_eq!("refs/heads/master", r.src());
    assert_eq!("refs/remotes/origin/heads/master", r.dest().unwrap());
}

#[test]
fn forced_refspec_str_constructed_from_str_correctly() {
    let refspec = "refs/heads/master:refs/remotes/origin/heads/master";
    let forced_refspec = format!("+{}", refspec);
    let r = RefspecStr::from_str(&forced_refspec);

    assert_eq!(refspec, r.refspec());
    assert_eq!(true, r.force());
    assert_eq!(forced_refspec, r.to_string());

    assert_eq!("refs/heads/master", r.src());
    assert_eq!("refs/remotes/origin/heads/master", r.dest().unwrap());
}

#[test]
fn refspec_without_dest_works_correctly() {
    let refspec = "refs/heads/master";
    let r = RefspecStr::from_str(refspec);

    assert_eq!(refspec, r.refspec());
    assert_eq!(false, r.force());
    assert_eq!(refspec, r.to_string());

    assert_eq!("refs/heads/master", r.src());
    assert!(r.dest().is_none());
}

#[test]
fn refspec_str_forced_works_correctly() {
    let refspec = "refs/heads/master:refs/remotes/origin/heads/master";
    let r = RefspecStr::as_forced(refspec);
    assert_eq!("+refs/heads/master:refs/remotes/origin/heads/master", r.to_string());

    let refspec = "+refs/heads/master:refs/remotes/origin/heads/master";
    let r = RefspecStr::as_forced(refspec);
    assert_eq!("+refs/heads/master:refs/remotes/origin/heads/master", r.to_string());
}

#[test]
fn refspec_round_trips() {
    for text in ["", "+", ":", "+:", "a", "+a", "a:b", "+a:b", "a:b:c", "++a", "refs/heads/*:refs/x/*"]
        .iter()
    {
        let r = RefspecStr::from_str(text);
        assert_eq!(*text, r.to_string());
    }
}

#[test]
fn forcing_is_idempotent() {
    for text in ["", "+", "a", "+a", "a:b", "+a:b", "++a"].iter() {
        let once = RefspecStr::as_forced(text);
        assert_eq!(once, RefspecStr::as_forced(&once));
        assert!(RefspecStr::from_str(&once).force());
    }
    assert_eq!("+", RefspecStr::as_forced(""));
    assert_eq!("++a", RefspecStr::as_forced("++a"));
}

#[test]
fn refspec_parts_are_split_at_the_first_colon() {
    let r = RefspecStr::from_str("+a:b:c");
    assert_eq!("a", r.src());
    assert_eq!(Some("b:c".to_string()), r.dest());
    assert_eq!(Some(1), r.separator_index());
    assert_eq!(RefspecStr::from_str("+a:b:c"), r);
    assert!(RefspecStr::from_str("a:b:c") != r);
    let r = RefspecStr::from_str("é:b");
    assert_eq!(Some(2), r.separator_index());
    assert_eq!("é", r.src());
    assert_eq!(Some("b".to_string()), r.dest());
    let mut r = RefspecStr::from_str("a:");
    assert_eq!(Some("".to_string()), r.dest());
    r.set_force(true);
    assert_eq!("+a:", r.to_string());
    r.set_force(false);
    assert_eq!("a:", r.to_string());
    assert_eq!(None, RefspecStr::from_str("a").separator_index());
}
