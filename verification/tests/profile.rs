use paintbrush::profile::{list, register, remove, resolve, set_default, ProfileError, ProfilesFile};

#[test]
fn the_first_profile_becomes_the_default() {
    let mut f = ProfilesFile::new();
    register(&mut f, "work");
    assert_eq!(f.default.as_deref(), Some("work"));
    register(&mut f, "home");
    assert_eq!(f.default.as_deref(), Some("work"));
    assert_eq!(f.profiles, vec!["home".to_string(), "work".to_string()]);
    assert_eq!(resolve(None, f.default.clone()), Ok("work".to_string()));
}

#[test]
fn registering_twice_changes_nothing() {
    let mut f = ProfilesFile::new();
    register(&mut f, "b");
    register(&mut f, "a");
    register(&mut f, "b");
    assert_eq!(f.profiles, vec!["a".to_string(), "b".to_string()]);
    assert_eq!(f.default.as_deref(), Some("b"));
}

#[test]
fn removing_clears_the_default() {
    let mut f = ProfilesFile::new();
    register(&mut f, "work");
    register(&mut f, "home");
    assert_eq!(remove(&mut f, "nope"), Err(ProfileError::NoSuchProfile { name: "nope".into() }));
    assert_eq!(remove(&mut f, "work"), Ok(()));
    assert_eq!(f.default, None);
    assert_eq!(f.profiles, vec!["home".to_string()]);
    assert!(!f.contains("work"));
    assert_eq!(resolve(None, f.default.clone()), Err(ProfileError::NoDefault));
    // With no default left, a new profile does not become the default.
    register(&mut f, "home");
    assert_eq!(f.default, None);
}

#[test]
fn set_default_needs_a_known_profile() {
    let mut f = ProfilesFile::from_parts(None, vec!["z".into(), "a".into(), "z".into()]);
    assert_eq!(f.profiles, vec!["a".to_string(), "z".to_string()]);
    assert_eq!(
        set_default(&mut f, "m").err().unwrap().message(),
        "no such profile: m"
    );
    assert_eq!(set_default(&mut f, "z"), Ok(()));
    assert_eq!(resolve(None, f.default.clone()), Ok("z".to_string()));
    assert_eq!(resolve(Some("a"), f.default.clone()), Ok("a".to_string()));
}

#[test]
fn listing_marks_the_default() {
    let mut f = ProfilesFile::new();
    assert_eq!(
        list(&f, &vec![]),
        vec!["No profiles configured; run `paintbrush login --domain <domain>`.".to_string()]
    );
    register(&mut f, "work");
    register(&mut f, "home");
    assert_eq!(
        list(&f, &vec![None, Some("canvas.example".to_string())]),
        vec!["  home\t?".to_string(), "* work\tcanvas.example".to_string()]
    );
    assert_eq!(
        ProfileError::NoDefault.message(),
        "no default profile set and no --profile given; run `paintbrush login --domain <domain>` or `paintbrush profile default <name>`"
    );
}

#[test]
fn removing_a_new_profile_undoes_registering_it() {
    let mut f = ProfilesFile::new();
    register(&mut f, "work");
    register(&mut f, "home");
    register(&mut f, "lab");
    assert_eq!(remove(&mut f, "lab"), Ok(()));
    assert_eq!(f.profiles, vec!["home".to_string(), "work".to_string()]);
    assert_eq!(f.default.as_deref(), Some("work"));

    let mut g = ProfilesFile::new();
    register(&mut g, "solo");
    assert_eq!(remove(&mut g, "solo"), Ok(()));
    assert!(g.profiles.is_empty());
    assert_eq!(g.default, None);
}
