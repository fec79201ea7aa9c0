use beamcli::error::BeamError;
use beamcli::error::Failure;
use beamcli::utils::config::Config;
use beamcli::utils::profile::Profile;
use beamcli::utils::profiles::Profiles;

fn profile(
    name: &str,
    priority: Option<i32>,
    default: bool,
    host_pattern: Option<&str>,
) -> Profile {
    Profile {
        name: name.to_owned(),
        priority,
        config: Config {
            username: Some(name.to_owned()),
            auth: Some(name.to_owned()),
            proxy: Some(name.to_owned()),
            cache_ttl: Some(60),
            label_whitelist: Some(vec![name.to_owned()]),
            enable_port_forwarding: Some(false),
            listen_port: None,
            remote_port: None,
            remote_host: None,
        },
        default,
        host_pattern: host_pattern.map(|p| p.to_string()),
    }
}

#[test]
fn test_verify_profiles_integrity() {
    let valid_profiles = [
        Profile {
            name: "test".to_owned(),
            priority: Some(0),
            config: Config {
                username: Some("test".to_owned()),
                auth: Some("test".to_owned()),
                proxy: Some("test".to_owned()),
                cache_ttl: Some(60),
                label_whitelist: Some(vec!["test".to_owned()]),
                enable_port_forwarding: Some(false),
                listen_port: None,
                remote_port: None,
                remote_host: None,
            },
            default: true,
            host_pattern: None,
        },
        Profile {
            name: "test2".to_owned(),
            priority: Some(1),
            config: Config {
                username: Some("test2".to_owned()),
                auth: Some("test2".to_owned()),
                proxy: Some("test2".to_owned()),
                cache_ttl: Some(60),
                label_whitelist: Some(vec!["test2".to_owned()]),
                enable_port_forwarding: Some(true),
                listen_port: Some(3306),
                remote_port: Some(3306),
                remote_host: Some("127.0.0.1".to_string()),
            },
            default: false,
            host_pattern: None,
        },
    ];
    let invalid_profiles = [
        Profile {
            name: "test".to_owned(),
            priority: Some(1),
            config: Config {
                username: Some("test".to_owned()),
                auth: Some("test".to_owned()),
                proxy: Some("test".to_owned()),
                cache_ttl: Some(60),
                label_whitelist: Some(vec!["test".to_owned()]),
                enable_port_forwarding: Some(false),
                listen_port: None,
                remote_port: None,
                remote_host: None,
            },
            default: true,
            host_pattern: None,
        },
        Profile {
            name: "test2".to_owned(),
            priority: Some(0),
            config: Config {
                username: Some("test2".to_owned()),
                auth: Some("test2".to_owned()),
                proxy: Some("test2".to_owned()),
                cache_ttl: Some(60),
                label_whitelist: Some(vec!["test2".to_owned()]),
                enable_port_forwarding: Some(true),
                listen_port: Some(3306),
                remote_port: Some(3306),
                remote_host: Some("127.0.0.1".to_string()),
            },
            default: true,
            host_pattern: None,
        },
    ];

    assert!(Profiles::verify_profiles_integrity(&valid_profiles).is_ok());
    assert!(Profiles::verify_profiles_integrity(&invalid_profiles).is_err());
    assert!(Profiles::verify_profiles_integrity(&[]).is_err());
}

#[test]
fn test_get_names() {
    let profiles = [
        profile("test", Some(1), true, None),
        profile("test2", Some(0), false, None),
    ];
    let expected_names = vec!["test (default)", "test2"];
    assert_eq!(Profiles::get_names(&profiles).unwrap(), expected_names);
    assert_eq!(Profiles::get_names(&[]).unwrap(), Vec::<String>::from([]));
}

#[test]
fn test_get_matching_with_priority() {
    let hostname = "quality.app.example.com";
    let expected_profile = profile("test", Some(0), true, Some(r#"\b(quality|staging)\b.*"#));
    let profiles = [
        expected_profile.clone(),
        profile("test2", Some(0), false, Some(r#"\b(dev|prod)\b.*"#)),
        profile("test3", Some(1), false, Some(r#"\b(quality|staging)\b.*"#)),
        profile("test4", None, false, Some(r#"\b(quality|staging)\b.*"#)),
    ];
    assert_eq!(
        expected_profile,
        Profiles::get_matching(hostname, profiles.to_vec())
            .unwrap()
            .unwrap()
    );
}

#[test]
fn test_get_matching_without_priority() {
    let hostname = "quality.app.example.com";
    let expected_profile = profile("test", None, true, Some(r#"\b(quality|staging)\b.*"#));
    let profiles = [
        expected_profile.clone(),
        profile("test2", None, false, Some(r#"\b(dev|prod)\b.*"#)),
    ];
    assert_eq!(
        expected_profile,
        Profiles::get_matching(hostname, profiles.to_vec())
            .unwrap()
            .unwrap()
    );
}

#[test]
fn test_get_matching_without_priority_multiple_matching() {
    let hostname = "quality.app.example.com";
    let expected_result: Option<Profile> = None;
    let profiles = [
        profile("test", None, true, Some(r#"\b(quality|staging)\b.*"#)),
        profile("test2", None, false, Some(r#"\b(quality|staging)\b.*"#)),
    ];
    assert_eq!(
        expected_result,
        Profiles::get_matching(hostname, profiles.to_vec()).unwrap()
    );
}

#[test]
fn test_get_matching_no_match() {
    let hostname = "quality.app.example.com";
    let expected_result: Option<Profile> = None;
    let profiles = [profile("test", None, false, Some(r#"\b(dev|prod)\b.*"#))];
    assert_eq!(
        expected_result,
        Profiles::get_matching(hostname, profiles.to_vec()).unwrap()
    );
}

#[test]
fn test_from_profiles() {
    let profiles = Profiles::from(vec![
        profile("test", Some(0), true, Some(r#"\b(quality|staging)\b.*"#)),
        profile("test2", Some(0), false, Some(r#"\b(quality|staging)\b.*"#)),
    ]);

    let expected_profile_vec = vec![
        profile("test", Some(0), true, Some(r#"\b(quality|staging)\b.*"#)),
        profile("test2", Some(0), false, Some(r#"\b(quality|staging)\b.*"#)),
    ];

    let profile_vec: Vec<Profile> = profiles.into();

    assert_eq!(expected_profile_vec, profile_vec);
}

#[test]
fn integrity_failures_are_told_apart() {
    let none = [profile("a", None, false, None), profile("b", None, false, None)];
    let several = [profile("a", None, true, None), profile("b", None, true, None)];
    assert_eq!(
        Profiles::verify_profiles_integrity(&none),
        Err(BeamError::NoDefaultProfile)
    );
    assert_eq!(
        Profiles::verify_profiles_integrity(&several),
        Err(BeamError::MultipleDefaultProfiles)
    );
    assert_eq!(
        Profiles::verify_profiles_integrity(&[]),
        Err(BeamError::NoProfiles)
    );
    let one = [profile("a", None, false, None), profile("b", None, true, None)];
    assert_eq!(
        Profiles::verify_profiles_integrity(&one),
        Ok(profile("b", None, true, None))
    );
}

#[test]
fn lower_priority_number_wins() {
    let first = profile("first", Some(0), true, Some("quality"));
    let second = profile("second", Some(1), false, Some("quality"));
    assert_eq!(
        Profiles::get_matching("quality.x.com", vec![first.clone(), second.clone()]).unwrap(),
        Some(first.clone())
    );
    assert_eq!(
        Profiles::get_matching("quality.x.com", vec![second, first.clone()]).unwrap(),
        Some(first)
    );
}

#[test]
fn equal_priorities_choose_the_first() {
    let a = profile("a", Some(3), false, Some("host"));
    let b = profile("b", Some(3), false, Some("host"));
    let c = profile("c", Some(7), false, Some("host"));
    assert_eq!(
        Profiles::get_matching("host-1", vec![c.clone(), a.clone(), b.clone()]).unwrap(),
        Some(a.clone())
    );
    assert_eq!(Profiles::select(&[b.clone(), c, a]), Some(b));
}

#[test]
fn negative_priority_comes_first() {
    let a = profile("a", Some(0), false, None);
    let b = profile("b", Some(-5), false, None);
    let c = profile("c", None, false, None);
    assert_eq!(Profiles::select(&[a, c, b.clone()]), Some(b));
}

#[test]
fn select_of_none_and_of_one() {
    assert_eq!(Profiles::select(&[]), None);
    let only = profile("only", None, false, None);
    assert_eq!(Profiles::select(&[only.clone()]), Some(only));
    let x = profile("x", None, false, None);
    let y = profile("y", None, false, None);
    assert_eq!(Profiles::select(&[x, y]), None);
}

#[test]
fn pattern_is_searched_not_anchored() {
    let inner = profile("inner", None, false, Some("app"));
    assert_eq!(
        Profiles::get_matching("quality.app.example.com", vec![inner.clone()]).unwrap(),
        Some(inner)
    );
    let anchored = profile("anchored", None, false, Some("^app"));
    assert_eq!(
        Profiles::get_matching("quality.app.example.com", vec![anchored]).unwrap(),
        None
    );
}

#[test]
fn profiles_without_pattern_never_match() {
    let plain = profile("plain", Some(0), true, None);
    assert_eq!(Profiles::get_matching("anything", vec![plain]).unwrap(), None);
    assert_eq!(Profiles::get_matching("anything", vec![]).unwrap(), None);
}

#[test]
fn invalid_pattern_is_an_error_wherever_it_stands() {
    let good = profile("good", Some(0), false, Some("host"));
    let bad = profile("bad", Some(1), false, Some("foo(bar"));
    assert_eq!(
        Profiles::get_matching("host", vec![good.clone(), bad.clone()]),
        Err(BeamError::InvalidPattern)
    );
    assert_eq!(
        Profiles::get_matching("host", vec![bad.clone(), good.clone()]),
        Err(BeamError::InvalidPattern)
    );
    assert_eq!(
        Profiles::matching_profiles("nothing", &[bad]),
        Err(BeamError::InvalidPattern)
    );
    assert_eq!(
        Profiles::matching_profiles("host", &[good.clone()]),
        Ok(vec![good])
    );
}

#[test]
fn resolving_twice_gives_the_same() {
    let profiles = vec![
        profile("a", Some(2), false, Some("db")),
        profile("b", Some(1), false, Some("db-0")),
        profile("c", None, true, None),
    ];
    let once = Profiles::get_matching("db-01", profiles.clone());
    let twice = Profiles::get_matching("db-01", profiles.clone());
    assert_eq!(once, twice);
    assert_eq!(once, Ok(Some(profiles[1].clone())));
}

#[test]
fn store_and_resolver_end_to_end() {
    let a = profile("A", None, true, None);
    let b = profile("B", None, false, Some("^db-"));
    let mut store = Profiles::new();
    store.write(a.clone());
    store.write(b.clone());
    let profiles = Profiles::get(Some(store)).unwrap();
    assert_eq!(profiles, vec![a, b.clone()]);
    assert_eq!(Profiles::get_matching("db-01", profiles.clone()).unwrap(), Some(b));
    assert_eq!(Profiles::get_matching("web-01", profiles).unwrap(), None);
}

#[test]
fn write_inserts_in_order_of_names_and_overwrites() {
    let mut store = Profiles::new();
    assert!(store.is_empty());
    store.write(profile("m", None, false, None));
    store.write(profile("z", None, false, None));
    store.write(profile("a", None, false, None));
    let names: Vec<&str> = store.entries().iter().map(|p| p.name.as_str()).collect();
    assert_eq!(names, vec!["a", "m", "z"]);
    store.write(profile("m", Some(9), false, Some("x")));
    assert_eq!(store.len(), 3);
    assert_eq!(store.find("m"), Some(&profile("m", Some(9), false, Some("x"))));
    assert_eq!(store.find("q"), None);
}

#[test]
fn writing_a_default_clears_every_other_default() {
    let mut store = Profiles::from(vec![
        profile("a", None, true, None),
        profile("b", None, true, None),
        profile("c", None, false, None),
    ]);
    store.write(profile("d", None, true, None));
    let defaults: Vec<&str> = store
        .entries()
        .iter()
        .filter(|p| p.default)
        .map(|p| p.name.as_str())
        .collect();
    assert_eq!(defaults, vec!["d"]);
    assert_eq!(store.len(), 4);
    store.write(profile("b", None, true, None));
    let defaults: Vec<&str> = store
        .entries()
        .iter()
        .filter(|p| p.default)
        .map(|p| p.name.as_str())
        .collect();
    assert_eq!(defaults, vec!["b"]);
    assert_eq!(store.len(), 4);
    assert_eq!(
        Profiles::get_default(Some(store)),
        Ok(profile("b", None, true, None))
    );
}

#[test]
fn writing_another_profile_keeps_the_default() {
    let mut store = Profiles::from(vec![profile("a", None, true, None)]);
    store.write(profile("b", None, false, None));
    assert_eq!(
        store.entries(),
        &vec![profile("a", None, true, None), profile("b", None, false, None)]
    );
}

#[test]
fn collecting_keeps_the_last_of_a_name() {
    let store = Profiles::from(vec![
        profile("b", Some(1), false, None),
        profile("a", None, true, None),
        profile("b", Some(2), false, None),
    ]);
    let profiles: Vec<Profile> = store.into();
    assert_eq!(
        profiles,
        vec![profile("a", None, true, None), profile("b", Some(2), false, None)]
    );
}

#[test]
fn names_are_ordered_by_code_point() {
    let store = Profiles::from(vec![
        profile("b", None, false, None),
        profile("B", None, false, None),
        profile("ab", None, false, None),
        profile("a", None, false, None),
        profile("", None, false, None),
        profile("é", None, false, None),
    ]);
    let names: Vec<&str> = store.entries().iter().map(|p| p.name.as_str()).collect();
    assert_eq!(names, vec!["", "B", "a", "ab", "b", "é"]);
}

#[test]
fn loading_fails_without_store_or_default() {
    assert_eq!(Profiles::get(None), Err(BeamError::StoreMissing));
    assert_eq!(Profiles::get_default(None), Err(BeamError::StoreMissing));
    assert_eq!(Profiles::get(Some(Profiles::new())), Err(BeamError::NoProfiles));
    let none = Profiles::from(vec![profile("a", None, false, None)]);
    assert_eq!(Profiles::get(Some(none)), Err(BeamError::NoDefaultProfile));
    let two = Profiles::from(vec![
        profile("a", None, true, None),
        profile("b", None, true, None),
    ]);
    assert_eq!(Profiles::get(Some(two)), Err(BeamError::MultipleDefaultProfiles));
    let one = Profiles::from(vec![
        profile("a", None, false, None),
        profile("b", None, true, None),
    ]);
    assert_eq!(
        Profiles::get(Some(one)),
        Ok(vec![profile("a", None, false, None), profile("b", None, true, None)])
    );
}

#[test]
fn profile_is_found_by_name() {
    let store = Profiles::from(vec![
        profile("a", None, true, None),
        profile("b", Some(4), false, None),
    ]);
    assert_eq!(Profile::get("b", &store), Ok(profile("b", Some(4), false, None)));
    assert_eq!(
        Profile::get("c", &store),
        Err(Failure::new(BeamError::ProfileNotFound, "c"))
    );
    assert_eq!(
        Profile::get("", &store),
        Err(Failure::new(BeamError::ProfileNotFound, ""))
    );
    assert_eq!(
        Profile::get("B", &store),
        Err(Failure::new(BeamError::ProfileNotFound, "B"))
    );
    assert_eq!(
        Profile::get("c", &store).unwrap_err().message(),
        "Could not find profile c"
    );
}

#[test]
fn find_named_gives_the_first() {
    let profiles = [
        profile("a", None, true, None),
        profile("b", Some(1), false, None),
        profile("b", Some(2), false, None),
    ];
    assert_eq!(Profiles::find_named(&profiles, "b"), Some(1));
    assert_eq!(Profiles::find_named(&profiles, "a"), Some(0));
    assert_eq!(Profiles::find_named(&profiles, "c"), None);
    assert_eq!(Profiles::find_named(&[], "a"), None);
}

#[test]
fn removing_a_profile() {
    let mut store = Profiles::from(vec![
        profile("a", None, true, None),
        profile("b", None, false, None),
        profile("c", None, false, None),
    ]);
    assert_eq!(
        store.remove("x", None),
        Err(Failure::new(BeamError::ProfileNotFound, "x"))
    );
    assert_eq!(
        store.remove("a", None),
        Err(Failure::new(BeamError::ReplacementRequired, "a"))
    );
    assert_eq!(
        store.remove("a", Some("a")),
        Err(Failure::new(BeamError::ReplacementRequired, "a"))
    );
    assert_eq!(
        store.remove("a", Some("x")),
        Err(Failure::new(BeamError::ProfileNotFound, "x"))
    );
    assert_eq!(store.len(), 3);
    assert_eq!(store.remove("b", None), Ok(()));
    assert_eq!(
        store.entries(),
        &vec![profile("a", None, true, None), profile("c", None, false, None)]
    );
    assert_eq!(store.remove("a", Some("c")), Ok(()));
    assert_eq!(store.entries(), &vec![profile("c", None, true, None)]);
    assert_eq!(
        store.remove("c", None),
        Err(Failure::new(BeamError::LastProfile, "c"))
    );
    assert_eq!(
        store.remove("c", Some("c")),
        Err(Failure::new(BeamError::LastProfile, "c"))
    );
    assert_eq!(store.entries(), &vec![profile("c", None, true, None)]);
}

#[test]
fn removing_a_profile_that_is_not_the_default_ignores_the_replacement() {
    let mut store = Profiles::from(vec![
        profile("a", None, true, None),
        profile("b", None, false, None),
    ]);
    assert_eq!(store.remove("b", Some("nobody")), Ok(()));
    assert_eq!(store.entries(), &vec![profile("a", None, true, None)]);
}

#[test]
fn new_profile_has_no_priority() {
    let made = Profile::new("n".to_string(), true, Some("^x".to_string()), None);
    assert_eq!(
        made,
        Profile {
            name: "n".to_string(),
            default: true,
            host_pattern: Some("^x".to_string()),
            priority: None,
            config: Config::default(),
        }
    );
    let config = Config {
        proxy: Some("p".to_string()),
        ..Config::default()
    };
    let made = Profile::new("n".to_string(), false, None, Some(config.clone()));
    assert_eq!(made.config, config);
    assert!(!made.default);
}

#[test]
fn names_for_display_keep_the_order() {
    let profiles = [
        profile("z", None, false, None),
        profile("a", None, true, None),
        profile("m", None, true, None),
    ];
    assert_eq!(
        Profiles::get_names(&profiles).unwrap(),
        vec!["z", "a (default)", "m (default)"]
    );
}
