use oxide_constructs::{
    Construct, ConstructManifest, ConstructMetrics, ConstructRegistry, ConstructState,
    ConstructType, SemVer,
};

fn make(name: &str, version: SemVer, kind: u8, state: ConstructState, tags: &[&str]) -> Construct {
    let construct_type = match kind {
        0 => ConstructType::Skill {
            provides: "p".to_string(),
            entry_point: "e".to_string(),
            min_compute_capability: 70,
        },
        1 => ConstructType::Equipment {
            min_sm_version: 80,
            min_vram_mb: 1,
            requires_tensor_cores: false,
            requires_unified_memory: false,
        },
        _ => ConstructType::Hybrid {
            skill: "s".to_string(),
            entry_point: "e".to_string(),
            min_sm_version: 80,
            min_vram_mb: 1,
        },
    };
    Construct {
        manifest: ConstructManifest {
            name: name.to_string(),
            version,
            construct_type,
            dependencies: vec![],
            identity: None,
            description: format!("{} {}", name, version.to_string()),
            tags: tags.iter().map(|t| t.to_string()).collect(),
            compute_capabilities: vec![80],
        },
        repo_url: String::new(),
        git_ref: String::new(),
        state,
        ptx_cache: None,
        metrics: ConstructMetrics::default(),
    }
}

#[test]
fn register_replaces_under_the_same_name() {
    let mut r = ConstructRegistry::new();
    r.register(make("a", SemVer::new(1, 0, 0), 0, ConstructState::Discovered, &[]));
    r.register(make("a", SemVer::new(0, 9, 0), 0, ConstructState::Discovered, &[]));
    assert_eq!(r.len(), 1);
    assert_eq!(r.get("a").unwrap().manifest.version, SemVer::new(0, 9, 0));
    r.register(make("b", SemVer::new(1, 0, 0), 0, ConstructState::Discovered, &[]));
    assert_eq!(r.len(), 2);
}

#[test]
fn unregister_hands_back_and_forgets() {
    let mut r = ConstructRegistry::default();
    r.register(make("a", SemVer::new(1, 0, 0), 0, ConstructState::Discovered, &[]));
    r.register(make("b", SemVer::new(2, 0, 0), 0, ConstructState::Discovered, &[]));
    let c = r.unregister("a").unwrap();
    assert_eq!(c.manifest.name, "a");
    assert!(r.get("a").is_none());
    assert!(r.unregister("a").is_none());
    assert_eq!(r.len(), 1);
    assert!(r.get("b").is_some());
    r.unregister("b");
    assert!(r.is_empty());
}

#[test]
fn get_mut_edits_in_place_under_the_old_id() {
    let mut r = ConstructRegistry::new();
    r.register(make("a", SemVer::new(1, 0, 0), 0, ConstructState::Discovered, &[]));
    {
        let c = r.get_mut("a").unwrap();
        c.state = ConstructState::Deployed;
        c.manifest.name = "renamed".to_string();
    }
    assert!(r.get_mut("zzz").is_none());
    assert_eq!(r.get("a").unwrap().state, ConstructState::Deployed);
    assert!(r.get("renamed").is_none());
    assert_eq!(r.list_deployed().len(), 1);
}

#[test]
fn list_by_type_matches_the_kind_only() {
    let mut r = ConstructRegistry::new();
    r.register(make("s1", SemVer::new(1, 0, 0), 0, ConstructState::Discovered, &[]));
    r.register(make("e1", SemVer::new(1, 0, 0), 1, ConstructState::Discovered, &[]));
    r.register(make("s2", SemVer::new(1, 0, 0), 0, ConstructState::Discovered, &[]));
    let filter = ConstructType::Skill {
        provides: "other".to_string(),
        entry_point: "x".to_string(),
        min_compute_capability: 1,
    };
    let mut names: Vec<String> = r.list_by_type(&filter).iter().map(|c| c.manifest.name.clone()).collect();
    names.sort();
    assert_eq!(names, vec!["s1".to_string(), "s2".to_string()]);
    let hybrid = ConstructType::Hybrid {
        skill: String::new(),
        entry_point: String::new(),
        min_sm_version: 0,
        min_vram_mb: 0,
    };
    assert!(r.list_by_type(&hybrid).is_empty());
}

#[test]
fn search_by_tags_matches_any_tag() {
    let mut r = ConstructRegistry::new();
    r.register(make("a", SemVer::new(1, 0, 0), 0, ConstructState::Discovered, &["x", "y"]));
    r.register(make("b", SemVer::new(1, 0, 0), 0, ConstructState::Discovered, &["z"]));
    r.register(make("c", SemVer::new(1, 0, 0), 0, ConstructState::Discovered, &[]));
    assert_eq!(r.search_by_tags(&["y".to_string(), "z".to_string()]).len(), 2);
    assert_eq!(r.search_by_tags(&["z".to_string()]).len(), 1);
    assert!(r.search_by_tags(&[]).is_empty());
}

#[test]
fn merge_keeps_the_newer_version_and_adds_new_ids() {
    let mut r1 = ConstructRegistry::new();
    let mut r2 = ConstructRegistry::new();
    r1.register(make("k", SemVer::new(1, 5, 0), 0, ConstructState::Discovered, &[]));
    r1.register(make("only1", SemVer::new(1, 0, 0), 0, ConstructState::Discovered, &[]));
    r2.register(make("k", SemVer::new(1, 4, 9), 0, ConstructState::Deployed, &[]));
    r2.register(make("only2", SemVer::new(3, 0, 0), 0, ConstructState::Discovered, &[]));
    r1.merge(&r2);
    assert_eq!(r1.len(), 3);
    assert_eq!(r1.get("k").unwrap().manifest.version, SemVer::new(1, 5, 0));
    assert_eq!(r1.get("k").unwrap().state, ConstructState::Discovered);
    assert_eq!(r1.get("only2").unwrap().manifest.version, SemVer::new(3, 0, 0));
    // r2 is unchanged
    assert_eq!(r2.len(), 2);
}

#[test]
fn merge_tie_keeps_the_receivers_construct() {
    let mut r1 = ConstructRegistry::new();
    let mut r2 = ConstructRegistry::new();
    r1.register(make("k", SemVer::new(1, 0, 0), 0, ConstructState::Discovered, &[]));
    r2.register(make("k", SemVer::new(1, 0, 0), 0, ConstructState::Deployed, &[]));
    r1.merge(&r2);
    assert_eq!(r1.get("k").unwrap().state, ConstructState::Discovered);
}

#[test]
fn merge_into_itself_changes_nothing() {
    let mut r1 = ConstructRegistry::new();
    r1.register(make("k", SemVer::new(1, 0, 0), 0, ConstructState::Discovered, &[]));
    let copy = {
        let mut c = ConstructRegistry::new();
        c.register(make("k", SemVer::new(1, 0, 0), 0, ConstructState::Discovered, &[]));
        c
    };
    r1.merge(&copy);
    assert_eq!(r1.len(), 1);
    assert_eq!(r1.get("k").unwrap().manifest.version, SemVer::new(1, 0, 0));
}

#[test]
fn merge_order_of_three_registries_does_not_matter() {
    let build = |v: SemVer, tag: &str| {
        let mut r = ConstructRegistry::new();
        r.register(make("k", v, 0, ConstructState::Discovered, &[tag]));
        r
    };
    // (a merge b) merge c
    let mut left = build(SemVer::new(1, 0, 0), "a");
    left.merge(&build(SemVer::new(3, 0, 0), "b"));
    left.merge(&build(SemVer::new(2, 0, 0), "c"));
    // a merge (b merge c)
    let mut bc = build(SemVer::new(3, 0, 0), "b");
    bc.merge(&build(SemVer::new(2, 0, 0), "c"));
    let mut right = build(SemVer::new(1, 0, 0), "a");
    right.merge(&bc);
    assert_eq!(left.get("k").unwrap().manifest.tags, right.get("k").unwrap().manifest.tags);
    assert_eq!(left.get("k").unwrap().manifest.tags, vec!["b".to_string()]);
}

#[test]
fn clone_of_a_registry_holds_the_same_constructs() {
    let mut r = ConstructRegistry::new();
    r.register(make("a", SemVer::new(1, 0, 0), 0, ConstructState::Deployed, &["t"]));
    r.register(make("b", SemVer::new(2, 0, 0), 1, ConstructState::Discovered, &[]));
    let mut c = r.clone();
    assert_eq!(c.len(), 2);
    assert_eq!(c.get("b").unwrap().manifest.version, SemVer::new(2, 0, 0));
    assert_eq!(c.list_deployed().len(), 1);
    c.unregister("a");
    assert!(r.get("a").is_some());
}

#[test]
fn entries_stay_keyed_by_their_own_names() {
    let mut r1 = ConstructRegistry::new();
    let mut r2 = ConstructRegistry::new();
    r1.register(make("a", SemVer::new(1, 0, 0), 0, ConstructState::Discovered, &[]));
    r1.register(make("b", SemVer::new(1, 0, 0), 0, ConstructState::Discovered, &[]));
    r2.register(make("b", SemVer::new(2, 0, 0), 0, ConstructState::Discovered, &[]));
    r2.register(make("c", SemVer::new(1, 0, 0), 0, ConstructState::Discovered, &[]));
    r1.unregister("a");
    r1.merge(&r2);
    for n in ["b", "c"] {
        assert_eq!(r1.get(n).unwrap().manifest.name, n);
    }
    assert!(r1.get("a").is_none());
}
