use oxide_constructs::{
    Construct, ConstructError, ConstructLoader, ConstructManifest, ConstructMetrics,
    ConstructState, ConstructType, SemVer,
};

fn bare(state: ConstructState) -> Construct {
    Construct {
        manifest: ConstructManifest {
            name: "k".to_string(),
            version: SemVer::new(1, 0, 0),
            construct_type: ConstructType::Skill {
                provides: "p".to_string(),
                entry_point: "e".to_string(),
                min_compute_capability: 80,
            },
            dependencies: vec![],
            identity: None,
            description: String::new(),
            tags: vec![],
            compute_capabilities: vec![80],
        },
        repo_url: String::new(),
        git_ref: String::new(),
        state,
        ptx_cache: None,
        metrics: ConstructMetrics::default(),
    }
}

fn invalid_state_parts(e: ConstructError) -> (String, String) {
    match e {
        ConstructError::InvalidState { expected, actual } => (expected, actual),
        other => panic!("unexpected error {:?}", other),
    }
}

#[test]
fn load_builds_the_manifest_from_the_repo() {
    let loader = ConstructLoader::new();
    let c = loader.load_from_repo("SuperInstance/ternary-attention-kernel", "v2.0.0").unwrap();
    assert_eq!(c.manifest.name, "ternary-attention-kernel");
    assert_eq!(c.manifest.version, SemVer::new(2, 0, 0));
    assert_eq!(c.repo_url, "https://github.com/SuperInstance/ternary-attention-kernel.git");
    assert_eq!(c.git_ref, "v2.0.0");
    assert_eq!(c.manifest.description, "Construct from SuperInstance/ternary-attention-kernel");
    assert_eq!(c.manifest.tags, vec!["gpu".to_string(), "kernel".to_string()]);
    assert_eq!(c.manifest.compute_capabilities, vec![80, 86, 89, 90]);
    assert_eq!(
        c.manifest.construct_type,
        ConstructType::Hybrid {
            skill: "SuperInstance/ternary-attention-kernel".to_string(),
            entry_point: "kernel_main".to_string(),
            min_sm_version: 80,
            min_vram_mb: 1024,
        }
    );
    assert!(c.manifest.dependencies.is_empty());
    assert!(c.manifest.identity.is_none());
    assert!(c.ptx_cache.is_none());
    assert_eq!(c.metrics.invocations, 0);
    assert_eq!(c.state, ConstructState::Validated);
}

#[test]
fn load_without_a_slash_uses_the_whole_repo_name() {
    let c = ConstructLoader::new().load_from_repo("solo", "main").unwrap();
    assert_eq!(c.manifest.name, "solo");
    // A reference that is no version gives 0.1.0.
    assert_eq!(c.manifest.version, SemVer::new(0, 1, 0));
}

#[test]
fn load_takes_the_part_after_the_last_slash() {
    let c = ConstructLoader::new().load_from_repo("a/b/c", "v1.2.3").unwrap();
    assert_eq!(c.manifest.name, "c");
}

#[test]
fn load_with_an_empty_name_fails_validation() {
    let loader = ConstructLoader::new();
    for repo in ["org/", "", "a/b/"] {
        match loader.load_from_repo(repo, "v1.0.0") {
            Err(ConstructError::ValidationFailed(msg)) => assert_eq!(msg, "name is empty"),
            other => panic!("unexpected result {:?}", other.map(|c| c.manifest.name)),
        }
    }
}

#[test]
fn default_loader_loads_like_new() {
    let c = ConstructLoader::default().load_from_repo("x/y", "1.0.0").unwrap();
    assert_eq!(c.manifest.name, "y");
}

#[test]
fn compile_from_resolved_stores_placeholder_ptx() {
    let loader = ConstructLoader::new();
    let mut c = bare(ConstructState::Resolved);
    loader.compile(&mut c).unwrap();
    assert_eq!(c.state, ConstructState::Compiled);
    assert_eq!(c.ptx_cache, Some(vec![0u8; 64]));
}

#[test]
fn refused_compile_reports_state_and_leaves_construct() {
    let loader = ConstructLoader::new();
    let mut c = bare(ConstructState::Cached);
    let e = loader.compile(&mut c).unwrap_err();
    assert_eq!(c.state, ConstructState::Cached);
    assert!(c.ptx_cache.is_none());
    let (expected, actual) = invalid_state_parts(e);
    assert_eq!(expected, "Validated or Resolved");
    assert_eq!(actual, "Cached");
}

#[test]
fn refused_compile_of_failed_construct_quotes_the_reason() {
    let loader = ConstructLoader::new();
    let mut c = bare(ConstructState::Failed("bad \"sm\"".to_string()));
    let e = loader.compile(&mut c).unwrap_err();
    let (_, actual) = invalid_state_parts(e);
    assert_eq!(actual, "Failed(\"bad \\\"sm\\\"\")");
}

#[test]
fn deploy_without_ptx_fails_validation() {
    let loader = ConstructLoader::new();
    let mut c = bare(ConstructState::Compiled);
    match loader.deploy(&mut c) {
        Err(ConstructError::ValidationFailed(msg)) => assert_eq!(msg, "no PTX cache"),
        other => panic!("unexpected result {:?}", other),
    }
    assert_eq!(c.state, ConstructState::Compiled);
}

#[test]
fn deploy_and_unload_report_expected_states() {
    let loader = ConstructLoader::new();
    let mut c = bare(ConstructState::Validated);
    let (expected, actual) = invalid_state_parts(loader.deploy(&mut c).unwrap_err());
    assert_eq!((expected.as_str(), actual.as_str()), ("Compiled", "Validated"));
    let (expected, actual) = invalid_state_parts(loader.unload(&mut c).unwrap_err());
    assert_eq!((expected.as_str(), actual.as_str()), ("Deployed", "Validated"));
    assert_eq!(c.state, ConstructState::Validated);
}

#[test]
fn cached_construct_cannot_be_unloaded_again() {
    let loader = ConstructLoader::new();
    let mut c = bare(ConstructState::Resolved);
    loader.compile(&mut c).unwrap();
    loader.deploy(&mut c).unwrap();
    loader.unload(&mut c).unwrap();
    assert!(loader.unload(&mut c).is_err());
    assert!(loader.deploy(&mut c).is_err());
    assert_eq!(c.state, ConstructState::Cached);
}

#[test]
fn state_debug_text_names_the_state() {
    assert_eq!(ConstructState::Discovered.debug_text(), "Discovered");
    assert_eq!(ConstructState::Deployed.debug_text(), "Deployed");
    assert_eq!(ConstructState::Failed("x".to_string()).debug_text(), "Failed(\"x\")");
}

#[test]
fn error_messages() {
    let s = |x: &str| x.to_string();
    assert_eq!(
        ConstructError::GitCloneFailed { repo: s("r"), reason: s("net") }.to_string(),
        "git clone failed for r: net"
    );
    assert_eq!(
        ConstructError::ManifestParseFailed { repo: s("r"), reason: s("toml") }.to_string(),
        "manifest parse failed for r: toml"
    );
    assert_eq!(ConstructError::ValidationFailed(s("m")).to_string(), "validation failed: m");
    assert_eq!(
        ConstructError::IdentityVerificationFailed { did: s("d"), reason: s("sig") }.to_string(),
        "identity verification failed for d: sig"
    );
    assert_eq!(
        ConstructError::DependencyNotFound { repo: s("r"), version: s("1.0.0") }.to_string(),
        "dependency not found: r @ 1.0.0"
    );
    assert_eq!(ConstructError::CompilationFailed { reason: s("c") }.to_string(), "compilation failed: c");
    assert_eq!(ConstructError::DeploymentFailed { reason: s("d") }.to_string(), "deployment failed: d");
    assert_eq!(
        ConstructError::InvalidState { expected: s("Compiled"), actual: s("Cached") }.to_string(),
        "invalid state: expected Compiled, got Cached"
    );
}

#[test]
fn clone_keeps_every_field() {
    let mut c = bare(ConstructState::Failed("why".to_string()));
    c.ptx_cache = Some(vec![1, 2, 3]);
    c.manifest.tags = vec!["a".to_string()];
    let d = c.clone();
    assert_eq!(d.state, c.state);
    assert_eq!(d.ptx_cache, c.ptx_cache);
    assert_eq!(d.manifest.tags, c.manifest.tags);
    assert_eq!(d.manifest.name, c.manifest.name);
    assert_eq!(d.manifest.construct_type, c.manifest.construct_type);
}

#[test]
fn parse_manifest_is_always_ok() {
    let loader = ConstructLoader::new();
    let m = loader.parse_manifest("org/", "nope").unwrap();
    assert_eq!(m.name, "");
    assert_eq!(m.version, SemVer::new(0, 1, 0));
    assert_eq!(m.description, "Construct from org/");
    let m = loader.parse_manifest("org/k", "v3.2.1").unwrap();
    assert_eq!(m.name, "k");
    assert_eq!(m.version, SemVer::new(3, 2, 1));
}

#[test]
fn validate_manifest_reports_name_first() {
    let loader = ConstructLoader::new();
    let mut c = bare(ConstructState::Discovered);
    assert!(loader.validate_manifest(&c.manifest).is_ok());
    c.manifest.compute_capabilities = vec![];
    match loader.validate_manifest(&c.manifest) {
        Err(ConstructError::ValidationFailed(msg)) => assert_eq!(msg, "no compute capabilities declared"),
        other => panic!("unexpected result {:?}", other),
    }
    c.manifest.name = String::new();
    match loader.validate_manifest(&c.manifest) {
        Err(ConstructError::ValidationFailed(msg)) => assert_eq!(msg, "name is empty"),
        other => panic!("unexpected result {:?}", other),
    }
}
