use vstd::prelude::*;

use crate::construct::{
    Construct, ConstructError, ConstructManifest, ConstructMetrics, ConstructState,
    ConstructType, ConstructView, ManifestView, state_debug_spec,
};
use crate::semver::{parse_spec, SemVer};
use crate::text::{chars_of, push_char};

verus! {

/// The part of `s` after its last `/` (all of `s` when it has none), as
/// the last piece of `s.split('/')`.
pub open spec fn last_segment(s: Seq<char>) -> Seq<char>
    decreases s.len(),
{
    if s.len() == 0 {
        Seq::<char>::empty()
    } else if s.last() == '/' {
        Seq::<char>::empty()
    } else {
        last_segment(s.drop_last()).push(s.last())
    }
}

/// The version read from a git reference, `0.1.0` when it is no version.
pub open spec fn ref_version(git_ref: Seq<char>) -> SemVer {
    match parse_spec(git_ref) {
        Some(v) => v,
        None => SemVer { major: 0, minor: 1, patch: 0 },
    }
}

/// The manifest that loading `repo` at `git_ref` declares.
pub open spec fn manifest_for(repo: Seq<char>, git_ref: Seq<char>, m: ManifestView) -> bool {
    &&& m.name@ == last_segment(repo)
    &&& m.version == ref_version(git_ref)
    &&& m.construct_type matches ConstructType::Hybrid {
        skill,
        entry_point,
        min_sm_version,
        min_vram_mb,
    } && skill@ == repo && entry_point@ == "kernel_main"@ && min_sm_version == 80
        && min_vram_mb == 1024
    &&& m.dependencies.len() == 0
    &&& m.identity is None
    &&& m.description@ == "Construct from "@ + repo
    &&& m.tags.map_values(|t: String| t@) == seq!["gpu"@, "kernel"@]
    &&& m.compute_capabilities == seq![80u32, 86u32, 89u32, 90u32]
}

/// A manifest passes validation when it has a name and declares at least
/// one compute capability.
pub open spec fn manifest_valid(m: ManifestView) -> bool {
    m.name@.len() > 0 && m.compute_capabilities.len() > 0
}

/// The PTX placeholder that compiling stores: 64 zero bytes.
pub open spec fn placeholder_ptx() -> Seq<u8> {
    Seq::new(64, |i: int| 0u8)
}

pub open spec fn compile_allowed(c: ConstructView) -> bool {
    c.state is Validated || c.state is Resolved
}

pub open spec fn deploy_allowed(c: ConstructView) -> bool {
    c.state is Compiled && c.ptx_cache is Some
}

pub open spec fn unload_allowed(c: ConstructView) -> bool {
    c.state is Deployed
}

/// `c` with another state.
pub open spec fn with_state(c: ConstructView, s: ConstructState) -> ConstructView {
    ConstructView {
        manifest: c.manifest,
        repo_url: c.repo_url,
        git_ref: c.git_ref,
        state: s,
        ptx_cache: c.ptx_cache,
        metrics: c.metrics,
    }
}

/// A construct after a successful compile.
pub open spec fn compiled(c: ConstructView) -> ConstructView {
    ConstructView {
        manifest: c.manifest,
        repo_url: c.repo_url,
        git_ref: c.git_ref,
        state: ConstructState::Compiled,
        ptx_cache: Some(placeholder_ptx()),
        metrics: c.metrics,
    }
}

/// The error that a refused transition reports.
pub open spec fn invalid_state(e: ConstructError, expected: Seq<char>, from: ConstructState) -> bool {
    e matches ConstructError::InvalidState { expected: x, actual } && x@ == expected
        && actual@ == state_debug_spec(from)
}

/// A construct freshly loaded and validated reaches `Cached` through
/// compile, deploy and unload, and each of these steps is allowed.
pub proof fn lemma_lifecycle(c: ConstructView)
    requires
        c.state is Validated || c.state is Resolved,
    ensures
        compile_allowed(c),
        deploy_allowed(compiled(c)),
        unload_allowed(with_state(compiled(c), ConstructState::Deployed)),
        with_state(with_state(compiled(c), ConstructState::Deployed), ConstructState::Cached).state
            is Cached,
{
}

/// From a state other than `Validated` or `Resolved` a construct cannot be
/// compiled, and it cannot be deployed unless it is compiled; in
/// particular a `Discovered` construct can take none of the three steps.
pub proof fn lemma_discovered_is_stuck(c: ConstructView)
    requires
        c.state is Discovered,
    ensures
        !compile_allowed(c),
        !deploy_allowed(c),
        !unload_allowed(c),
{
}

/// Each step has its own starting states: compile from `Validated` or
/// `Resolved`, deploy from `Compiled` with PTX present, unload from
/// `Deployed` only. So no construct can take two different steps, a
/// compiled construct cannot be unloaded before it is deployed, and an
/// unloaded one cannot be unloaded or deployed again.
pub proof fn lemma_steps_start_from_their_own_states(c: ConstructView)
    ensures
        unload_allowed(c) ==> c.state is Deployed,
        compile_allowed(c) ==> (c.state is Validated || c.state is Resolved),
        deploy_allowed(c) ==> c.state is Compiled,
        !(compile_allowed(c) && deploy_allowed(c)),
        !(compile_allowed(c) && unload_allowed(c)),
        !(deploy_allowed(c) && unload_allowed(c)),
        !unload_allowed(compiled(c)),
        !unload_allowed(with_state(c, ConstructState::Cached)),
        !deploy_allowed(with_state(c, ConstructState::Cached)),
        !compile_allowed(with_state(c, ConstructState::Deployed)),
{
}

/// The construct loader — loads constructs from git repositories.
pub struct ConstructLoader {
    /// Cache directory for cloned repos.
    cache_dir: String,
    /// Whether to verify identities.
    verify_identity: bool,
}

/// The zero metrics of a new construct.
pub open spec fn zero_metrics(m: ConstructMetrics) -> bool {
    m.invocations == 0 && m.total_time_us == 0 && m.peak_memory_bytes == 0 && m.errors == 0
        && m.last_invocation_ms == 0
}

impl ConstructLoader {
    pub closed spec fn cache_dir(&self) -> Seq<char> {
        self.cache_dir@
    }

    pub closed spec fn verifies_identity(&self) -> bool {
        self.verify_identity
    }

    pub fn new() -> (r: Self)
        ensures
            r.cache_dir() == "/tmp/oxide-constructs"@,
            r.verifies_identity(),
    {
        Self { cache_dir: "/tmp/oxide-constructs".to_owned(), verify_identity: true }
    }

    /// Load a construct from a git repository: its manifest is read and
    /// validated, and the construct starts out `Validated`.
    pub fn load_from_repo(&self, repo: &str, git_ref: &str) -> (r: Result<Construct, ConstructError>)
        ensures
            r is Ok <==> last_segment(repo@).len() > 0,
            match r {
                Ok(c) => {
                    &&& manifest_for(repo@, git_ref@, c.manifest@)
                    &&& c.repo_url@ == "https://github.com/"@ + repo@ + ".git"@
                    &&& c.git_ref@ == git_ref@
                    &&& c.state is Validated
                    &&& c.ptx_cache is None
                    &&& zero_metrics(c.metrics)
                },
                Err(e) => e matches ConstructError::ValidationFailed(msg) && msg@
                    == "name is empty"@,
            },
    {
        let manifest = match self.parse_manifest(repo, git_ref) {
            Ok(m) => m,
            Err(e) => {
                return Err(e);
            },
        };
        match self.validate_manifest(&manifest) {
            Ok(()) => {},
            Err(e) => {
                return Err(e);
            },
        }
        let mut repo_url = "https://github.com/".to_owned();
        repo_url.append(repo);
        repo_url.append(".git");
        Ok(
            Construct {
                manifest,
                repo_url,
                git_ref: git_ref.to_owned(),
                state: ConstructState::Validated,
                ptx_cache: None,
                metrics: ConstructMetrics::default(),
            },
        )
    }

    /// The name of the repository: what follows its last `/`.
    fn repo_name(repo: &str) -> (r: String)
        ensures
            r@ == last_segment(repo@),
    {
        let t = chars_of(repo);
        let mut seg = "".to_owned();
        proof {
            reveal_strlit("");
            assert(t@.take(0) =~= Seq::<char>::empty());
        }
        let mut i: usize = 0;
        while i < t.len()
            invariant
                i <= t@.len(),
                seg@ == last_segment(t@.take(i as int)),
            decreases t@.len() - i,
        {
            assert(t@.take(i + 1).drop_last() =~= t@.take(i as int));
            if t[i] == '/' {
                seg = "".to_owned();
                proof {
                    reveal_strlit("");
                }
            } else {
                push_char(&mut seg, t[i]);
            }
            i = i + 1;
        }
        assert(t@.take(t@.len() as int) =~= t@);
        seg
    }

    /// The manifest that `repo` at `git_ref` declares: named after the part
    /// of `repo` after its last `/`, versioned by `git_ref` (0.1.0 when that
    /// is no version), a hybrid construct with fixed requirements.
    pub fn parse_manifest(&self, repo: &str, git_ref: &str) -> (r: Result<
        ConstructManifest,
        ConstructError,
    >)
        ensures
            r matches Ok(m) && manifest_for(repo@, git_ref@, m@),
    {
        // The manifest is derived from the repository's name and reference.
        let name = Self::repo_name(repo);
        let version = match SemVer::parse(git_ref) {
            Some(v) => v,
            None => SemVer::new(0, 1, 0),
        };
        let mut description = "Construct from ".to_owned();
        description.append(repo);
        let mut tags: Vec<String> = Vec::new();
        tags.push("gpu".to_owned());
        tags.push("kernel".to_owned());
        let mut caps: Vec<u32> = Vec::new();
        caps.push(80);
        caps.push(86);
        caps.push(89);
        caps.push(90);
        let m = ConstructManifest {
            name,
            version,
            construct_type: ConstructType::Hybrid {
                skill: repo.to_owned(),
                entry_point: "kernel_main".to_owned(),
                min_sm_version: 80,
                min_vram_mb: 1024,
            },
            dependencies: Vec::new(),
            identity: None,
            description,
            tags,
            compute_capabilities: caps,
        };
        assert(m@.tags.map_values(|t: String| t@) =~= seq!["gpu"@, "kernel"@]);
        assert(m@.compute_capabilities =~= seq![80u32, 86u32, 89u32, 90u32]);
        Ok(m)
    }

    /// Checks that a manifest has a name and declares at least one compute
    /// capability; a missing name is reported first.
    pub fn validate_manifest(&self, manifest: &ConstructManifest) -> (r: Result<(), ConstructError>)
        ensures
            r is Ok <==> manifest_valid(manifest@),
            r matches Err(e) ==> e matches ConstructError::ValidationFailed(msg) && (if manifest.name@.len()
                == 0 {
                msg@ == "name is empty"@
            } else {
                msg@ == "no compute capabilities declared"@
            }),
    {
        if manifest.name.as_str().is_empty() {
            return Err(ConstructError::ValidationFailed("name is empty".to_owned()));
        }
        if manifest.compute_capabilities.len() == 0 {
            return Err(
                ConstructError::ValidationFailed("no compute capabilities declared".to_owned()),
            );
        }
        Ok(())
    }

    /// Compile a validated (or resolved) construct to PTX.
    pub fn compile(&self, construct: &mut Construct) -> (r: Result<(), ConstructError>)
        ensures
            r is Ok <==> compile_allowed(old(construct)@),
            r is Ok ==> final(construct)@ == compiled(old(construct)@),
            r matches Err(e) ==> final(construct)@ == old(construct)@ && invalid_state(
                e,
                "Validated or Resolved"@,
                old(construct).state,
            ),
    {
        match construct.state {
            ConstructState::Validated | ConstructState::Resolved => {},
            _ => {
                return Err(
                    ConstructError::InvalidState {
                        expected: "Validated or Resolved".to_owned(),
                        actual: construct.state.debug_text(),
                    },
                );
            },
        }
        let mut ptx: Vec<u8> = Vec::new();
        let mut i: usize = 0;
        while i < 64
            invariant
                i <= 64,
                ptx@ == Seq::new(i as nat, |j: int| 0u8),
            decreases 64 - i,
        {
            ptx.push(0u8);
            i = i + 1;
            assert(ptx@ =~= Seq::new(i as nat, |j: int| 0u8));
        }
        construct.ptx_cache = Some(ptx);
        construct.state = ConstructState::Compiled;
        Ok(())
    }

    /// Deploy a compiled construct to the GPU.
    pub fn deploy(&self, construct: &mut Construct) -> (r: Result<(), ConstructError>)
        ensures
            r is Ok <==> deploy_allowed(old(construct)@),
            r is Ok ==> final(construct)@ == with_state(old(construct)@, ConstructState::Deployed),
            r matches Err(e) ==> final(construct)@ == old(construct)@ && if old(construct).state is Compiled {
                e matches ConstructError::ValidationFailed(msg) && msg@ == "no PTX cache"@
            } else {
                invalid_state(e, "Compiled"@, old(construct).state)
            },
    {
        if !matches!(construct.state, ConstructState::Compiled) {
            return Err(
                ConstructError::InvalidState {
                    expected: "Compiled".to_owned(),
                    actual: construct.state.debug_text(),
                },
            );
        }
        if construct.ptx_cache.is_none() {
            return Err(ConstructError::ValidationFailed("no PTX cache".to_owned()));
        }
        construct.state = ConstructState::Deployed;
        Ok(())
    }

    /// Unload a deployed construct from the GPU; it stays cached.
    pub fn unload(&self, construct: &mut Construct) -> (r: Result<(), ConstructError>)
        ensures
            r is Ok <==> unload_allowed(old(construct)@),
            r is Ok ==> final(construct)@ == with_state(old(construct)@, ConstructState::Cached),
            r matches Err(e) ==> final(construct)@ == old(construct)@ && invalid_state(
                e,
                "Deployed"@,
                old(construct).state,
            ),
    {
        if !matches!(construct.state, ConstructState::Deployed) {
            return Err(
                ConstructError::InvalidState {
                    expected: "Deployed".to_owned(),
                    actual: construct.state.debug_text(),
                },
            );
        }
        construct.state = ConstructState::Cached;
        Ok(())
    }
}

impl Default for ConstructLoader {
    fn default() -> (r: Self)
        ensures
            r.cache_dir() == "/tmp/oxide-constructs"@,
            r.verifies_identity(),
    {
        Self::new()
    }
}

} // verus!
