use vstd::prelude::*;

use crate::semver::SemVer;

verus! {

/// Unique identifier for a construct.
pub type ConstructId = String;

/// The type of construct.
#[derive(Debug, PartialEq, Eq)]
pub enum ConstructType {
    /// A software skill: kernel, shader, compute graph.
    Skill {
        /// What this skill provides (e.g., "attention-forward", "reduce-sum").
        provides: String,
        /// The GPU kernel entry point.
        entry_point: String,
        /// Supported compute capabilities.
        min_compute_capability: u32,
    },
    /// A piece of equipment: hardware requirements.
    Equipment {
        /// Minimum SM version (e.g., 70, 80, 90).
        min_sm_version: u32,
        /// Minimum VRAM in MB.
        min_vram_mb: u32,
        /// Whether tensor cores are required.
        requires_tensor_cores: bool,
        /// Whether unified memory is required.
        requires_unified_memory: bool,
    },
    /// A hybrid: skill + equipment requirements bundled together.
    Hybrid { skill: String, entry_point: String, min_sm_version: u32, min_vram_mb: u32 },
}

impl Clone for ConstructType {
    fn clone(&self) -> (r: Self)
        ensures
            r == *self,
    {
        match self {
            ConstructType::Skill { provides, entry_point, min_compute_capability } => {
                ConstructType::Skill {
                    provides: provides.clone(),
                    entry_point: entry_point.clone(),
                    min_compute_capability: *min_compute_capability,
                }
            },
            ConstructType::Equipment {
                min_sm_version,
                min_vram_mb,
                requires_tensor_cores,
                requires_unified_memory,
            } => ConstructType::Equipment {
                min_sm_version: *min_sm_version,
                min_vram_mb: *min_vram_mb,
                requires_tensor_cores: *requires_tensor_cores,
                requires_unified_memory: *requires_unified_memory,
            },
            ConstructType::Hybrid { skill, entry_point, min_sm_version, min_vram_mb } => {
                ConstructType::Hybrid {
                    skill: skill.clone(),
                    entry_point: entry_point.clone(),
                    min_sm_version: *min_sm_version,
                    min_vram_mb: *min_vram_mb,
                }
            },
        }
    }
}

/// Whether two construct types are of the same kind (skill, equipment or
/// hybrid), whatever their fields hold.
pub open spec fn same_kind(a: ConstructType, b: ConstructType) -> bool {
    ||| (a is Skill && b is Skill)
    ||| (a is Equipment && b is Equipment)
    ||| (a is Hybrid && b is Hybrid)
}

/// Whether `a` and `b` are of the same kind.
pub fn kind_matches(a: &ConstructType, b: &ConstructType) -> (r: bool)
    ensures
        r == same_kind(*a, *b),
{
    match (a, b) {
        (ConstructType::Skill { .. }, ConstructType::Skill { .. }) => true,
        (ConstructType::Equipment { .. }, ConstructType::Equipment { .. }) => true,
        (ConstructType::Hybrid { .. }, ConstructType::Hybrid { .. }) => true,
        _ => false,
    }
}

/// Two construct types are of the same kind exactly when they are the same
/// variant of the enum; the fields never matter.
pub proof fn lemma_same_kind_is_same_variant(a: ConstructType, b: ConstructType)
    ensures
        same_kind(a, b) <==> ((a is Skill) == (b is Skill) && (a is Equipment) == (b is Equipment)
            && (a is Hybrid) == (b is Hybrid)),
        same_kind(a, a),
        same_kind(a, b) == same_kind(b, a),
{
}

/// Identity information for a construct.
#[derive(Debug)]
pub struct ConstructIdentity {
    /// Decentralized Identifier (DID) from agent-identity.
    pub did: String,
    /// The public key fingerprint of the creator.
    pub creator_fingerprint: String,
    /// Signature of the manifest content.
    pub signature: Option<String>,
}

impl Clone for ConstructIdentity {
    fn clone(&self) -> (r: Self)
        ensures
            r == *self,
    {
        ConstructIdentity {
            did: self.did.clone(),
            creator_fingerprint: self.creator_fingerprint.clone(),
            signature: match &self.signature {
                Some(s) => Some(s.clone()),
                None => None,
            },
        }
    }
}

/// A dependency on another construct.
#[derive(Debug)]
pub struct ConstructDependency {
    pub repo: String,
    pub version: SemVer,
    pub symbol: String,
}

impl Clone for ConstructDependency {
    fn clone(&self) -> (r: Self)
        ensures
            r == *self,
    {
        ConstructDependency {
            repo: self.repo.clone(),
            version: self.version,
            symbol: self.symbol.clone(),
        }
    }
}

/// A construct manifest — the declaration file in a construct repo.
#[derive(Debug)]
pub struct ConstructManifest {
    /// Unique name of this construct.
    pub name: String,
    /// Semantic version.
    pub version: SemVer,
    /// Type of construct (skill, equipment, hybrid).
    pub construct_type: ConstructType,
    /// Dependencies on other constructs.
    pub dependencies: Vec<ConstructDependency>,
    /// Identity information.
    pub identity: Option<ConstructIdentity>,
    /// Description for humans and agents.
    pub description: String,
    /// Tags for discovery via flux-index.
    pub tags: Vec<String>,
    /// Supported CUDA compute capabilities.
    pub compute_capabilities: Vec<u32>,
}

/// The abstract value of a manifest: its vectors taken as sequences.
pub ghost struct ManifestView {
    pub name: String,
    pub version: SemVer,
    pub construct_type: ConstructType,
    pub dependencies: Seq<ConstructDependency>,
    pub identity: Option<ConstructIdentity>,
    pub description: String,
    pub tags: Seq<String>,
    pub compute_capabilities: Seq<u32>,
}

impl View for ConstructManifest {
    type V = ManifestView;

    open spec fn view(&self) -> ManifestView {
        ManifestView {
            name: self.name,
            version: self.version,
            construct_type: self.construct_type,
            dependencies: self.dependencies@,
            identity: self.identity,
            description: self.description,
            tags: self.tags@,
            compute_capabilities: self.compute_capabilities@,
        }
    }
}

/// A copy of a vector of plain values.
fn copy_vec<T: Copy>(v: &Vec<T>) -> (r: Vec<T>)
    ensures
        r@ == v@,
{
    let mut r: Vec<T> = Vec::new();
    let mut i: usize = 0;
    while i < v.len()
        invariant
            i <= v@.len(),
            r@ == v@.subrange(0, i as int),
        decreases v@.len() - i,
    {
        r.push(v[i]);
        i = i + 1;
    }
    assert(r@ =~= v@);
    r
}

fn copy_strings(v: &Vec<String>) -> (r: Vec<String>)
    ensures
        r@ == v@,
{
    let mut r: Vec<String> = Vec::new();
    let mut i: usize = 0;
    while i < v.len()
        invariant
            i <= v@.len(),
            r@ == v@.subrange(0, i as int),
        decreases v@.len() - i,
    {
        r.push(v[i].clone());
        i = i + 1;
    }
    assert(r@ =~= v@);
    r
}

fn copy_dependencies(v: &Vec<ConstructDependency>) -> (r: Vec<ConstructDependency>)
    ensures
        r@ == v@,
{
    let mut r: Vec<ConstructDependency> = Vec::new();
    let mut i: usize = 0;
    while i < v.len()
        invariant
            i <= v@.len(),
            r@ == v@.subrange(0, i as int),
        decreases v@.len() - i,
    {
        r.push(v[i].clone());
        i = i + 1;
    }
    assert(r@ =~= v@);
    r
}

impl Clone for ConstructManifest {
    fn clone(&self) -> (r: Self)
        ensures
            r@ == self@,
    {
        ConstructManifest {
            name: self.name.clone(),
            version: self.version,
            construct_type: self.construct_type.clone(),
            dependencies: copy_dependencies(&self.dependencies),
            identity: match &self.identity {
                Some(id) => Some(id.clone()),
                None => None,
            },
            description: self.description.clone(),
            tags: copy_strings(&self.tags),
            compute_capabilities: copy_vec(&self.compute_capabilities),
        }
    }
}

/// The load state of a construct.
#[derive(Debug, PartialEq, Eq)]
pub enum ConstructState {
    /// Discovered but not yet loaded.
    Discovered,
    /// Manifest parsed and validated.
    Validated,
    /// Dependencies resolved.
    Resolved,
    /// Compiled to PTX and ready for deployment.
    Compiled,
    /// Deployed to GPU and running.
    Deployed,
    /// Unloaded from GPU but still cached.
    Cached,
    /// Failed to load.
    Failed(String),
}

impl Clone for ConstructState {
    fn clone(&self) -> (r: Self)
        ensures
            r == *self,
    {
        match self {
            ConstructState::Discovered => ConstructState::Discovered,
            ConstructState::Validated => ConstructState::Validated,
            ConstructState::Resolved => ConstructState::Resolved,
            ConstructState::Compiled => ConstructState::Compiled,
            ConstructState::Deployed => ConstructState::Deployed,
            ConstructState::Cached => ConstructState::Cached,
            ConstructState::Failed(m) => ConstructState::Failed(m.clone()),
        }
    }
}

/// What std's `Debug` writes for a string: the text in double quotes, with
/// escapes. It depends on the characters alone.
pub uninterp spec fn string_debug_text(s: Seq<char>) -> Seq<char>;

/// Renders `s` by std's `Debug` for `String` (`format!("{:?}", s)`).
///
/// Trusted: the result is named `string_debug_text` of the characters;
/// the escaping rules of std are not restated here.
#[verifier::external_body]
fn debug_string(s: &String) -> (r: String)
    ensures
        r@ == string_debug_text(s@),
{
    format!("{:?}", s)
}

/// The text that the derived `Debug` writes for a state.
pub open spec fn state_debug_spec(s: ConstructState) -> Seq<char> {
    match s {
        ConstructState::Discovered => "Discovered"@,
        ConstructState::Validated => "Validated"@,
        ConstructState::Resolved => "Resolved"@,
        ConstructState::Compiled => "Compiled"@,
        ConstructState::Deployed => "Deployed"@,
        ConstructState::Cached => "Cached"@,
        ConstructState::Failed(m) => "Failed("@ + string_debug_text(m@) + ")"@,
    }
}

impl ConstructState {
    /// The state as its `Debug` text, e.g. `Compiled` or `Failed("reason")`.
    pub fn debug_text(&self) -> (r: String)
        ensures
            r@ == state_debug_spec(*self),
    {
        match self {
            ConstructState::Discovered => "Discovered".to_owned(),
            ConstructState::Validated => "Validated".to_owned(),
            ConstructState::Resolved => "Resolved".to_owned(),
            ConstructState::Compiled => "Compiled".to_owned(),
            ConstructState::Deployed => "Deployed".to_owned(),
            ConstructState::Cached => "Cached".to_owned(),
            ConstructState::Failed(m) => {
                let mut r = "Failed(".to_owned();
                let inner = debug_string(m);
                r.append(inner.as_str());
                r.append(")");
                r
            },
        }
    }
}

/// Runtime metrics for a construct.
#[derive(Debug, Clone, Copy)]
pub struct ConstructMetrics {
    /// Number of times this construct has been invoked.
    pub invocations: u64,
    /// Total execution time in microseconds.
    pub total_time_us: u64,
    /// Peak GPU memory usage in bytes.
    pub peak_memory_bytes: u64,
    /// Number of errors.
    pub errors: u64,
    /// Last invocation timestamp (epoch millis).
    pub last_invocation_ms: u64,
}

impl Default for ConstructMetrics {
    fn default() -> (r: Self)
        ensures
            r.invocations == 0,
            r.total_time_us == 0,
            r.peak_memory_bytes == 0,
            r.errors == 0,
            r.last_invocation_ms == 0,
    {
        ConstructMetrics {
            invocations: 0,
            total_time_us: 0,
            peak_memory_bytes: 0,
            errors: 0,
            last_invocation_ms: 0,
        }
    }
}

/// A loaded construct with resolved state.
#[derive(Debug)]
pub struct Construct {
    /// The manifest.
    pub manifest: ConstructManifest,
    /// Git repository URL.
    pub repo_url: String,
    /// Git reference (tag, branch, or commit hash).
    pub git_ref: String,
    /// Load state.
    pub state: ConstructState,
    /// Cached kernel binary (PTX), if compiled.
    pub ptx_cache: Option<Vec<u8>>,
    /// Metrics from this construct's execution.
    pub metrics: ConstructMetrics,
}

/// The abstract value of a construct: its vectors taken as sequences.
pub ghost struct ConstructView {
    pub manifest: ManifestView,
    pub repo_url: String,
    pub git_ref: String,
    pub state: ConstructState,
    pub ptx_cache: Option<Seq<u8>>,
    pub metrics: ConstructMetrics,
}

impl View for Construct {
    type V = ConstructView;

    open spec fn view(&self) -> ConstructView {
        ConstructView {
            manifest: self.manifest@,
            repo_url: self.repo_url,
            git_ref: self.git_ref,
            state: self.state,
            ptx_cache: match self.ptx_cache {
                Some(v) => Some(v@),
                None => None,
            },
            metrics: self.metrics,
        }
    }
}

impl Clone for Construct {
    fn clone(&self) -> (r: Self)
        ensures
            r@ == self@,
    {
        Construct {
            manifest: self.manifest.clone(),
            repo_url: self.repo_url.clone(),
            git_ref: self.git_ref.clone(),
            state: self.state.clone(),
            ptx_cache: match &self.ptx_cache {
                Some(v) => Some(copy_vec(v)),
                None => None,
            },
            metrics: self.metrics,
        }
    }
}

/// Errors during construct operations.
#[derive(Debug)]
pub enum ConstructError {
    GitCloneFailed { repo: String, reason: String },
    ManifestParseFailed { repo: String, reason: String },
    ValidationFailed(String),
    IdentityVerificationFailed { did: String, reason: String },
    DependencyNotFound { repo: String, version: String },
    CompilationFailed { reason: String },
    DeploymentFailed { reason: String },
    InvalidState { expected: String, actual: String },
}

impl Clone for ConstructError {
    fn clone(&self) -> (r: Self)
        ensures
            r == *self,
    {
        match self {
            ConstructError::GitCloneFailed { repo, reason } => ConstructError::GitCloneFailed {
                repo: repo.clone(),
                reason: reason.clone(),
            },
            ConstructError::ManifestParseFailed { repo, reason } =>
                ConstructError::ManifestParseFailed { repo: repo.clone(), reason: reason.clone() },
            ConstructError::ValidationFailed(msg) => ConstructError::ValidationFailed(msg.clone()),
            ConstructError::IdentityVerificationFailed { did, reason } =>
                ConstructError::IdentityVerificationFailed {
                did: did.clone(),
                reason: reason.clone(),
            },
            ConstructError::DependencyNotFound { repo, version } =>
                ConstructError::DependencyNotFound { repo: repo.clone(), version: version.clone() },
            ConstructError::CompilationFailed { reason } => ConstructError::CompilationFailed {
                reason: reason.clone(),
            },
            ConstructError::DeploymentFailed { reason } => ConstructError::DeploymentFailed {
                reason: reason.clone(),
            },
            ConstructError::InvalidState { expected, actual } => ConstructError::InvalidState {
                expected: expected.clone(),
                actual: actual.clone(),
            },
        }
    }
}

/// The message that describes an error to a person.
pub open spec fn error_message(e: ConstructError) -> Seq<char> {
    match e {
        ConstructError::GitCloneFailed { repo, reason } => "git clone failed for "@ + repo@ + ": "@
            + reason@,
        ConstructError::ManifestParseFailed { repo, reason } => "manifest parse failed for "@
            + repo@ + ": "@ + reason@,
        ConstructError::ValidationFailed(msg) => "validation failed: "@ + msg@,
        ConstructError::IdentityVerificationFailed { did, reason } =>
            "identity verification failed for "@ + did@ + ": "@ + reason@,
        ConstructError::DependencyNotFound { repo, version } => "dependency not found: "@ + repo@
            + " @ "@ + version@,
        ConstructError::CompilationFailed { reason } => "compilation failed: "@ + reason@,
        ConstructError::DeploymentFailed { reason } => "deployment failed: "@ + reason@,
        ConstructError::InvalidState { expected, actual } => "invalid state: expected "@
            + expected@ + ", got "@ + actual@,
    }
}

impl ConstructError {
    /// The error's message, as `Display` would write it.
    pub fn to_string(&self) -> (r: String)
        ensures
            r@ == error_message(*self),
    {
        match self {
            ConstructError::GitCloneFailed { repo, reason } => {
                let mut r = "git clone failed for ".to_owned();
                r.append(repo.as_str());
                r.append(": ");
                r.append(reason.as_str());
                r
            },
            ConstructError::ManifestParseFailed { repo, reason } => {
                let mut r = "manifest parse failed for ".to_owned();
                r.append(repo.as_str());
                r.append(": ");
                r.append(reason.as_str());
                r
            },
            ConstructError::ValidationFailed(msg) => {
                let mut r = "validation failed: ".to_owned();
                r.append(msg.as_str());
                r
            },
            ConstructError::IdentityVerificationFailed { did, reason } => {
                let mut r = "identity verification failed for ".to_owned();
                r.append(did.as_str());
                r.append(": ");
                r.append(reason.as_str());
                r
            },
            ConstructError::DependencyNotFound { repo, version } => {
                let mut r = "dependency not found: ".to_owned();
                r.append(repo.as_str());
                r.append(" @ ");
                r.append(version.as_str());
                r
            },
            ConstructError::CompilationFailed { reason } => {
                let mut r = "compilation failed: ".to_owned();
                r.append(reason.as_str());
                r
            },
            ConstructError::DeploymentFailed { reason } => {
                let mut r = "deployment failed: ".to_owned();
                r.append(reason.as_str());
                r
            },
            ConstructError::InvalidState { expected, actual } => {
                let mut r = "invalid state: expected ".to_owned();
                r.append(expected.as_str());
                r.append(", got ");
                r.append(actual.as_str());
                r
            },
        }
    }
}

} // verus!
