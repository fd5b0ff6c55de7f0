pub mod construct;
pub mod loader;
pub mod registry;
pub mod semver;
pub mod text;

pub use construct::{
    Construct, ConstructDependency, ConstructError, ConstructId, ConstructIdentity,
    ConstructManifest, ConstructMetrics, ConstructState, ConstructType,
};
pub use loader::ConstructLoader;
pub use registry::ConstructRegistry;
pub use semver::SemVer;
