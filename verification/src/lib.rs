//! Package synchronisation engine: version intents, the import of an
//! installed-package record into a declarative configuration, the
//! resolution of intents against the versions on offer, and the selection
//! of the packages that need an install or an update.

pub mod command;
pub mod config;
pub mod error;
pub mod intent;
pub mod name_map;
pub mod names;
pub mod package;
pub mod records;
pub mod resolve;
pub mod sync;
pub mod transform;
pub mod version;

pub use crate::config::DesiredConfig;
pub use crate::error::{PackageFailure, SyncError};
pub use crate::intent::{VersionIntent, VersionIntentKind};
pub use crate::name_map::NameMap;
pub use crate::names::SELF_PACKAGE;
pub use crate::package::Package;
pub use crate::records::{AvailableVersions, InstallSet, InstalledState, ResolvedTargets};
pub use crate::resolve::{resolve, resolve_all};
pub use crate::sync::synchronize;
pub use crate::transform::import;
pub use crate::version::Version;
