//! The records that import, resolution and synchronisation read and make.

use crate::name_map::NameMap;
use crate::package::Package;
use crate::version::Version;
use vstd::prelude::*;

verus! {

/// The version that is installed of each installed package.
pub type InstalledState = NameMap<Version>;

/// The versions that the registry offers of each package it knows.
pub type AvailableVersions = NameMap<Vec<Version>>;

/// The version that the registry offers as the best match for the intent
/// of each declared package.
pub type ResolvedTargets = NameMap<Version>;

/// The declared packages that have to be installed or updated.
pub type InstallSet = NameMap<Package>;

} // verus!
