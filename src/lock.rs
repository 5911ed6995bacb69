//! The lock representation: per environment, per platform, the packages
//! that were resolved, tagged by ecosystem.
use vstd::prelude::*;

verus! {

/// A resolved package of the binary ecosystem.
#[derive(Debug, Clone)]
pub struct CondaRecord {
    /// Normalized package name.
    pub name: String,
    pub version: String,
    /// Where the archive is downloaded from.
    pub url: String,
    /// The archive's MD5 digest (16 bytes), when the metadata has one.
    pub md5: Option<[u8; 16]>,
    /// Match specs of the packages it needs at run time.
    pub depends: Vec<String>,
}

/// A resolved package of the wheel ecosystem.
#[derive(Debug, Clone)]
pub struct PypiRecord {
    pub name: String,
    pub version: String,
    pub url: String,
}

/// A resolved package of either ecosystem.
#[derive(Debug, Clone)]
pub enum LockedPackage {
    Conda(CondaRecord),
    Pypi(PypiRecord),
}

/// The packages of one platform, in the order the solver produced them.
#[derive(Debug, Clone)]
pub struct PlatformPackages {
    pub platform: String,
    pub packages: Vec<LockedPackage>,
}

/// The platforms that an environment was resolved for.
#[derive(Debug, Clone)]
pub struct LockEnvironment {
    pub platforms: Vec<PlatformPackages>,
}

/// A named environment of the lock.
#[derive(Debug, Clone)]
pub struct NamedEnvironment {
    pub name: String,
    pub environment: LockEnvironment,
}

/// All environments of a lock, in the lock's order.
#[derive(Debug, Clone)]
pub struct LockFile {
    pub environments: Vec<NamedEnvironment>,
}

} // verus!
