//! The declaration record a module exposes and the version-compatibility
//! gate that must pass before any module code runs.

use vstd::prelude::*;
use vstd::string::StringExecFns;
use crate::errors::LoadError;

verus! {

/// The versioned descriptor a module exports at a well-known location.
///
/// The raw exported record also carries the module's entry point; that raw
/// callable stays with the host shim, and the record here holds the two
/// compatibility tags.
pub struct PluginDeclaration {
    /// Tag identifying the compiler/runtime that produced the module.
    pub rustc_version: String,
    /// Tag identifying the core library's interface version.
    pub core_version: String,
}

/// The host's own build-time tags, fixed when the registry is constructed.
pub struct HostVersions {
    pub rustc_version: String,
    pub core_version: String,
}

/// A module is compatible exactly when both of its tags equal the host's,
/// by exact string equality.
pub open spec fn compatible(decl: &PluginDeclaration, host: &HostVersions) -> bool {
    decl.rustc_version@ == host.rustc_version@ && decl.core_version@ == host.core_version@
}

/// The compatibility gate: succeeds exactly when both version tags match,
/// and otherwise reports which tag mismatched. A mismatch is a hard failure;
/// the caller must not run the module's entry point after one.
pub fn check_declaration(decl: &PluginDeclaration, host: &HostVersions) -> (r: Result<
    (),
    LoadError,
>)
    ensures
        r is Ok <==> compatible(decl, host),
        r matches Err(e) ==> e is VersionError,
{
    if !(decl.rustc_version == host.rustc_version) {
        let mut m = String::new();
        m.append("incompatible rustc version: got ");
        m.append(decl.rustc_version.as_str());
        m.append(", expected ");
        m.append(host.rustc_version.as_str());
        Err(LoadError::VersionError(m))
    } else if !(decl.core_version == host.core_version) {
        let mut m = String::new();
        m.append("incompatible core version: got ");
        m.append(decl.core_version.as_str());
        m.append(", expected ");
        m.append(host.core_version.as_str());
        Err(LoadError::VersionError(m))
    } else {
        Ok(())
    }
}

} // verus!
