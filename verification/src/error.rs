use vstd::prelude::*;

verus! {

/// Every way in which a migration command refuses to go on.
#[derive(Clone, Copy, Debug, PartialEq, Eq, Structural)]
pub enum MigrateError {
    /// A requested target version is not in the catalog.
    VersionNotPresent(i64),
    /// The target of a run (first) precedes the latest applied version (second).
    VersionTooOld(i64, i64),
    /// The target of a revert (first) exceeds the latest applied version (second).
    VersionTooNew(i64, i64),
    /// An applied version has no catalog entry.
    VersionMissing(i64),
    /// The catalog's checksum differs from the one recorded when the version
    /// was applied.
    VersionMismatch(i64),
    /// An earlier command left this version partially applied.
    Dirty(i64),
    /// The store cannot force-drop a database.
    ForceNotSupported,
    /// Two scripts of the same side carry this version.
    DuplicateVersion(i64),
}

} // verus!
