use vstd::prelude::*;
use crate::migration::MigrationView;
use crate::migrator::Migrator;

verus! {

/// The kind of the next script file: that of the first script of the
/// catalog, and in an empty catalog the kind that the flag asks for.
pub open spec fn inferred_type(c: Seq<MigrationView>, reversible: bool) -> MigrationType {
    if c.len() > 0 {
        c[0].migration_type
    } else if reversible {
        MigrationType::ReversibleUp
    } else {
        MigrationType::Simple
    }
}

/// The kind of a migration script.
///
/// A `Simple` script has no revert counterpart. `ReversibleUp` and
/// `ReversibleDown` scripts are paired by version.
#[derive(Clone, Copy, Debug, PartialEq, Eq, Structural)]
pub enum MigrationType {
    Simple,
    ReversibleUp,
    ReversibleDown,
}

impl MigrationType {
    /// The script applies forward: it is the "up" side of its version.
    pub open spec fn is_up(self) -> bool {
        self != MigrationType::ReversibleDown
    }

    /// The script reverts: it is the "down" side of its version.
    pub open spec fn is_down(self) -> bool {
        self == MigrationType::ReversibleDown
    }

    /// The script is one half of an up / down pair.
    pub open spec fn reversible(self) -> bool {
        self != MigrationType::Simple
    }

    /// The word under which a script of this kind is reported.
    pub open spec fn spec_label(self) -> Seq<char> {
        if self.is_down() {
            "revert"@
        } else {
            "migrate"@
        }
    }

    /// The end of the file name of a script of this kind.
    pub open spec fn spec_suffix(self) -> Seq<char> {
        match self {
            MigrationType::Simple => ".sql"@,
            MigrationType::ReversibleUp => ".up.sql"@,
            MigrationType::ReversibleDown => ".down.sql"@,
        }
    }

    /// What a freshly created script file of this kind holds.
    pub open spec fn spec_file_content(self) -> Seq<char> {
        match self {
            MigrationType::Simple => "-- Add migration script here\n"@,
            MigrationType::ReversibleUp => "-- Add up migration script here\n"@,
            MigrationType::ReversibleDown => "-- Add down migration script here\n"@,
        }
    }

    pub fn is_up_migration(&self) -> (r: bool)
        ensures
            r == self.is_up(),
    {
        match self {
            MigrationType::Simple => true,
            MigrationType::ReversibleUp => true,
            MigrationType::ReversibleDown => false,
        }
    }

    pub fn is_down_migration(&self) -> (r: bool)
        ensures
            r == self.is_down(),
    {
        match self {
            MigrationType::Simple => false,
            MigrationType::ReversibleUp => false,
            MigrationType::ReversibleDown => true,
        }
    }

    pub fn is_reversible(&self) -> (r: bool)
        ensures
            r == self.reversible(),
    {
        match self {
            MigrationType::Simple => false,
            MigrationType::ReversibleUp => true,
            MigrationType::ReversibleDown => true,
        }
    }

    pub fn label(&self) -> (s: &'static str)
        ensures
            s@ == self.spec_label(),
    {
        match self {
            MigrationType::Simple => "migrate",
            MigrationType::ReversibleUp => "migrate",
            MigrationType::ReversibleDown => "revert",
        }
    }

    pub fn suffix(&self) -> (s: &'static str)
        ensures
            s@ == self.spec_suffix(),
    {
        match self {
            MigrationType::Simple => ".sql",
            MigrationType::ReversibleUp => ".up.sql",
            MigrationType::ReversibleDown => ".down.sql",
        }
    }

    /// The kind of the next script file: that of the first script of the
    /// catalog, and in an empty catalog the kind that the flag asks for.
    pub fn infer(migrator: &Migrator, reversible: bool) -> (t: MigrationType)
        ensures
            t == inferred_type(migrator@, reversible),
    {
        if migrator.len() > 0 {
            migrator.get(0).migration_type
        } else if reversible {
            MigrationType::ReversibleUp
        } else {
            MigrationType::Simple
        }
    }

    pub fn file_content(&self) -> (s: &'static str)
        ensures
            s@ == self.spec_file_content(),
    {
        match self {
            MigrationType::Simple => "-- Add migration script here\n",
            MigrationType::ReversibleUp => "-- Add up migration script here\n",
            MigrationType::ReversibleDown => "-- Add down migration script here\n",
        }
    }
}

} // verus!
