use vstd::prelude::*;
use crate::migration_type::MigrationType;

verus! {

/// One migration script.
#[derive(Clone, Debug)]
pub struct Migration {
    pub version: i64,
    pub description: String,
    pub migration_type: MigrationType,
    pub sql: String,
    pub checksum: Vec<u8>,
}

/// The mathematical value of a [`Migration`].
pub ghost struct MigrationView {
    pub version: int,
    pub description: Seq<char>,
    pub migration_type: MigrationType,
    pub sql: Seq<char>,
    pub checksum: Seq<u8>,
}

impl View for Migration {
    type V = MigrationView;

    open spec fn view(&self) -> MigrationView {
        MigrationView {
            version: self.version as int,
            description: self.description@,
            migration_type: self.migration_type,
            sql: self.sql@,
            checksum: self.checksum@,
        }
    }
}

impl Migration {
    pub fn new(
        version: i64,
        description: String,
        migration_type: MigrationType,
        sql: String,
        checksum: Vec<u8>,
    ) -> (m: Migration)
        ensures
            m@ == (MigrationView {
                version: version as int,
                description: description@,
                migration_type,
                sql: sql@,
                checksum: checksum@,
            }),
    {
        Migration { version, description, migration_type, sql, checksum }
    }
}

/// One row of the bookkeeping table: a version and the checksum that its
/// script had when it was applied.
#[derive(Clone, Debug)]
pub struct AppliedMigration {
    pub version: i64,
    pub checksum: Vec<u8>,
}

/// The mathematical value of an [`AppliedMigration`].
pub ghost struct AppliedView {
    pub version: int,
    pub checksum: Seq<u8>,
}

impl View for AppliedMigration {
    type V = AppliedView;

    open spec fn view(&self) -> AppliedView {
        AppliedView { version: self.version as int, checksum: self.checksum@ }
    }
}

impl AppliedMigration {
    pub fn new(version: i64, checksum: Vec<u8>) -> (a: AppliedMigration)
        ensures
            a@ == (AppliedView { version: version as int, checksum: checksum@ }),
    {
        AppliedMigration { version, checksum }
    }
}

/// The values of a sequence of scripts.
pub open spec fn migration_views(s: Seq<Migration>) -> Seq<MigrationView> {
    Seq::new(s.len(), |i: int| s[i]@)
}

/// The values of a sequence of bookkeeping rows.
pub open spec fn applied_views(s: Seq<AppliedMigration>) -> Seq<AppliedView> {
    Seq::new(s.len(), |i: int| s[i]@)
}

/// Whether two checksums hold the same bytes.
pub fn same_checksum(a: &Vec<u8>, b: &Vec<u8>) -> (r: bool)
    ensures
        r == (a@ == b@),
{
    if a.len() != b.len() {
        return false;
    }
    let mut i: usize = 0;
    while i < a.len()
        invariant
            a@.len() == b@.len(),
            i <= a@.len(),
            forall|j: int| 0 <= j < i ==> a@[j] == b@[j],
        decreases a@.len() - i,
    {
        if a[i] != b[i] {
            return false;
        }
        i += 1;
    }
    assert(a@ =~= b@);
    true
}

} // verus!
