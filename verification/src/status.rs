use vstd::prelude::*;
use crate::applied::{
    applied_checksum, deciding_row, is_applied, lemma_deciding_row, AppliedIndex,
};
use crate::migration::{applied_views, same_checksum, AppliedMigration, AppliedView, MigrationView};
use crate::migrator::Migrator;

verus! {

/// How a script of the catalog stands against the bookkeeping rows.
#[derive(Clone, Copy, Debug, PartialEq, Eq, Structural)]
pub enum MigrationStatus {
    /// No row has its version.
    Pending,
    /// A row has its version and its checksum.
    Installed,
    /// A row has its version with another checksum.
    InstalledDifferentChecksum,
}

impl MigrationStatus {
    pub open spec fn spec_label(self) -> Seq<char> {
        match self {
            MigrationStatus::Pending => "pending"@,
            MigrationStatus::Installed => "installed"@,
            MigrationStatus::InstalledDifferentChecksum => "installed (different checksum)"@,
        }
    }

    /// The words under which the status is reported.
    pub fn label(&self) -> (s: &'static str)
        ensures
            s@ == self.spec_label(),
    {
        match self {
            MigrationStatus::Pending => "pending",
            MigrationStatus::Installed => "installed",
            MigrationStatus::InstalledDifferentChecksum => "installed (different checksum)",
        }
    }
}

/// One line of the status report: the place of an "up" script in the
/// catalog, how it stands, and the place of the row that speaks for its
/// version, if there is one.
#[derive(Clone, Copy, Debug, PartialEq, Eq)]
pub struct StatusLine {
    pub index: usize,
    pub status: MigrationStatus,
    pub row: Option<usize>,
}

/// How the script `m` stands against the rows `a`.
pub open spec fn status_of(m: MigrationView, a: Seq<AppliedView>) -> MigrationStatus {
    if !is_applied(a, m.version) {
        MigrationStatus::Pending
    } else if applied_checksum(a, m.version) == m.checksum {
        MigrationStatus::Installed
    } else {
        MigrationStatus::InstalledDifferentChecksum
    }
}

/// The line of the status report for the script at place `i`.
pub open spec fn status_line(c: Seq<MigrationView>, a: Seq<AppliedView>, i: int) -> StatusLine {
    StatusLine {
        index: i as usize,
        status: status_of(c[i], a),
        row: if is_applied(a, c[i].version) {
            Some(deciding_row(a, c[i].version) as usize)
        } else {
            None
        },
    }
}

/// The status report over the places below `n`: one line for each "up"
/// script, in ascending order.
pub open spec fn status_lines(c: Seq<MigrationView>, a: Seq<AppliedView>, n: int) -> Seq<
    StatusLine,
>
    decreases n,
{
    if n <= 0 {
        Seq::empty()
    } else if c[n - 1].migration_type.is_up() {
        status_lines(c, a, n - 1).push(status_line(c, a, n - 1))
    } else {
        status_lines(c, a, n - 1)
    }
}

/// Says of every "up" script of the catalog whether it is pending, installed,
/// or installed with another checksum than the catalog has now. Nothing
/// fails, and nothing is changed.
pub fn info(migrator: &Migrator, applied: &Vec<AppliedMigration>) -> (lines: Vec<StatusLine>)
    ensures
        lines@ == status_lines(migrator@, applied_views(applied@), migrator@.len() as int),
{
    let ghost c = migrator@;
    let ghost a = applied_views(applied@);
    let index = AppliedIndex::new(applied);
    let n = migrator.len();
    let mut lines: Vec<StatusLine> = Vec::new();
    let mut i: usize = 0;
    while i < n
        invariant
            c == migrator@,
            a == applied_views(applied@),
            index.indexes(a),
            n == c.len(),
            i <= n,
            lines@ == status_lines(c, a, i as int),
        decreases n - i,
    {
        let m = migrator.get(i);
        if m.migration_type.is_up_migration() {
            let row = index.find(m.version);
            let status = match row {
                Some(k) => {
                    proof {
                        lemma_deciding_row(a, m.version as int, k as int);
                    }
                    if same_checksum(&m.checksum, &applied[k].checksum) {
                        MigrationStatus::Installed
                    } else {
                        MigrationStatus::InstalledDifferentChecksum
                    }
                },
                None => MigrationStatus::Pending,
            };
            lines.push(StatusLine { index: i, status, row });
        }
        i += 1;
    }
    lines
}

} // verus!
