use vstd::prelude::*;
use vstd::string::StringExecFns;
use crate::applied::is_applied;
use crate::migration::{applied_views, AppliedMigration, AppliedView, Migration};

verus! {

/// The rows of `a` without those of version `v`, in their order.
pub open spec fn without_version(a: Seq<AppliedView>, v: int) -> Seq<AppliedView>
    decreases a.len(),
{
    if a.len() == 0 {
        a
    } else {
        let front = without_version(a.drop_last(), v);
        if a.last().version == v {
            front
        } else {
            front.push(a.last())
        }
    }
}

/// The row that a successful apply of a script records.
pub open spec fn row_of(m: crate::migration::MigrationView) -> AppliedView {
    AppliedView { version: m.version, checksum: m.checksum }
}

/// Taking the rows of version `v` away leaves none of that version.
pub proof fn lemma_without_version(a: Seq<AppliedView>, v: int)
    ensures
        !is_applied(without_version(a, v), v),
        without_version(a, v).len() <= a.len(),
    decreases a.len(),
{
    if a.len() > 0 {
        let front = a.drop_last();
        lemma_without_version(front, v);
        let out = without_version(a, v);
        let kept = without_version(front, v);
        if is_applied(out, v) {
            let k = choose|k: int| 0 <= k < out.len() && out[k].version == v;
            assert(kept[k].version == v);
        }
    }
}

/// Taking the rows of version `v` away leaves the rows of any other version
/// `w` in place.
pub proof fn lemma_without_other_version(a: Seq<AppliedView>, v: int, w: int)
    requires
        w != v,
    ensures
        is_applied(without_version(a, v), w) <==> is_applied(a, w),
    decreases a.len(),
{
    if a.len() > 0 {
        let front = a.drop_last();
        lemma_without_other_version(front, v, w);
        let out = without_version(a, v);
        let kept = without_version(front, v);
        if is_applied(out, w) {
            let k = choose|k: int| 0 <= k < out.len() && out[k].version == w;
            if k < kept.len() {
                assert(kept[k].version == w);
                let j = choose|j: int| 0 <= j < front.len() && front[j].version == w;
                assert(a[j].version == w);
            } else {
                assert(a[a.len() - 1].version == w);
            }
        }
        if is_applied(a, w) {
            let k = choose|k: int| 0 <= k < a.len() && a[k].version == w;
            if k < front.len() {
                assert(front[k].version == w);
                let j = choose|j: int| 0 <= j < kept.len() && kept[j].version == w;
                assert(out[j].version == w);
            } else {
                assert(out[out.len() - 1].version == w);
            }
        }
    }
}

/// Where no row has version `v`, taking the rows of that version away changes
/// nothing.
pub proof fn lemma_without_absent_version(a: Seq<AppliedView>, v: int)
    requires
        !is_applied(a, v),
    ensures
        without_version(a, v) == a,
    decreases a.len(),
{
    if a.len() > 0 {
        let front = a.drop_last();
        assert(a[a.len() - 1].version != v);
        assert forall|k: int| 0 <= k < front.len() implies front[k].version != v by {
            assert(a[k].version != v);
        }
        lemma_without_absent_version(front, v);
        assert(front.push(a.last()) =~= a);
    }
}

/// Applying a script whose version has no row and then reverting it leaves
/// the bookkeeping rows as they were before, with no row for that version.
/// Doing both once more changes nothing again.
pub proof fn lemma_apply_then_revert(a: Seq<AppliedView>, m: crate::migration::MigrationView)
    requires
        !is_applied(a, m.version),
    ensures
        without_version(a.push(row_of(m)), m.version) == a,
        without_version(
            without_version(a.push(row_of(m)), m.version).push(row_of(m)),
            m.version,
        ) == a,
{
    let grown = a.push(row_of(m));
    assert(grown.drop_last() =~= a);
    lemma_without_absent_version(a, m.version);
}

/// Reverting a version twice is reverting it once.
pub proof fn lemma_revert_idempotent(a: Seq<AppliedView>, v: int)
    ensures
        without_version(without_version(a, v), v) == without_version(a, v),
{
    lemma_without_version(a, v);
    lemma_without_absent_version(without_version(a, v), v);
}

/// The name of the bookkeeping table where the caller names none.
pub const DEFAULT_MIGRATION_TABLE: &'static str = "_sqlx_migrations";

/// The name of the bookkeeping table: the one that the caller names, or the
/// default.
pub fn table_name(migration_table: Option<String>) -> (name: String)
    ensures
        name@ == (match migration_table {
            Some(t) => t@,
            None => DEFAULT_MIGRATION_TABLE@,
        }),
{
    match migration_table {
        Some(t) => t,
        None => String::from_str(DEFAULT_MIGRATION_TABLE),
    }
}

/// A copy of the bytes of `bytes`.
fn copy_bytes(bytes: &Vec<u8>) -> (out: Vec<u8>)
    ensures
        out@ == bytes@,
{
    let mut out: Vec<u8> = Vec::new();
    let mut i: usize = 0;
    while i < bytes.len()
        invariant
            i <= bytes@.len(),
            out@ == bytes@.subrange(0, i as int),
        decreases bytes@.len() - i,
    {
        out.push(bytes[i]);
        proof {
            assert(out@ =~= bytes@.subrange(0, i + 1));
        }
        i += 1;
    }
    proof {
        assert(bytes@.subrange(0, bytes@.len() as int) =~= bytes@);
    }
    out
}

/// A copy of the rows of `rows`.
fn copy_rows(rows: &Vec<AppliedMigration>) -> (out: Vec<AppliedMigration>)
    ensures
        applied_views(out@) == applied_views(rows@),
{
    let mut out: Vec<AppliedMigration> = Vec::new();
    let mut i: usize = 0;
    while i < rows.len()
        invariant
            i <= rows@.len(),
            applied_views(out@) == applied_views(rows@).subrange(0, i as int),
        decreases rows@.len() - i,
    {
        let ghost before = applied_views(out@);
        let row = AppliedMigration {
            version: rows[i].version,
            checksum: copy_bytes(&rows[i].checksum),
        };
        out.push(row);
        proof {
            assert(applied_views(out@) =~= before.push(applied_views(rows@)[i as int]));
            assert(applied_views(out@) =~= applied_views(rows@).subrange(0, i + 1));
        }
        i += 1;
    }
    proof {
        assert(applied_views(rows@).subrange(0, rows@.len() as int) =~= applied_views(rows@));
    }
    out
}

/// The bookkeeping table held in memory: the rows of the applied versions in
/// the order in which they were recorded, and the dirty marker.
///
/// It does to its rows what a store must do to its table on a successful
/// apply or revert, and so stands in for a database wherever a command is to
/// be tried without one.
#[derive(Debug)]
pub struct Bookkeeping {
    pub rows: Vec<AppliedMigration>,
    pub dirty: Option<i64>,
}

impl Bookkeeping {
    /// The rows as mathematical values.
    pub open spec fn applied(&self) -> Seq<AppliedView> {
        applied_views(self.rows@)
    }

    /// A table without rows and without a dirty marker.
    pub fn new() -> (b: Bookkeeping)
        ensures
            b.applied() == Seq::<AppliedView>::empty(),
            b.dirty is None,
    {
        let b = Bookkeeping { rows: Vec::new(), dirty: None };
        proof {
            assert(b.applied() =~= Seq::empty());
        }
        b
    }

    /// The version that an earlier command left partially applied, if any.
    pub fn dirty_version(&self) -> (d: Option<i64>)
        ensures
            d == self.dirty,
    {
        self.dirty
    }

    /// The rows of the table, in the order in which they were recorded.
    pub fn list_applied_migrations(&self) -> (rows: Vec<AppliedMigration>)
        ensures
            applied_views(rows@) == self.applied(),
    {
        copy_rows(&self.rows)
    }

    /// Records that `migration` was applied: one more row, with its version
    /// and checksum.
    pub fn apply(&mut self, migration: &Migration)
        ensures
            final(self).applied() == old(self).applied().push(row_of(migration@)),
            final(self).dirty == old(self).dirty,
    {
        let row = AppliedMigration {
            version: migration.version,
            checksum: copy_bytes(&migration.checksum),
        };
        self.rows.push(row);
        proof {
            assert(self.applied() =~= old(self).applied().push(row_of(migration@)));
        }
    }

    /// Records that the version of `migration` was reverted: its rows leave
    /// the table.
    pub fn revert(&mut self, migration: &Migration)
        ensures
            final(self).applied() == without_version(old(self).applied(), migration@.version),
            final(self).dirty == old(self).dirty,
    {
        let ghost a = self.applied();
        let mut kept: Vec<AppliedMigration> = Vec::new();
        let mut i: usize = 0;
        proof {
            assert(applied_views(kept@) =~= Seq::empty());
        }
        while i < self.rows.len()
            invariant
                *self == *old(self),
                a == self.applied(),
                i <= a.len(),
                applied_views(kept@) == without_version(a.subrange(0, i as int), migration@.version),
            decreases a.len() - i,
        {
            proof {
                let next = a.subrange(0, i + 1);
                assert(next.drop_last() =~= a.subrange(0, i as int));
                assert(next.last() == a[i as int]);
            }
            if self.rows[i].version != migration.version {
                let ghost before = applied_views(kept@);
                let row = AppliedMigration {
                    version: self.rows[i].version,
                    checksum: copy_bytes(&self.rows[i].checksum),
                };
                kept.push(row);
                proof {
                    assert(applied_views(kept@) =~= before.push(a[i as int]));
                }
            }
            i += 1;
        }
        proof {
            assert(a.subrange(0, a.len() as int) =~= a);
        }
        self.rows = kept;
    }
}

} // verus!
