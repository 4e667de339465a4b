use std::collections::HashMap;
use vstd::prelude::*;
use vstd::std_specs::hash::group_hash_axioms;
use crate::catalog::has_version;
use crate::error::MigrateError;
use crate::migration::{applied_views, AppliedMigration, AppliedView, MigrationView};
use crate::migrator::Migrator;

verus! {

/// The bookkeeping rows hold one for version `v`.
pub open spec fn is_applied(a: Seq<AppliedView>, v: int) -> bool {
    exists|k: int| 0 <= k < a.len() && a[k].version == v
}

/// Row `k` is the one that speaks for version `v`: the last row of that
/// version.
pub open spec fn decides(a: Seq<AppliedView>, v: int, k: int) -> bool {
    &&& 0 <= k < a.len()
    &&& a[k].version == v
    &&& forall|j: int| k < j < a.len() ==> a[j].version != v
}

/// The place of the row that speaks for version `v`, where the rows hold one.
pub open spec fn deciding_row(a: Seq<AppliedView>, v: int) -> int
    recommends
        is_applied(a, v),
{
    choose|k: int| decides(a, v, k)
}

/// The checksum recorded for version `v`, where the rows hold one.
pub open spec fn applied_checksum(a: Seq<AppliedView>, v: int) -> Seq<u8>
    recommends
        is_applied(a, v),
{
    a[deciding_row(a, v)].checksum
}

/// A row that speaks for a version is the only one that does.
pub proof fn lemma_deciding_row(a: Seq<AppliedView>, v: int, k: int)
    requires
        decides(a, v, k),
    ensures
        is_applied(a, v),
        deciding_row(a, v) == k,
{
    let other = deciding_row(a, v);
    assert(decides(a, v, other));
    if other < k {
        assert(a[k].version != v);
    }
    if k < other {
        assert(a[other].version != v);
    }
}

/// The greatest applied version, and 0 where nothing is applied.
pub open spec fn latest_version(a: Seq<AppliedView>) -> int
    decreases a.len(),
{
    if a.len() == 0 {
        0
    } else if a.len() == 1 {
        a[0].version
    } else {
        let before = latest_version(a.drop_last());
        if a.last().version > before {
            a.last().version
        } else {
            before
        }
    }
}

/// Every applied version has a script in the catalog `c`.
pub open spec fn all_present(c: Seq<MigrationView>, a: Seq<AppliedView>) -> bool {
    forall|i: int| 0 <= i < a.len() ==> has_version(c, a[i].version)
}

/// Row `k` is the first whose version has no script in the catalog `c`.
pub open spec fn first_missing(c: Seq<MigrationView>, a: Seq<AppliedView>, k: int) -> bool {
    &&& 0 <= k < a.len()
    &&& !has_version(c, a[k].version)
    &&& forall|j: int| 0 <= j < k ==> has_version(c, a[j].version)
}

/// The first row whose version the catalog lacks.
pub open spec fn missing_row(c: Seq<MigrationView>, a: Seq<AppliedView>) -> int
    recommends
        !all_present(c, a),
{
    choose|k: int| first_missing(c, a, k)
}

/// The error of the check that every applied version is in the catalog:
/// none where the check is switched off or every version is there, and else
/// `VersionMissing` with the version of the first row that the catalog lacks.
pub open spec fn validation_failure(
    c: Seq<MigrationView>,
    a: Seq<AppliedView>,
    ignore_missing: bool,
) -> Option<MigrateError> {
    if ignore_missing || all_present(c, a) {
        None
    } else {
        Some(MigrateError::VersionMissing(a[missing_row(c, a)].version as i64))
    }
}

/// A first row that the catalog lacks is the only one.
pub proof fn lemma_missing_row(c: Seq<MigrationView>, a: Seq<AppliedView>, k: int)
    requires
        first_missing(c, a, k),
    ensures
        !all_present(c, a),
        missing_row(c, a) == k,
{
    let other = missing_row(c, a);
    assert(first_missing(c, a, other));
    if other < k {
        assert(has_version(c, a[other].version));
    }
    if k < other {
        assert(has_version(c, a[k].version));
    }
}

/// Where rows exist, the latest version is one of them and none exceeds it.
pub proof fn lemma_latest_version(a: Seq<AppliedView>)
    requires
        a.len() > 0,
    ensures
        is_applied(a, latest_version(a)),
        forall|i: int| 0 <= i < a.len() ==> a[i].version <= latest_version(a),
    decreases a.len(),
{
    if a.len() == 1 {
        assert(a[0].version == latest_version(a));
    } else {
        let front = a.drop_last();
        lemma_latest_version(front);
        let k = choose|k: int| 0 <= k < front.len() && front[k].version == latest_version(front);
        assert(a[k] == front[k]);
        assert(a[a.len() - 1].version == a.last().version);
        assert forall|i: int| 0 <= i < a.len() implies a[i].version <= latest_version(a) by {
            if i < front.len() {
                assert(a[i] == front[i]);
            }
        }
    }
}

/// What `rows` says of every version holds of the first `n` rows of `a`: a
/// version that it knows is mapped to the last of those rows that has it, and
/// a version that it does not know is in none of them.
pub open spec fn indexes_below(rows: Map<i64, usize>, a: Seq<AppliedView>, n: int) -> bool {
    forall|v: i64|
        if #[trigger] rows.contains_key(v) {
            &&& 0 <= rows[v] < n
            &&& a[rows[v] as int].version == v
            &&& forall|j: int| rows[v] < j < n ==> a[j].version != v
        } else {
            forall|j: int| 0 <= j < n ==> a[j].version != v
        }
}

/// The bookkeeping rows by version: for each applied version the place of
/// the row that speaks for it.
pub struct AppliedIndex {
    rows: HashMap<i64, usize>,
}

impl AppliedIndex {
    /// The place that the index gives for version `v`, if it knows the
    /// version.
    pub closed spec fn row(&self, v: i64) -> Option<usize> {
        if self.rows@.contains_key(v) {
            Some(self.rows@[v])
        } else {
            None
        }
    }

    /// The index is that of the rows `a`: it knows the applied versions and
    /// no others, and gives for each the row that speaks for it.
    pub open spec fn indexes(&self, a: Seq<AppliedView>) -> bool {
        forall|v: i64|
            match #[trigger] self.row(v) {
                Some(k) => decides(a, v as int, k as int),
                None => !is_applied(a, v as int),
            }
    }

    /// The index of the rows that a store reports. Of two rows of one
    /// version the later one counts.
    pub fn new(applied: &Vec<AppliedMigration>) -> (index: AppliedIndex)
        ensures
            index.indexes(applied_views(applied@)),
    {
        broadcast use group_hash_axioms;

        let ghost a = applied_views(applied@);
        let mut rows: HashMap<i64, usize> = HashMap::new();
        let mut i: usize = 0;
        while i < applied.len()
            invariant
                a == applied_views(applied@),
                i <= applied@.len(),
                indexes_below(rows@, a, i as int),
            decreases applied@.len() - i,
        {
            let ghost before = rows@;
            let version = applied[i].version;
            rows.insert(version, i);
            proof {
                assert(a[i as int].version == version);
                assert forall|v: i64|
                    if #[trigger] rows@.contains_key(v) {
                        &&& 0 <= rows@[v] < i + 1
                        &&& a[rows@[v] as int].version == v
                        &&& forall|j: int| rows@[v] < j < i + 1 ==> a[j].version != v
                    } else {
                        forall|j: int| 0 <= j < i + 1 ==> a[j].version != v
                    } by {
                    if v != version {
                        assert(before.contains_key(v) == rows@.contains_key(v));
                    }
                }
            }
            i += 1;
        }
        let index = AppliedIndex { rows };
        proof {
            assert forall|v: i64|
                match #[trigger] index.row(v) {
                    Some(k) => decides(a, v as int, k as int),
                    None => !is_applied(a, v as int),
                } by {
                if index.rows@.contains_key(v) {
                } else {
                    if is_applied(a, v as int) {
                        let k = choose|k: int| 0 <= k < a.len() && a[k].version == v;
                        assert(a[k].version != v);
                    }
                }
            }
        }
        index
    }

    /// The place of the row that speaks for `version`, if the rows hold one.
    pub fn find(&self, version: i64) -> (r: Option<usize>)
        ensures
            r == self.row(version),
    {
        broadcast use group_hash_axioms;

        match self.rows.get(&version) {
            Some(k) => Some(*k),
            None => None,
        }
    }
}

/// The greatest applied version, and 0 where nothing is applied.
pub fn latest_applied_version(applied: &Vec<AppliedMigration>) -> (r: i64)
    ensures
        r == latest_version(applied_views(applied@)),
{
    let ghost a = applied_views(applied@);
    if applied.len() == 0 {
        return 0;
    }
    let mut best: i64 = applied[0].version;
    let mut i: usize = 1;
    proof {
        assert(a.subrange(0, 1).len() == 1);
        assert(a.subrange(0, 1)[0] == a[0]);
    }
    while i < applied.len()
        invariant
            a == applied_views(applied@),
            1 <= i <= applied@.len(),
            best == latest_version(a.subrange(0, i as int)),
        decreases applied@.len() - i,
    {
        proof {
            let next = a.subrange(0, i + 1);
            assert(next.drop_last() =~= a.subrange(0, i as int));
            assert(next.last() == a[i as int]);
        }
        if applied[i].version > best {
            best = applied[i].version;
        }
        i += 1;
    }
    proof {
        assert(a.subrange(0, a.len() as int) =~= a);
    }
    best
}

/// Checks that every applied version still has a script in the catalog.
///
/// With `ignore_missing` nothing is checked. Otherwise the first row whose
/// version the catalog lacks, on either side, is reported.
pub fn validate_applied_migrations(
    applied_migrations: &Vec<AppliedMigration>,
    migrator: &Migrator,
    ignore_missing: bool,
) -> (r: Result<(), MigrateError>)
    ensures
        r == (match validation_failure(
            migrator@,
            applied_views(applied_migrations@),
            ignore_missing,
        ) {
            Some(e) => Err::<(), MigrateError>(e),
            None => Ok(()),
        }),
{
    if ignore_missing {
        return Ok(());
    }
    let ghost a = applied_views(applied_migrations@);
    let mut i: usize = 0;
    while i < applied_migrations.len()
        invariant
            !ignore_missing,
            a == applied_views(applied_migrations@),
            i <= applied_migrations@.len(),
            forall|j: int| 0 <= j < i ==> has_version(migrator@, a[j].version),
        decreases applied_migrations@.len() - i,
    {
        let version = applied_migrations[i].version;
        if !migrator.contains_version(version) {
            proof {
                assert(a[i as int].version == version);
                lemma_missing_row(migrator@, a, i as int);
            }
            return Err(MigrateError::VersionMissing(version));
        }
        assert(a[i as int].version == version);
        i += 1;
    }
    Ok(())
}

} // verus!
