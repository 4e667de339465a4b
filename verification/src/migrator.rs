use vstd::prelude::*;
use crate::catalog::{
    distinct_sides, duplicated, has_up_version, has_version, insert_position,
    lemma_distinct_sides, lemma_insert_position, lemma_sort_by_version,
    lemma_sort_keeps_duplicates, sort_by_version, sorted_by_version, well_formed,
};
use crate::error::MigrateError;
use crate::migration::{migration_views, Migration, MigrationView};

verus! {

/// The catalog: every known migration script, ascending by version.
#[derive(Debug)]
pub struct Migrator {
    migrations: Vec<Migration>,
}

impl View for Migrator {
    type V = Seq<MigrationView>;

    closed spec fn view(&self) -> Seq<MigrationView> {
        migration_views(self.migrations@)
    }
}

/// The index in `out` before which a script of version `v` is to stand.
fn position_for(out: &Vec<Migration>, v: i64) -> (p: usize)
    ensures
        p == insert_position(migration_views(out@), v as int),
        p <= out@.len(),
{
    let mut p: usize = 0;
    while p < out.len() && out[p].version < v
        invariant
            p <= out@.len(),
            forall|j: int| 0 <= j < p ==> migration_views(out@)[j].version < v,
        decreases out@.len() - p,
    {
        p += 1;
    }
    proof {
        lemma_insert_position(migration_views(out@), v as int, p as int);
    }
    p
}

/// The scripts of `records` in ascending order of version.
fn sorted_records(records: Vec<Migration>) -> (out: Vec<Migration>)
    ensures
        migration_views(out@) == sort_by_version(migration_views(records@)),
{
    let mut records = records;
    let mut out: Vec<Migration> = Vec::new();
    let ghost all = migration_views(records@);
    proof {
        assert(all.subrange(all.len() as int, all.len() as int) =~= Seq::empty());
        assert(migration_views(out@) =~= Seq::empty());
        assert(migration_views(records@) =~= all.subrange(0, all.len() as int));
    }
    while records.len() > 0
        invariant
            records@.len() <= all.len(),
            migration_views(records@) == all.subrange(0, records@.len() as int),
            migration_views(out@) == sort_by_version(
                all.subrange(records@.len() as int, all.len() as int),
            ),
        decreases records@.len(),
    {
        let ghost before = records@;
        let ghost sorted = migration_views(out@);
        let ghost old_out = out@;
        let m = records.pop().unwrap();
        let ghost k = records@.len() as int;
        let p = position_for(&out, m.version);
        out.insert(p, m);
        proof {
            let tail = all.subrange(k, all.len() as int);
            assert(migration_views(before)[k] == m@);
            assert(all.subrange(0, k + 1)[k] == all[k]);
            assert(tail[0] == m@);
            assert(tail.drop_first() =~= all.subrange(k + 1, all.len() as int));
            assert(migration_views(out@) =~= sorted.insert(p as int, m@));
            assert(migration_views(records@) =~= all.subrange(0, k));
        }
    }
    proof {
        assert(all.subrange(0, all.len() as int) =~= all);
    }
    out
}

impl Migrator {
    /// The catalog is ascending by version and holds at most one script per
    /// version and side. This holds of every catalog there is.
    #[verifier::type_invariant]
    pub open spec fn wf(&self) -> bool {
        well_formed(self@)
    }

    /// Builds the catalog from the scripts of a migration source, in whatever
    /// order the source lists them.
    ///
    /// The scripts are sorted by version. A source in which two scripts of the
    /// same side share a version is refused, with the least such version.
    pub fn new(records: Vec<Migration>) -> (r: Result<Migrator, MigrateError>)
        ensures
            r is Ok <==> forall|v: int| !duplicated(migration_views(records@), v),
            match r {
                Ok(m) => m.wf() && m@ == sort_by_version(migration_views(records@)),
                Err(MigrateError::DuplicateVersion(v)) => duplicated(
                    migration_views(records@),
                    v as int,
                ) && forall|w: int| w < v ==> !duplicated(migration_views(records@), w),
                Err(_) => false,
            },
    {
        let ghost input = migration_views(records@);
        let out = sorted_records(records);
        let ghost c = migration_views(out@);
        proof {
            lemma_sort_by_version(input);
            lemma_distinct_sides(c);
            assert forall|v: int| duplicated(c, v) <==> duplicated(input, v) by {
                lemma_sort_keeps_duplicates(input, v);
            }
        }
        let n = out.len();
        let mut i: usize = 0;
        while i < n
            invariant
                n == out@.len(),
                c == migration_views(out@),
                c == sort_by_version(migration_views(records@)),
                forall|v: int|
                    #![trigger duplicated(c, v)]
                    #![trigger duplicated(migration_views(records@), v)]
                    duplicated(c, v) <==> duplicated(migration_views(records@), v),
                distinct_sides(c) <==> forall|v: int| !duplicated(c, v),
                sorted_by_version(c),
                i <= n,
                forall|a: int, b: int|
                    0 <= a < b < c.len() && a < i && c[a].version == c[b].version
                        ==> c[a].migration_type.is_down() != c[b].migration_type.is_down(),
            decreases n - i,
        {
            if i + 1 < n && out[i + 1].version == out[i].version {
                let v = out[i].version;
                let same_side = out[i].migration_type.is_down_migration() == out[i
                    + 1].migration_type.is_down_migration();
                let third = i + 2 < n && out[i + 2].version == v;
                if same_side || third {
                    proof {
                        let x = i as int;
                        assert(c[x] == out@[x]@ && c[x + 1] == out@[x + 1]@);
                        if same_side {
                            assert(duplicated(c, v as int));
                        } else {
                            assert(c[x + 2] == out@[x + 2]@);
                            if c[x].migration_type.is_down() == c[x + 2].migration_type.is_down() {
                                assert(duplicated(c, v as int));
                            } else {
                                assert(c[x + 1].migration_type.is_down() == c[x
                                    + 2].migration_type.is_down());
                                assert(duplicated(c, v as int));
                            }
                        }
                        assert forall|w: int| w < v implies !duplicated(c, w) by {
                            if duplicated(c, w) {
                                let (a, b) = choose|a: int, b: int|
                                    0 <= a < b < c.len() && c[a].version == w && c[b].version == w
                                        && c[a].migration_type.is_down()
                                        == c[b].migration_type.is_down();
                                if a >= x {
                                    assert(c[x].version <= c[a].version || a == x);
                                }
                                assert(a < x);
                            }
                        }
                        let input = migration_views(records@);
                        assert(duplicated(c, v as int) <==> duplicated(input, v as int));
                        assert forall|w: int| w < v implies !duplicated(input, w) by {
                            assert(duplicated(c, w) <==> duplicated(input, w));
                        }
                    }
                    return Err(MigrateError::DuplicateVersion(v));
                }
            }
            proof {
                let x = i as int;
                assert forall|b: int|
                    x < b < c.len() && c[x].version == c[b].version implies c[x].migration_type.is_down()
                    != c[b].migration_type.is_down() by {
                    assert(c[x] == out@[x]@ && c[x + 1] == out@[x + 1]@);
                    assert(c[x].version <= c[x + 1].version);
                    assert(c[x + 1].version <= c[b].version || b == x + 1);
                    if b >= x + 2 {
                        assert(c[x + 2] == out@[x + 2]@);
                        assert(c[x].version <= c[x + 2].version);
                        assert(c[x + 2].version <= c[b].version || b == x + 2);
                    }
                }
            }
            i += 1;
        }
        Ok(Migrator { migrations: out })
    }

    /// A catalog holds no more scripts than a machine can count.
    pub proof fn lemma_len_fits(&self)
        ensures
            self@.len() <= usize::MAX,
    {
        assert(self.migrations@.len() == self.migrations.len());
    }

    /// The number of scripts in the catalog.
    pub fn len(&self) -> (n: usize)
        ensures
            n == self@.len(),
    {
        self.migrations.len()
    }

    /// The script at place `i` of the catalog.
    pub fn get(&self, i: usize) -> (m: &Migration)
        requires
            i < self@.len(),
        ensures
            m@ == self@[i as int],
    {
        &self.migrations[i]
    }

    /// The scripts of the catalog, ascending by version.
    pub fn migrations(&self) -> (all: &Vec<Migration>)
        ensures
            migration_views(all@) == self@,
    {
        &self.migrations
    }

    /// The first place of the catalog whose version is not below `v`.
    pub fn lower_bound(&self, v: i64) -> (p: usize)
        ensures
            p <= self@.len(),
            forall|j: int| 0 <= j < p ==> self@[j].version < v,
            forall|j: int| p <= j < self@.len() ==> self@[j].version >= v,
    {
        proof {
            use_type_invariant(self);
        }
        let mut lo: usize = 0;
        let mut hi: usize = self.migrations.len();
        while lo < hi
            invariant
                self.wf(),
                lo <= hi <= self@.len(),
                forall|j: int| 0 <= j < lo ==> self@[j].version < v,
                forall|j: int| hi <= j < self@.len() ==> self@[j].version >= v,
            decreases hi - lo,
        {
            let mid = lo + (hi - lo) / 2;
            if self.migrations[mid].version < v {
                proof {
                    assert forall|j: int| 0 <= j < mid + 1 implies self@[j].version < v by {
                        assert(self@[j].version <= self@[mid as int].version || j == mid);
                    }
                }
                lo = mid + 1;
            } else {
                proof {
                    assert forall|j: int| mid <= j < self@.len() implies self@[j].version
                        >= v by {
                        assert(self@[mid as int].version <= self@[j].version || j == mid);
                    }
                }
                hi = mid;
            }
        }
        lo
    }

    /// Whether an "up" script of version `version` exists.
    pub fn version_exists(&self, version: i64) -> (r: bool)
        ensures
            r == has_up_version(self@, version as int),
    {
        proof {
            use_type_invariant(self);
        }
        let p = self.lower_bound(version);
        let n = self.migrations.len();
        let first = p < n && self.migrations[p].version == version
            && self.migrations[p].migration_type.is_up_migration();
        let second = p < n && p + 1 < n && self.migrations[p + 1].version == version
            && self.migrations[p + 1].migration_type.is_up_migration();
        proof {
            let c = self@;
            let x = p as int;
            if has_up_version(c, version as int) && !first && !second {
                let k = choose|k: int|
                    0 <= k < c.len() && c[k].version == version && c[k].migration_type.is_up();
                assert(k >= x + 2);
                assert(c[x].version <= c[x + 1].version);
                assert(c[x + 1].version <= c[k].version);
                assert(c[x].version == version && c[x + 1].version == version);
                assert(false);
            }
            if first {
                assert(c[x].version == version && c[x].migration_type.is_up());
            }
            if second {
                assert(c[x + 1].version == version && c[x + 1].migration_type.is_up());
            }
        }
        first || second
    }

    /// Whether a script of version `version` exists, of either side.
    pub fn contains_version(&self, version: i64) -> (r: bool)
        ensures
            r == has_version(self@, version as int),
    {
        proof {
            use_type_invariant(self);
        }
        let p = self.lower_bound(version);
        let r = p < self.migrations.len() && self.migrations[p].version == version;
        proof {
            if r {
                assert(self@[p as int].version == version);
            }
        }
        r
    }

    /// The version of the last script of the catalog, which no other exceeds.
    pub fn last_version(&self) -> (r: Option<i64>)
        ensures
            match r {
                Some(v) => self@.len() > 0 && v == self@.last().version,
                None => self@.len() == 0,
            },
    {
        let n = self.migrations.len();
        if n == 0 {
            None
        } else {
            Some(self.migrations[n - 1].version)
        }
    }
}

} // verus!
