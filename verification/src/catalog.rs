use vstd::prelude::*;
use vstd::multiset::Multiset;
use vstd::seq_lib::*;
use crate::migration::MigrationView;

verus! {

/// Versions never decrease along the sequence.
pub open spec fn sorted_by_version(c: Seq<MigrationView>) -> bool {
    forall|i: int, j: int| 0 <= i < j < c.len() ==> c[i].version <= c[j].version
}

/// Two scripts of one version stand on different sides: at most one "up"
/// script and at most one "down" script per version.
pub open spec fn distinct_sides(c: Seq<MigrationView>) -> bool {
    forall|i: int, j: int|
        0 <= i < j < c.len() && c[i].version == c[j].version
            ==> c[i].migration_type.is_down() != c[j].migration_type.is_down()
}

/// Two scripts of the same side carry version `v`.
pub open spec fn duplicated(c: Seq<MigrationView>, v: int) -> bool {
    exists|i: int, j: int|
        0 <= i < j < c.len() && c[i].version == v && c[j].version == v
            && c[i].migration_type.is_down() == c[j].migration_type.is_down()
}

/// What a catalog has to be: ascending by version, one script per version
/// and side.
pub open spec fn well_formed(c: Seq<MigrationView>) -> bool {
    sorted_by_version(c) && distinct_sides(c)
}

/// Some script, of either side, carries version `v`.
pub open spec fn has_version(c: Seq<MigrationView>, v: int) -> bool {
    exists|i: int| 0 <= i < c.len() && c[i].version == v
}

/// An "up" script carries version `v`.
pub open spec fn has_up_version(c: Seq<MigrationView>, v: int) -> bool {
    exists|i: int| 0 <= i < c.len() && c[i].version == v && c[i].migration_type.is_up()
}

/// A "down" script carries version `v`.
pub open spec fn has_down_version(c: Seq<MigrationView>, v: int) -> bool {
    exists|i: int| 0 <= i < c.len() && c[i].version == v && c[i].migration_type.is_down()
}

/// The number of scripts at the front of `c` whose version is below `v`,
/// counted up to the first script that is not.
pub open spec fn insert_position(c: Seq<MigrationView>, v: int) -> int
    decreases c.len(),
{
    if c.len() == 0 || c[0].version >= v {
        0
    } else {
        1 + insert_position(c.drop_first(), v)
    }
}

/// The scripts of `c` in ascending order of version, scripts of one version
/// in the order in which `c` holds them.
pub open spec fn sort_by_version(c: Seq<MigrationView>) -> Seq<MigrationView>
    decreases c.len(),
{
    if c.len() == 0 {
        c
    } else {
        let rest = sort_by_version(c.drop_first());
        rest.insert(insert_position(rest, c[0].version), c[0])
    }
}

/// `insert_position` is the one index that parts the scripts below `v` from
/// the rest, wherever such an index exists.
pub proof fn lemma_insert_position(c: Seq<MigrationView>, v: int, p: int)
    requires
        0 <= p <= c.len(),
        forall|j: int| 0 <= j < p ==> c[j].version < v,
        p < c.len() ==> c[p].version >= v,
    ensures
        insert_position(c, v) == p,
    decreases c.len(),
{
    if p > 0 {
        let rest = c.drop_first();
        assert forall|j: int| 0 <= j < p - 1 implies rest[j].version < v by {
            assert(rest[j] == c[j + 1]);
        }
        if p - 1 < rest.len() {
            assert(rest[p - 1] == c[p]);
        }
        lemma_insert_position(rest, v, p - 1);
    }
}

/// `insert_position` lies within the sequence, with only smaller versions
/// before it and no smaller version at it.
pub proof fn lemma_insert_position_bounds(c: Seq<MigrationView>, v: int)
    ensures
        0 <= insert_position(c, v) <= c.len(),
        forall|j: int| 0 <= j < insert_position(c, v) ==> c[j].version < v,
        insert_position(c, v) < c.len() ==> c[insert_position(c, v)].version >= v,
    decreases c.len(),
{
    if c.len() == 0 || c[0].version >= v {
    } else {
        let rest = c.drop_first();
        lemma_insert_position_bounds(rest, v);
        let p = insert_position(rest, v);
        assert forall|j: int| 0 <= j < p + 1 implies c[j].version < v by {
            if j > 0 {
                assert(rest[j - 1] == c[j]);
            }
        }
        if p + 1 < c.len() {
            assert(rest[p] == c[p + 1]);
        }
    }
}

/// Sorting yields an ascending sequence that holds the same scripts, each as
/// often as before.
pub proof fn lemma_sort_by_version(c: Seq<MigrationView>)
    ensures
        sorted_by_version(sort_by_version(c)),
        sort_by_version(c).len() == c.len(),
        sort_by_version(c).to_multiset() == c.to_multiset(),
    decreases c.len(),
{
    if c.len() == 0 {
    } else {
        let rest = sort_by_version(c.drop_first());
        let x = c[0];
        let p = insert_position(rest, x.version);
        lemma_sort_by_version(c.drop_first());
        lemma_insert_position_bounds(rest, x.version);
        let out = rest.insert(p, x);
        assert forall|i: int, j: int| 0 <= i < j < out.len() implies out[i].version
            <= out[j].version by {
            if i < p && j > p {
                assert(out[i] == rest[i]);
                assert(out[j] == rest[j - 1]);
            } else if i < p && j < p {
                assert(out[i] == rest[i] && out[j] == rest[j]);
            } else if i == p {
                assert(out[j] == rest[j - 1]);
                assert(rest[p].version <= rest[j - 1].version || p == j - 1);
            } else if j == p {
                assert(out[i] == rest[i]);
            } else {
                assert(out[i] == rest[i - 1] && out[j] == rest[j - 1]);
            }
        }
        to_multiset_insert(rest, p, x);
        lemma_multiset_commutative(seq![x], c.drop_first());
        assert(seq![x] + c.drop_first() =~= c);
        assert(seq![x] =~= Seq::<MigrationView>::empty().push(x));
        to_multiset_build(Seq::<MigrationView>::empty(), x);
        assert(Seq::<MigrationView>::empty().to_multiset() =~= Multiset::<MigrationView>::empty()) by {
            Seq::<MigrationView>::empty().to_multiset_ensures();
        }
        assert(out.to_multiset() =~= c.to_multiset());
    }
}

/// A script of version `v` on the side `down` stands in `c`.
pub open spec fn occurs(c: Seq<MigrationView>, v: int, down: bool) -> bool {
    exists|k: int|
        0 <= k < c.len() && c[k].version == v && c[k].migration_type.is_down() == down
}

/// With one more script in it, a sequence holds a script of a version and
/// side where it did before or where the new script is one.
pub proof fn lemma_occurs_insert(c: Seq<MigrationView>, p: int, x: MigrationView, v: int, down: bool)
    requires
        0 <= p <= c.len(),
    ensures
        occurs(c.insert(p, x), v, down) <==> occurs(c, v, down) || (x.version == v
            && x.migration_type.is_down() == down),
{
    let out = c.insert(p, x);
    if occurs(c, v, down) {
        let k = choose|k: int|
            0 <= k < c.len() && c[k].version == v && c[k].migration_type.is_down() == down;
        let at = if k < p {
            k
        } else {
            k + 1
        };
        assert(out[at] == c[k]);
    }
    if x.version == v && x.migration_type.is_down() == down {
        assert(out[p] == x);
    }
    if occurs(out, v, down) {
        let k = choose|k: int|
            0 <= k < out.len() && out[k].version == v && out[k].migration_type.is_down() == down;
        if k < p {
            assert(out[k] == c[k]);
        } else if k > p {
            assert(out[k] == c[k - 1]);
        }
    }
}

/// With one more script in it, a sequence holds two scripts of one version
/// and side where it did before or where it held one like the new script.
pub proof fn lemma_duplicated_insert(c: Seq<MigrationView>, p: int, x: MigrationView, v: int)
    requires
        0 <= p <= c.len(),
    ensures
        duplicated(c.insert(p, x), v) <==> duplicated(c, v) || (x.version == v && occurs(
            c,
            v,
            x.migration_type.is_down(),
        )),
{
    let out = c.insert(p, x);
    if duplicated(c, v) {
        let (i, j) = choose|i: int, j: int|
            0 <= i < j < c.len() && c[i].version == v && c[j].version == v
                && c[i].migration_type.is_down() == c[j].migration_type.is_down();
        let i2 = if i < p {
            i
        } else {
            i + 1
        };
        let j2 = if j < p {
            j
        } else {
            j + 1
        };
        assert(out[i2] == c[i] && out[j2] == c[j]);
        assert(0 <= i2 < j2 < out.len());
    }
    if x.version == v && occurs(c, v, x.migration_type.is_down()) {
        let k = choose|k: int|
            0 <= k < c.len() && c[k].version == v && c[k].migration_type.is_down()
                == x.migration_type.is_down();
        assert(out[p] == x);
        if k < p {
            assert(out[k] == c[k]);
            assert(0 <= k < p < out.len());
        } else {
            assert(out[k + 1] == c[k]);
            assert(0 <= p < k + 1 < out.len());
        }
    }
    if duplicated(out, v) {
        let (i, j) = choose|i: int, j: int|
            0 <= i < j < out.len() && out[i].version == v && out[j].version == v
                && out[i].migration_type.is_down() == out[j].migration_type.is_down();
        if i == p {
            assert(out[j] == c[j - 1]);
        } else if j == p {
            assert(out[i] == c[i]);
        } else {
            let i2 = if i < p {
                i
            } else {
                i - 1
            };
            let j2 = if j < p {
                j
            } else {
                j - 1
            };
            assert(out[i] == c[i2] && out[j] == c[j2]);
            assert(0 <= i2 < j2 < c.len());
        }
    }
}

/// Sorting keeps what stands in the sequence: a script of a version and side
/// stands in the sorted sequence exactly where one stood before.
pub proof fn lemma_sort_keeps_occurs(c: Seq<MigrationView>, v: int, down: bool)
    ensures
        occurs(sort_by_version(c), v, down) <==> occurs(c, v, down),
    decreases c.len(),
{
    if c.len() > 0 {
        let tail = c.drop_first();
        let rest = sort_by_version(tail);
        lemma_sort_keeps_occurs(tail, v, down);
        lemma_insert_position_bounds(rest, c[0].version);
        lemma_occurs_insert(rest, insert_position(rest, c[0].version), c[0], v, down);
        lemma_occurs_insert(tail, 0, c[0], v, down);
        assert(tail.insert(0, c[0]) =~= c);
    }
}

/// Sorting neither makes nor mends a duplicate: two scripts of one side
/// carry a version in the sorted sequence exactly where two did before.
pub proof fn lemma_sort_keeps_duplicates(c: Seq<MigrationView>, v: int)
    ensures
        duplicated(sort_by_version(c), v) <==> duplicated(c, v),
    decreases c.len(),
{
    if c.len() > 0 {
        let tail = c.drop_first();
        let rest = sort_by_version(tail);
        lemma_sort_keeps_duplicates(tail, v);
        lemma_sort_keeps_occurs(tail, v, c[0].migration_type.is_down());
        lemma_insert_position_bounds(rest, c[0].version);
        lemma_duplicated_insert(rest, insert_position(rest, c[0].version), c[0], v);
        lemma_duplicated_insert(tail, 0, c[0], v);
        assert(tail.insert(0, c[0]) =~= c);
    }
}

/// A sequence without a duplicate is one in which scripts of one version
/// stand on different sides.
pub proof fn lemma_distinct_sides(c: Seq<MigrationView>)
    ensures
        distinct_sides(c) <==> forall|v: int| !duplicated(c, v),
{
    if distinct_sides(c) {
        assert forall|v: int| !duplicated(c, v) by {
            if duplicated(c, v) {
                let (i, j) = choose|i: int, j: int|
                    0 <= i < j < c.len() && c[i].version == v && c[j].version == v
                        && c[i].migration_type.is_down() == c[j].migration_type.is_down();
                assert(c[i].version == c[j].version);
            }
        }
    }
    if forall|v: int| !duplicated(c, v) {
        assert forall|i: int, j: int|
            0 <= i < j < c.len() && c[i].version == c[j].version implies c[i].migration_type.is_down()
            != c[j].migration_type.is_down() by {
            assert(!duplicated(c, c[i].version));
        }
    }
}

} // verus!
