use vstd::prelude::*;
use crate::migration::MigrationView;
use crate::migrator::Migrator;
use crate::text::{padded, zero_padded};

verus! {

/// The prefix of the name of a new script file, which orders it among the
/// others: the time at which it was made, or the next number in sequence.
#[derive(Debug)]
pub enum MigrationOrdering {
    Timestamp(String),
    Sequential(String),
}

/// The highest place below `n` that holds an "up" script, and -1 where no
/// place below `n` does.
pub open spec fn last_up_below(c: Seq<MigrationView>, n: int) -> int
    decreases n,
{
    if n <= 0 {
        -1
    } else if c[n - 1].migration_type.is_up() {
        n - 1
    } else {
        last_up_below(c, n - 1)
    }
}

/// The version that the next script gets where it is numbered in sequence,
/// and `None` where it is named by the time.
///
/// With the flag `timestamp` it is named by the time. With the flag
/// `sequential` it gets the version after that of the last script, and 1 in
/// an empty catalog. With neither, the last two "up" scripts decide: versions
/// that differ by exactly 1 are continued, and so is a single script of
/// version 0 or 1.
pub open spec fn inferred_version(
    sequential: bool,
    timestamp: bool,
    c: Seq<MigrationView>,
) -> Option<int> {
    if timestamp {
        None
    } else if sequential {
        Some(
            if c.len() == 0 {
                1
            } else {
                c.last().version + 1
            },
        )
    } else {
        let last = last_up_below(c, c.len() as int);
        let before = last_up_below(c, last);
        if last < 0 {
            None
        } else if before < 0 {
            if c[last].version == 0 || c[last].version == 1 {
                Some(c[last].version + 1)
            } else {
                None
            }
        } else if c[last].version - c[before].version == 1 {
            Some(c[last].version + 1)
        } else {
            None
        }
    }
}

/// Place `l` holds the only "up" script of the catalog.
pub open spec fn only_up(c: Seq<MigrationView>, l: int) -> bool {
    &&& 0 <= l < c.len()
    &&& c[l].migration_type.is_up()
    &&& forall|j: int| 0 <= j < c.len() && j != l ==> !c[j].migration_type.is_up()
}

/// Places `p` and `l` hold the two most recent "up" scripts of the catalog,
/// `l` the later one.
pub open spec fn two_latest_ups(c: Seq<MigrationView>, p: int, l: int) -> bool {
    &&& 0 <= p < l < c.len()
    &&& c[p].migration_type.is_up()
    &&& c[l].migration_type.is_up()
    &&& forall|j: int| p < j < c.len() && j != l ==> !c[j].migration_type.is_up()
}

/// `last_up_below` finds the highest place below `n` that holds an "up"
/// script.
pub proof fn lemma_last_up_below(c: Seq<MigrationView>, n: int)
    requires
        0 <= n <= c.len(),
    ensures
        -1 <= last_up_below(c, n) < n,
        last_up_below(c, n) >= 0 ==> c[last_up_below(c, n)].migration_type.is_up(),
        forall|j: int| last_up_below(c, n) < j < n ==> !c[j].migration_type.is_up(),
    decreases n,
{
    if n > 0 && !c[n - 1].migration_type.is_up() {
        lemma_last_up_below(c, n - 1);
    }
}

/// With neither flag set, the naming of the next script follows the catalog:
/// where its two most recent "up" scripts differ by exactly 1 in version the
/// sequence is continued, and otherwise the time is taken; a single "up"
/// script continues the sequence where its version is 0 or 1; and without
/// any "up" script the time is taken.
pub proof fn lemma_inference(c: Seq<MigrationView>)
    ensures
        forall|p: int, l: int| #[trigger]
            two_latest_ups(c, p, l) ==> inferred_version(false, false, c) == (if c[l].version
                - c[p].version == 1 {
                Some(c[l].version + 1)
            } else {
                None
            }),
        forall|l: int| #[trigger]
            only_up(c, l) ==> inferred_version(false, false, c) == (if c[l].version == 0
                || c[l].version == 1 {
                Some(c[l].version + 1)
            } else {
                None
            }),
        (forall|j: int| 0 <= j < c.len() ==> !c[j].migration_type.is_up()) ==> inferred_version(
            false,
            false,
            c,
        ) is None,
{
    let n = c.len() as int;
    lemma_last_up_below(c, n);
    let last = last_up_below(c, n);
    if last >= 0 {
        lemma_last_up_below(c, last);
    }
    let before = last_up_below(c, last);
    assert forall|p: int, l: int| #[trigger] two_latest_ups(c, p, l) implies inferred_version(
        false,
        false,
        c,
    ) == (if c[l].version - c[p].version == 1 {
        Some(c[l].version + 1)
    } else {
        None
    }) by {
        assert(last == l);
        assert(before == p);
    }
    assert forall|l: int| #[trigger] only_up(c, l) implies inferred_version(false, false, c) == (
    if c[l].version == 0 || c[l].version == 1 {
        Some(c[l].version + 1)
    } else {
        None
    }) by {
        assert(last == l);
        if before >= 0 {
            assert(c[before].migration_type.is_up());
        }
    }
}

/// One of the ten digits of base 10.
pub open spec fn is_decimal_digit(c: char) -> bool {
    c == '0' || c == '1' || c == '2' || c == '3' || c == '4' || c == '5' || c == '6' || c == '7'
        || c == '8' || c == '9'
}

/// The text is a moment written as year, month, day, hour, minute and
/// second, without anything between them: four digits for the year and two
/// for each of the others, fourteen in all. A year after 9999 has five or six
/// digits instead, and a plus sign before them.
pub open spec fn timestamp_shaped(s: Seq<char>) -> bool {
    if s.len() == 14 {
        forall|i: int| 0 <= i < s.len() ==> is_decimal_digit(#[trigger] s[i])
    } else {
        &&& 16 <= s.len() <= 17
        &&& s[0] == '+'
        &&& forall|i: int| 1 <= i < s.len() ==> is_decimal_digit(#[trigger] s[i])
    }
}

/// `chrono::Utc::now` reads the system clock, and `format` with the pattern
/// `%Y%m%d%H%M%S` writes that moment as year, month, day, hour, minute and
/// second. Which moment it is depends on the clock, so the contract claims
/// only the shape that every moment is written in: chrono writes a year from
/// 1000 to 9999 as four digits, a later year as a plus sign and its five or
/// six digits (no year exceeds 262142), and each of the other five numbers as
/// two digits. Where the clock stands before the year 1970, `now` does not
/// return, so no earlier year is written.
#[verifier::external_body]
fn utc_timestamp() -> (now: String)
    ensures
        timestamp_shaped(now@),
{
    chrono::Utc::now().format("%Y%m%d%H%M%S").to_string()
}

fn last_up(migrator: &Migrator, n: usize) -> (r: Option<usize>)
    requires
        n <= migrator@.len(),
    ensures
        match r {
            Some(i) => i < n && i == last_up_below(migrator@, n as int),
            None => last_up_below(migrator@, n as int) == -1,
        },
{
    let mut i: usize = n;
    while i > 0
        invariant
            i <= n <= migrator@.len(),
            last_up_below(migrator@, n as int) == last_up_below(migrator@, i as int),
        decreases i,
    {
        i -= 1;
        if migrator.get(i).migration_type.is_up_migration() {
            return Some(i);
        }
    }
    None
}

impl MigrationOrdering {
    /// The prefix that the ordering gives to a file name.
    pub open spec fn prefix(&self) -> Seq<char> {
        match self {
            MigrationOrdering::Timestamp(p) => p@,
            MigrationOrdering::Sequential(p) => p@,
        }
    }

    /// The ordering by the time that the system clock shows now: its prefix
    /// is that moment as year, month, day, hour, minute and second.
    pub fn timestamp() -> (o: MigrationOrdering)
        ensures
            o is Timestamp,
            timestamp_shaped(o.prefix()),
    {
        MigrationOrdering::Timestamp(utc_timestamp())
    }

    /// The ordering by number: `version` in base 10, filled up with zeros to
    /// four characters.
    pub fn sequential(version: i64) -> (o: MigrationOrdering)
        ensures
            o is Sequential,
            o.prefix() == padded(version as int, 4),
    {
        MigrationOrdering::Sequential(zero_padded(version))
    }

    pub fn file_prefix(&self) -> (p: &str)
        ensures
            p@ == self.prefix(),
    {
        match self {
            MigrationOrdering::Timestamp(prefix) => prefix.as_str(),
            MigrationOrdering::Sequential(prefix) => prefix.as_str(),
        }
    }

    /// Whether the version that the next script gets, where it is numbered
    /// in sequence, is one that a script can have: the successor of the
    /// greatest version there is, is not.
    pub fn sequence_fits(sequential: bool, timestamp: bool, migrator: &Migrator) -> (r: bool)
        ensures
            r == (inferred_version(sequential, timestamp, migrator@) is Some ==> inferred_version(
                sequential,
                timestamp,
                migrator@,
            )->0 <= i64::MAX),
    {
        if timestamp {
            return true;
        }
        if sequential {
            return match migrator.last_version() {
                Some(v) => v < i64::MAX,
                None => true,
            };
        }
        let last = match last_up(migrator, migrator.len()) {
            Some(i) => i,
            None => {
                return true;
            },
        };
        let latest = migrator.get(last).version;
        match last_up(migrator, last) {
            Some(i) => {
                let previous = migrator.get(i).version;
                !(previous < i64::MAX && previous + 1 == latest) || latest < i64::MAX
            },
            None => true,
        }
    }

    /// The version that the next script gets where it is numbered in
    /// sequence, and `None` where it is named by the time.
    pub fn next_version(sequential: bool, timestamp: bool, migrator: &Migrator) -> (r: Option<i64>)
        requires
            !(sequential && timestamp),
            inferred_version(sequential, timestamp, migrator@) is Some ==> inferred_version(
                sequential,
                timestamp,
                migrator@,
            )->0 <= i64::MAX,
        ensures
            match r {
                Some(v) => inferred_version(sequential, timestamp, migrator@) == Some(v as int),
                None => inferred_version(sequential, timestamp, migrator@) is None,
            },
    {
        if timestamp {
            return None;
        }
        if sequential {
            return match migrator.last_version() {
                Some(v) => Some(v + 1),
                None => Some(1),
            };
        }
        let last = match last_up(migrator, migrator.len()) {
            Some(i) => i,
            None => {
                return None;
            },
        };
        let latest = migrator.get(last).version;
        match last_up(migrator, last) {
            Some(i) => {
                let previous = migrator.get(i).version;
                if previous < i64::MAX && previous + 1 == latest {
                    Some(latest + 1)
                } else {
                    None
                }
            },
            None => {
                if latest == 0 || latest == 1 {
                    Some(latest + 1)
                } else {
                    None
                }
            },
        }
    }

    /// The ordering of the next script, where `now` is the time to name it
    /// by.
    pub fn infer_at(sequential: bool, timestamp: bool, migrator: &Migrator, now: String) -> (o:
        MigrationOrdering)
        requires
            !(sequential && timestamp),
            inferred_version(sequential, timestamp, migrator@) is Some ==> inferred_version(
                sequential,
                timestamp,
                migrator@,
            )->0 <= i64::MAX,
        ensures
            match inferred_version(sequential, timestamp, migrator@) {
                Some(v) => o is Sequential && o.prefix() == padded(v, 4),
                None => o == MigrationOrdering::Timestamp(now),
            },
    {
        match MigrationOrdering::next_version(sequential, timestamp, migrator) {
            Some(v) => MigrationOrdering::sequential(v),
            None => MigrationOrdering::Timestamp(now),
        }
    }

    /// The ordering of the next script: by number where a flag or the
    /// catalog asks for it, and else by the time that the system clock shows
    /// now.
    pub fn infer(sequential: bool, timestamp: bool, migrator: &Migrator) -> (o: MigrationOrdering)
        requires
            !(sequential && timestamp),
            inferred_version(sequential, timestamp, migrator@) is Some ==> inferred_version(
                sequential,
                timestamp,
                migrator@,
            )->0 <= i64::MAX,
        ensures
            match inferred_version(sequential, timestamp, migrator@) {
                Some(v) => o is Sequential && o.prefix() == padded(v, 4),
                None => o is Timestamp && timestamp_shaped(o.prefix()),
            },
    {
        match MigrationOrdering::next_version(sequential, timestamp, migrator) {
            Some(v) => MigrationOrdering::sequential(v),
            None => MigrationOrdering::timestamp(),
        }
    }
}

} // verus!
