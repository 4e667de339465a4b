use vstd::prelude::*;
use crate::applied::{applied_checksum, is_applied, lemma_deciding_row, AppliedIndex};
use crate::error::MigrateError;
use crate::migration::{applied_views, same_checksum, AppliedMigration, AppliedView, MigrationView};
use crate::migrator::Migrator;

verus! {

/// What a command reports of one script.
#[derive(Clone, Copy, Debug, PartialEq, Eq, Structural)]
pub enum StepStatus {
    /// The script lies beyond the target and is left alone.
    Skipped,
    /// A dry run: the script would be executed.
    CanApply,
    /// The script is executed against the store.
    Applied,
}

impl StepStatus {
    pub open spec fn spec_text(self) -> Seq<char> {
        match self {
            StepStatus::Skipped => "Skipped"@,
            StepStatus::CanApply => "Can apply"@,
            StepStatus::Applied => "Applied"@,
        }
    }

    /// The word under which the status is reported.
    pub fn text(&self) -> (s: &'static str)
        ensures
            s@ == self.spec_text(),
    {
        match self {
            StepStatus::Skipped => "Skipped",
            StepStatus::CanApply => "Can apply",
            StepStatus::Applied => "Applied",
        }
    }
}

/// One line of a command's report: the place of a script in the catalog and
/// what is done with it.
#[derive(Clone, Copy, Debug, PartialEq, Eq, Structural)]
pub struct Step {
    pub index: usize,
    pub status: StepStatus,
}

/// What a run does with an unapplied "up" script of version `version`.
pub open spec fn run_status(target: Option<i64>, dry_run: bool, version: int) -> StepStatus {
    if target is Some && version > target->0 {
        StepStatus::Skipped
    } else if dry_run {
        StepStatus::CanApply
    } else {
        StepStatus::Applied
    }
}

/// What a revert does with an applied "down" script of version `version`.
pub open spec fn revert_status(target: Option<i64>, dry_run: bool, version: int) -> StepStatus {
    if target is Some && version <= target->0 {
        StepStatus::Skipped
    } else if dry_run {
        StepStatus::CanApply
    } else {
        StepStatus::Applied
    }
}

/// Place `i` holds an "up" script that is not applied: a run reports it.
pub open spec fn pending_at(c: Seq<MigrationView>, a: Seq<AppliedView>, i: int) -> bool {
    c[i].migration_type.is_up() && !is_applied(a, c[i].version)
}

/// Place `i` holds an "up" script that is applied with another checksum than
/// the catalog has now.
pub open spec fn mismatched_at(c: Seq<MigrationView>, a: Seq<AppliedView>, i: int) -> bool {
    &&& c[i].migration_type.is_up()
    &&& is_applied(a, c[i].version)
    &&& applied_checksum(a, c[i].version) != c[i].checksum
}

/// Place `i` holds a "down" script whose version is applied: a revert reports
/// it.
pub open spec fn revertible_at(c: Seq<MigrationView>, a: Seq<AppliedView>, i: int) -> bool {
    c[i].migration_type.is_down() && is_applied(a, c[i].version)
}

/// The first place from `from` on that holds a mismatched script, and the
/// catalog's length where there is none.
pub open spec fn first_mismatch(c: Seq<MigrationView>, a: Seq<AppliedView>, from: int) -> int
    decreases c.len() - from,
{
    if from < 0 || from >= c.len() {
        c.len() as int
    } else if mismatched_at(c, a, from) {
        from
    } else {
        first_mismatch(c, a, from + 1)
    }
}

/// The report of a run over the places below `n`, in ascending order: one
/// line for each unapplied "up" script.
pub open spec fn run_steps(
    c: Seq<MigrationView>,
    a: Seq<AppliedView>,
    target: Option<i64>,
    dry_run: bool,
    n: int,
) -> Seq<Step>
    decreases n,
{
    if n <= 0 {
        Seq::empty()
    } else {
        let before = run_steps(c, a, target, dry_run, n - 1);
        if pending_at(c, a, n - 1) {
            before.push(
                Step {
                    index: (n - 1) as usize,
                    status: run_status(target, dry_run, c[n - 1].version),
                },
            )
        } else {
            before
        }
    }
}

/// The error that ends a run early, if one does: the first mismatched script.
pub open spec fn run_failure(c: Seq<MigrationView>, a: Seq<AppliedView>) -> Option<MigrateError> {
    let k = first_mismatch(c, a, 0);
    if k < c.len() {
        Some(MigrateError::VersionMismatch(c[k].version as i64))
    } else {
        None
    }
}

/// The report of a revert with a target over the places from `n` on, in
/// descending order: one line for each applied "down" script.
pub open spec fn revert_steps_from(
    c: Seq<MigrationView>,
    a: Seq<AppliedView>,
    target: Option<i64>,
    dry_run: bool,
    n: int,
) -> Seq<Step>
    decreases c.len() - n,
{
    if n < 0 || n >= c.len() {
        Seq::empty()
    } else {
        let later = revert_steps_from(c, a, target, dry_run, n + 1);
        if revertible_at(c, a, n) {
            later.push(
                Step { index: n as usize, status: revert_status(target, dry_run, c[n].version) },
            )
        } else {
            later
        }
    }
}

/// The report of a revert: with a target every applied "down" script, from
/// the highest place down; without one only the first of them.
pub open spec fn revert_steps(
    c: Seq<MigrationView>,
    a: Seq<AppliedView>,
    target: Option<i64>,
    dry_run: bool,
) -> Seq<Step> {
    let all = revert_steps_from(c, a, target, dry_run, 0);
    if target is None && all.len() > 0 {
        seq![all[0]]
    } else {
        all
    }
}

/// What a run is to do: the lines of its report in order, and the error that
/// ends it after the last of them, if any.
#[derive(Debug)]
pub struct Plan {
    pub steps: Vec<Step>,
    pub failure: Option<MigrateError>,
}

/// The report over the places from `n` on begins with the report over the
/// places from any later `m` on.
pub proof fn lemma_revert_steps_prefix(
    c: Seq<MigrationView>,
    a: Seq<AppliedView>,
    target: Option<i64>,
    dry_run: bool,
    n: int,
    m: int,
)
    requires
        0 <= n <= m <= c.len(),
    ensures
        revert_steps_from(c, a, target, dry_run, m).is_prefix_of(
            revert_steps_from(c, a, target, dry_run, n),
        ),
    decreases m - n,
{
    if n < m {
        lemma_revert_steps_prefix(c, a, target, dry_run, n + 1, m);
    }
}

/// No place before the first mismatched place is mismatched, and the first
/// mismatched place is, where there is one.
pub proof fn lemma_first_mismatch(c: Seq<MigrationView>, a: Seq<AppliedView>, from: int)
    requires
        0 <= from <= c.len(),
    ensures
        from <= first_mismatch(c, a, from) <= c.len(),
        forall|j: int| from <= j < first_mismatch(c, a, from) ==> !mismatched_at(c, a, j),
        first_mismatch(c, a, from) < c.len() ==> mismatched_at(c, a, first_mismatch(c, a, from)),
    decreases c.len() - from,
{
    if from < c.len() && !mismatched_at(c, a, from) {
        lemma_first_mismatch(c, a, from + 1);
    }
}

/// A line of a run's report over the places below `n` is sound: its place
/// lies below `n` and holds an unapplied "up" script, and its status is the
/// one that the target and the dry-run flag give that script.
pub open spec fn run_line_sound(
    c: Seq<MigrationView>,
    a: Seq<AppliedView>,
    target: Option<i64>,
    dry_run: bool,
    n: int,
    line: Step,
) -> bool {
    &&& 0 <= line.index < n
    &&& pending_at(c, a, line.index as int)
    &&& line.status == run_status(target, dry_run, c[line.index as int].version)
}

/// A line of a revert's report over the places from `n` on is sound: its
/// place lies there and holds a "down" script whose version is applied, and
/// its status is the one that the target and the dry-run flag give that
/// script.
pub open spec fn revert_line_sound(
    c: Seq<MigrationView>,
    a: Seq<AppliedView>,
    target: Option<i64>,
    dry_run: bool,
    n: int,
    line: Step,
) -> bool {
    &&& n <= line.index < c.len()
    &&& revertible_at(c, a, line.index as int)
    &&& line.status == revert_status(target, dry_run, c[line.index as int].version)
}

/// The report of a run over the places below `n` holds sound lines only, in
/// ascending order of place, and one for every unapplied "up" script there.
pub proof fn lemma_run_steps(
    c: Seq<MigrationView>,
    a: Seq<AppliedView>,
    target: Option<i64>,
    dry_run: bool,
    n: int,
)
    requires
        0 <= n <= c.len() <= usize::MAX,
    ensures
        forall|k: int|
            0 <= k < run_steps(c, a, target, dry_run, n).len() ==> run_line_sound(
                c,
                a,
                target,
                dry_run,
                n,
                #[trigger] run_steps(c, a, target, dry_run, n)[k],
            ),
        forall|j: int, k: int|
            0 <= j < k < run_steps(c, a, target, dry_run, n).len() ==> run_steps(
                c,
                a,
                target,
                dry_run,
                n,
            )[j].index < run_steps(c, a, target, dry_run, n)[k].index,
        forall|i: int|
            0 <= i < n && #[trigger] pending_at(c, a, i) ==> run_steps(
                c,
                a,
                target,
                dry_run,
                n,
            ).contains(Step { index: i as usize, status: run_status(target, dry_run, c[i].version) }),
    decreases n,
{
    if n > 0 {
        lemma_run_steps(c, a, target, dry_run, n - 1);
        let before = run_steps(c, a, target, dry_run, n - 1);
        let steps = run_steps(c, a, target, dry_run, n);
        assert forall|k: int| 0 <= k < steps.len() implies run_line_sound(
            c,
            a,
            target,
            dry_run,
            n,
            #[trigger] steps[k],
        ) by {
            if k < before.len() {
                assert(run_line_sound(c, a, target, dry_run, n - 1, before[k]));
            }
        }
        assert forall|j: int, k: int| 0 <= j < k < steps.len() implies steps[j].index
            < steps[k].index by {
            assert(run_line_sound(c, a, target, dry_run, n - 1, before[j]));
            if k < before.len() {
            }
        }
        assert forall|i: int| 0 <= i < n && #[trigger] pending_at(c, a, i) implies steps.contains(
            Step { index: i as usize, status: run_status(target, dry_run, c[i].version) },
        ) by {
            let line = Step { index: i as usize, status: run_status(target, dry_run, c[i].version) };
            if i < n - 1 {
                assert(before.contains(line));
                let k = choose|k: int| 0 <= k < before.len() && before[k] == line;
                assert(steps[k] == line);
            } else {
                assert(steps[steps.len() - 1] == line);
            }
        }
    }
}

/// The report of a revert over the places from `n` on holds sound lines
/// only, in descending order of place, and one for every applied "down"
/// script there.
pub proof fn lemma_revert_steps_from(
    c: Seq<MigrationView>,
    a: Seq<AppliedView>,
    target: Option<i64>,
    dry_run: bool,
    n: int,
)
    requires
        0 <= n <= c.len() <= usize::MAX,
    ensures
        forall|k: int|
            0 <= k < revert_steps_from(c, a, target, dry_run, n).len() ==> revert_line_sound(
                c,
                a,
                target,
                dry_run,
                n,
                #[trigger] revert_steps_from(c, a, target, dry_run, n)[k],
            ),
        forall|j: int, k: int|
            0 <= j < k < revert_steps_from(c, a, target, dry_run, n).len() ==> revert_steps_from(
                c,
                a,
                target,
                dry_run,
                n,
            )[j].index > revert_steps_from(c, a, target, dry_run, n)[k].index,
        forall|i: int|
            n <= i < c.len() && #[trigger] revertible_at(c, a, i) ==> revert_steps_from(
                c,
                a,
                target,
                dry_run,
                n,
            ).contains(
                Step { index: i as usize, status: revert_status(target, dry_run, c[i].version) },
            ),
    decreases c.len() - n,
{
    if n < c.len() {
        lemma_revert_steps_from(c, a, target, dry_run, n + 1);
        let later = revert_steps_from(c, a, target, dry_run, n + 1);
        let steps = revert_steps_from(c, a, target, dry_run, n);
        assert forall|k: int| 0 <= k < steps.len() implies revert_line_sound(
            c,
            a,
            target,
            dry_run,
            n,
            #[trigger] steps[k],
        ) by {
            if k < later.len() {
                assert(revert_line_sound(c, a, target, dry_run, n + 1, later[k]));
            }
        }
        assert forall|j: int, k: int| 0 <= j < k < steps.len() implies steps[j].index
            > steps[k].index by {
            assert(revert_line_sound(c, a, target, dry_run, n + 1, later[j]));
            if k < later.len() {
            }
        }
        assert forall|i: int|
            n <= i < c.len() && #[trigger] revertible_at(c, a, i) implies steps.contains(
            Step { index: i as usize, status: revert_status(target, dry_run, c[i].version) },
        ) by {
            let line = Step {
                index: i as usize,
                status: revert_status(target, dry_run, c[i].version),
            };
            if i > n {
                assert(later.contains(line));
                let k = choose|k: int| 0 <= k < later.len() && later[k] == line;
                assert(steps[k] == line);
            } else {
                assert(steps[steps.len() - 1] == line);
            }
        }
    }
}

/// Decides what a run does with each script of the catalog, given the rows
/// that the store reports as applied.
///
/// The catalog is walked in ascending order. "Down" scripts are passed over.
/// An applied script whose checksum has changed ends the walk with
/// `VersionMismatch`; the lines before it stand. An unapplied script gets one
/// line: `Skipped` beyond the target, else `CanApply` in a dry run, else
/// `Applied`.
pub fn plan_run(
    migrator: &Migrator,
    applied: &Vec<AppliedMigration>,
    target_version: Option<i64>,
    dry_run: bool,
) -> (plan: Plan)
    ensures
        plan.steps@ == run_steps(
            migrator@,
            applied_views(applied@),
            target_version,
            dry_run,
            first_mismatch(migrator@, applied_views(applied@), 0),
        ),
        plan.failure == run_failure(migrator@, applied_views(applied@)),
{
    let ghost c = migrator@;
    let ghost a = applied_views(applied@);
    let index = AppliedIndex::new(applied);
    let n = migrator.len();
    let mut steps: Vec<Step> = Vec::new();
    let mut i: usize = 0;
    while i < n
        invariant
            c == migrator@,
            a == applied_views(applied@),
            index.indexes(a),
            n == c.len(),
            i <= n,
            first_mismatch(c, a, 0) == first_mismatch(c, a, i as int),
            steps@ == run_steps(c, a, target_version, dry_run, i as int),
        decreases n - i,
    {
        let m = migrator.get(i);
        if m.migration_type.is_up_migration() {
            match index.find(m.version) {
                Some(k) => {
                    proof {
                        lemma_deciding_row(a, m.version as int, k as int);
                    }
                    if !same_checksum(&m.checksum, &applied[k].checksum) {
                        assert(mismatched_at(c, a, i as int));
                        return Plan {
                            steps,
                            failure: Some(MigrateError::VersionMismatch(m.version)),
                        };
                    }
                },
                None => {
                    let skip = match target_version {
                        Some(t) => m.version > t,
                        None => false,
                    };
                    let status = if skip {
                        StepStatus::Skipped
                    } else if dry_run {
                        StepStatus::CanApply
                    } else {
                        StepStatus::Applied
                    };
                    steps.push(Step { index: i, status });
                },
            }
        }
        i += 1;
    }
    Plan { steps, failure: None }
}

/// Decides what a revert does with each script of the catalog, given the
/// rows that the store reports as applied.
///
/// The catalog is walked in descending order. Only "down" scripts whose
/// version is applied get a line: `Skipped` at or below the target, else
/// `CanApply` in a dry run, else `Applied`. Without a target the walk ends
/// after the first line. An empty report means that nothing can be reverted.
pub fn plan_revert(
    migrator: &Migrator,
    applied: &Vec<AppliedMigration>,
    target_version: Option<i64>,
    dry_run: bool,
) -> (steps: Vec<Step>)
    ensures
        steps@ == revert_steps(migrator@, applied_views(applied@), target_version, dry_run),
{
    let ghost c = migrator@;
    let ghost a = applied_views(applied@);
    let index = AppliedIndex::new(applied);
    let n = migrator.len();
    let mut steps: Vec<Step> = Vec::new();
    let mut i: usize = n;
    while i > 0
        invariant
            c == migrator@,
            a == applied_views(applied@),
            index.indexes(a),
            n == c.len(),
            i <= n,
            steps@ == revert_steps_from(c, a, target_version, dry_run, i as int),
            target_version is None ==> steps@.len() == 0,
        decreases i,
    {
        i -= 1;
        let m = migrator.get(i);
        if m.migration_type.is_down_migration() {
            let found = index.find(m.version);
            if found.is_some() {
                proof {
                    lemma_deciding_row(a, m.version as int, found.unwrap() as int);
                }
                let skip = match target_version {
                    Some(t) => m.version <= t,
                    None => false,
                };
                let status = if skip {
                    StepStatus::Skipped
                } else if dry_run {
                    StepStatus::CanApply
                } else {
                    StepStatus::Applied
                };
                steps.push(Step { index: i, status });
                if target_version.is_none() {
                    proof {
                        lemma_revert_steps_prefix(c, a, target_version, dry_run, 0, i as int);
                        let all = revert_steps_from(c, a, target_version, dry_run, 0);
                        assert(all[0] == steps@[0]);
                        assert(steps@ =~= seq![all[0]]);
                    }
                    return steps;
                }
            }
        }
    }
    steps
}

} // verus!
