use vstd::prelude::*;
use crate::applied::is_applied;
use crate::catalog::sorted_by_version;
use crate::bookkeeping::{lemma_without_version, row_of};
use crate::commands::{carried_out, early_failure, rows_after, rows_after_step};
use crate::error::MigrateError;
use crate::migration::{AppliedView, MigrationView};
use crate::plan::{
    first_mismatch, lemma_first_mismatch, lemma_revert_steps_from, lemma_run_steps,
    mismatched_at, pending_at, revert_line_sound, revert_status, revert_steps,
    revert_steps_from, revertible_at, run_line_sound, Step, StepStatus,
};
use crate::protocol::{
    close_with, next_state, planned_steps, target_absent, Action, Command, EventView, Options,
    Outcome, Phase, SessionView,
};
use crate::status::{status_of, MigrationStatus};

verus! {

/// Lines of which none has the status `Applied` leave the rows as they are.
pub proof fn lemma_rows_untouched(
    command: Command,
    c: Seq<MigrationView>,
    a: Seq<AppliedView>,
    lines: Seq<Step>,
    n: int,
)
    requires
        0 <= n <= lines.len(),
        forall|k: int| 0 <= k < lines.len() ==> (#[trigger] lines[k]).status != StepStatus::Applied,
    ensures
        rows_after(command, c, a, lines, n) == a,
    decreases n,
{
    if n > 0 {
        lemma_rows_untouched(command, c, a, lines, n - 1);
        assert(lines[n - 1].status != StepStatus::Applied);
    }
}

/// No line of a dry run has the status `Applied`.
pub proof fn lemma_dry_run_lines(
    command: Command,
    c: Seq<MigrationView>,
    a: Seq<AppliedView>,
    options: Options,
)
    requires
        options.dry_run,
        c.len() <= usize::MAX,
    ensures
        forall|k: int|
            0 <= k < planned_steps(command, c, a, options).len() ==> (#[trigger] planned_steps(
                command,
                c,
                a,
                options,
            )[k]).status != StepStatus::Applied,
{
    let steps = planned_steps(command, c, a, options);
    match command {
        Command::Run => {
            lemma_first_mismatch(c, a, 0);
            let stop = first_mismatch(c, a, 0);
            lemma_run_steps(c, a, options.target_version, true, stop);
            assert forall|k: int| 0 <= k < steps.len() implies (#[trigger] steps[k]).status
                != StepStatus::Applied by {
                assert(run_line_sound(c, a, options.target_version, true, stop, steps[k]));
            }
        },
        Command::Revert => {
            lemma_revert_steps_from(c, a, options.target_version, true, 0);
            let all = revert_steps_from(c, a, options.target_version, true, 0);
            assert forall|k: int| 0 <= k < steps.len() implies (#[trigger] steps[k]).status
                != StepStatus::Applied by {
                assert(revert_line_sound(c, a, options.target_version, true, 0, all[k]));
            }
        },
    }
}

/// A dry run changes no row, whichever the command and however it ends. A
/// dry run that nothing stops early reports `CanApply` for every unapplied
/// "up" script that lies before the first mismatched script and not beyond
/// the target.
pub proof fn lemma_dry_run(
    command: Command,
    options: Options,
    c: Seq<MigrationView>,
    dirty: Option<i64>,
    a: Seq<AppliedView>,
    lines: Seq<Step>,
    noted: bool,
    outcome: Outcome,
    rows: Seq<AppliedView>,
)
    requires
        options.dry_run,
        c.len() <= usize::MAX,
        carried_out(command, options, c, dirty, a, lines, noted, outcome, rows),
    ensures
        rows == a,
        forall|k: int| 0 <= k < lines.len() ==> (#[trigger] lines[k]).status != StepStatus::Applied,
        command == Command::Run && early_failure(command, c, dirty, a, options) is None
            ==> forall|i: int|
            0 <= i < first_mismatch(c, a, 0) && #[trigger] pending_at(c, a, i) && !(
            options.target_version is Some && c[i].version > options.target_version->0)
                ==> lines.contains(Step { index: i as usize, status: StepStatus::CanApply }),
{
    if early_failure(command, c, dirty, a, options) is None {
        let steps = planned_steps(command, c, a, options);
        lemma_dry_run_lines(command, c, a, options);
        lemma_rows_untouched(command, c, a, steps, steps.len() as int);
        if command == Command::Run {
            lemma_first_mismatch(c, a, 0);
            lemma_run_steps(c, a, options.target_version, true, first_mismatch(c, a, 0));
        }
    }
}

/// Where an applied "up" script has another checksum in the catalog than in
/// its row, a run that nothing stops early ends with `VersionMismatch` for
/// the first such script, and every line of its report lies before that
/// script: nothing from there on is applied. The status report calls such a
/// script installed with a different checksum.
pub proof fn lemma_mismatch_stops_run(
    options: Options,
    c: Seq<MigrationView>,
    dirty: Option<i64>,
    a: Seq<AppliedView>,
    lines: Seq<Step>,
    noted: bool,
    outcome: Outcome,
    rows: Seq<AppliedView>,
    k: int,
)
    requires
        c.len() <= usize::MAX,
        0 <= k < c.len(),
        mismatched_at(c, a, k),
        early_failure(Command::Run, c, dirty, a, options) is None,
        carried_out(Command::Run, options, c, dirty, a, lines, noted, outcome, rows),
    ensures
        0 <= first_mismatch(c, a, 0) <= k,
        mismatched_at(c, a, first_mismatch(c, a, 0)),
        outcome == Outcome::Failed(
            MigrateError::VersionMismatch(c[first_mismatch(c, a, 0)].version as i64),
        ),
        forall|j: int| 0 <= j < lines.len() ==> (#[trigger] lines[j]).index < first_mismatch(c, a, 0),
        status_of(c[k], a) == MigrationStatus::InstalledDifferentChecksum,
{
    lemma_first_mismatch(c, a, 0);
    let first = first_mismatch(c, a, 0);
    lemma_run_steps(c, a, options.target_version, options.dry_run, first);
    assert forall|j: int| 0 <= j < lines.len() implies (#[trigger] lines[j]).index < first by {
        assert(run_line_sound(c, a, options.target_version, options.dry_run, first, lines[j]));
    }
}

/// With a dirty marker in the table, a command whose target the catalog
/// holds ends with `Dirty` for the marked version, reports nothing and
/// changes no row.
pub proof fn lemma_dirty_blocks(
    command: Command,
    options: Options,
    c: Seq<MigrationView>,
    d: i64,
    a: Seq<AppliedView>,
    lines: Seq<Step>,
    noted: bool,
    outcome: Outcome,
    rows: Seq<AppliedView>,
)
    requires
        !target_absent(command, c, options.target_version),
        carried_out(command, options, c, Some(d), a, lines, noted, outcome, rows),
    ensures
        outcome == Outcome::Failed(MigrateError::Dirty(d)),
        lines == Seq::<Step>::empty(),
        rows == a,
{
}

/// Once the driver hands back a dirty marker, the protocol asks for nothing
/// but to close the connection, and then ends with `Dirty` for the marked
/// version, whatever the driver hands back.
pub proof fn lemma_dirty_closes(s: SessionView, c: Seq<MigrationView>, d: i64, e1: EventView)
    requires
        s.phase == Phase::ReadingDirty,
    ensures
        next_state(s, c, EventView::DirtyVersion(Some(d))) == close_with(
            s,
            Outcome::Failed(MigrateError::Dirty(d)),
        ),
        next_state(next_state(s, c, EventView::DirtyVersion(Some(d))).0, c, e1).1
            == Action::Finish(Outcome::Failed(MigrateError::Dirty(d))),
        next_state(next_state(s, c, EventView::DirtyVersion(Some(d))).0, c, e1).0.phase
            == Phase::Finished,
{
}

/// A revert without a target reports at most one line. It reports one
/// exactly where some "down" script has an applied version, and that line is
/// for the highest place that holds such a script, which in an ascending
/// catalog has the highest such version.
pub proof fn lemma_revert_without_target(
    c: Seq<MigrationView>,
    a: Seq<AppliedView>,
    dry_run: bool,
)
    requires
        c.len() <= usize::MAX,
    ensures
        revert_steps(c, a, None, dry_run).len() <= 1,
        revert_steps(c, a, None, dry_run).len() == 1 <==> exists|i: int|
            0 <= i < c.len() && #[trigger] revertible_at(c, a, i),
        revert_steps(c, a, None, dry_run).len() == 1 ==> {
            let line = revert_steps(c, a, None, dry_run)[0];
            &&& 0 <= line.index < c.len()
            &&& revertible_at(c, a, line.index as int)
            &&& line.status == (if dry_run {
                StepStatus::CanApply
            } else {
                StepStatus::Applied
            })
            &&& forall|j: int|
                0 <= j < c.len() && #[trigger] revertible_at(c, a, j) ==> j <= line.index
            &&& sorted_by_version(c) ==> forall|j: int|
                0 <= j < c.len() && #[trigger] revertible_at(c, a, j) ==> c[j].version
                    <= c[line.index as int].version
        },
{
    lemma_revert_steps_from(c, a, None, dry_run, 0);
    let all = revert_steps_from(c, a, None, dry_run, 0);
    let steps = revert_steps(c, a, None, dry_run);
    if all.len() > 0 {
        assert(revert_line_sound(c, a, None, dry_run, 0, all[0]));
        let line = steps[0];
        assert(line == all[0]);
        assert forall|j: int| 0 <= j < c.len() && #[trigger] revertible_at(c, a, j) implies j
            <= line.index by {
            let other = Step {
                index: j as usize,
                status: revert_status(None, dry_run, c[j].version),
            };
            assert(all.contains(other));
            let k = choose|k: int| 0 <= k < all.len() && all[k] == other;
            if k > 0 {
                assert(all[0].index > all[k].index);
            }
        }
        assert(revertible_at(c, a, line.index as int));
    } else {
        assert forall|i: int| 0 <= i < c.len() implies !#[trigger] revertible_at(c, a, i) by {
            if revertible_at(c, a, i) {
                let other = Step {
                    index: i as usize,
                    status: revert_status(None, dry_run, c[i].version),
                };
                assert(all.contains(other));
            }
        }
    }
}

/// The protocol asks for a script to be executed only after the lock was
/// taken: in answer to the success of the lock or of the script before.
pub proof fn lemma_execute_under_lock(s: SessionView, c: Seq<MigrationView>, e: EventView)
    requires
        next_state(s, c, e).1 is Execute,
    ensures
        s.phase == Phase::Locking || s.phase == Phase::Migrating,
        e is Done,
        next_state(s, c, e).0.phase == Phase::Migrating,
{
}

/// While scripts are executed the lock is held, and the protocol lets go of
/// it before anything else: whatever the driver hands back, the next action
/// is another line or the release of the lock.
pub proof fn lemma_unlock_follows(s: SessionView, c: Seq<MigrationView>, e: EventView)
    requires
        s.phase == Phase::Migrating,
    ensures
        ({
            let (t, action) = next_state(s, c, e);
            ||| (t.phase == Phase::Migrating && (action is Execute || action is ReportNone))
            ||| (t.phase == Phase::Unlocking && action is Unlock)
        }),
        !(e is Done) ==> next_state(s, c, e).1 is Unlock && next_state(s, c, e).0.outcome
            == Outcome::StoreFailed,
{
}

/// A row's version is applied after a run has executed the script of that
/// version, and no longer applied after a revert has.
pub proof fn lemma_applied_after_step(
    c: Seq<MigrationView>,
    rows: Seq<AppliedView>,
    line: Step,
)
    requires
        line.status == StepStatus::Applied,
    ensures
        is_applied(
            rows_after_step(Command::Run, c, rows, line),
            c[line.index as int].version,
        ),
        !is_applied(
            rows_after_step(Command::Revert, c, rows, line),
            c[line.index as int].version,
        ),
{
    let v = c[line.index as int].version;
    let grown = rows.push(row_of(c[line.index as int]));
    assert(grown[grown.len() - 1].version == v);
    lemma_without_version(rows, v);
}

} // verus!
