use vstd::prelude::*;
use crate::bookkeeping::{row_of, without_version, Bookkeeping};
use crate::error::MigrateError;
use crate::migration::{AppliedView, MigrationView};
use crate::migrator::Migrator;
use crate::plan::{
    first_mismatch, lemma_first_mismatch, lemma_revert_steps_from, lemma_run_steps,
    revert_line_sound, revert_steps_from, run_line_sound, Step, StepStatus,
};
use crate::protocol::{
    initial, planned_failure, planned_steps, rows_failure, target_absent, Action,
    Command, Event, EventView, Options, Outcome, Phase, Session, SessionView,
};

verus! {

/// What a command leaves behind for its caller.
#[derive(Debug)]
pub struct Report {
    /// The lines of the report, in the order in which they were made.
    pub lines: Vec<Step>,
    /// A revert found no migration to revert and said so.
    pub nothing_to_revert: bool,
    /// How the command ended.
    pub outcome: Outcome,
}

/// The error that stops a command before it looks at any script: a target
/// that the catalog lacks, then a dirty marker, then what the rows give rise
/// to.
pub open spec fn early_failure(
    command: Command,
    c: Seq<MigrationView>,
    dirty: Option<i64>,
    a: Seq<AppliedView>,
    options: Options,
) -> Option<MigrateError> {
    if target_absent(command, c, options.target_version) {
        Some(MigrateError::VersionNotPresent(options.target_version->0))
    } else if dirty is Some {
        Some(MigrateError::Dirty(dirty->0))
    } else {
        rows_failure(command, c, a, options)
    }
}

/// The rows after one line of a report has been carried out: a line with
/// status `Applied` adds the row of its script in a run and takes the rows
/// of its version away in a revert; any other line changes nothing.
pub open spec fn rows_after_step(
    command: Command,
    c: Seq<MigrationView>,
    rows: Seq<AppliedView>,
    line: Step,
) -> Seq<AppliedView> {
    if line.status == StepStatus::Applied {
        match command {
            Command::Run => rows.push(row_of(c[line.index as int])),
            Command::Revert => without_version(rows, c[line.index as int].version),
        }
    } else {
        rows
    }
}

/// The rows after the first `n` lines of a report have been carried out.
pub open spec fn rows_after(
    command: Command,
    c: Seq<MigrationView>,
    a: Seq<AppliedView>,
    lines: Seq<Step>,
    n: int,
) -> Seq<AppliedView>
    decreases n,
{
    if n <= 0 {
        a
    } else {
        rows_after_step(command, c, rows_after(command, c, a, lines, n - 1), lines[n - 1])
    }
}

/// How a command ends that no early failure stops.
pub open spec fn planned_outcome(
    command: Command,
    c: Seq<MigrationView>,
    a: Seq<AppliedView>,
) -> Outcome {
    match planned_failure(command, c, a) {
        Some(e) => Outcome::Failed(e),
        None => Outcome::Completed,
    }
}

/// Every line of a command's report names a place of the catalog.
pub proof fn lemma_planned_steps_in_range(
    command: Command,
    c: Seq<MigrationView>,
    a: Seq<AppliedView>,
    options: Options,
)
    requires
        c.len() <= usize::MAX,
    ensures
        forall|k: int|
            0 <= k < planned_steps(command, c, a, options).len() ==> (#[trigger] planned_steps(
                command,
                c,
                a,
                options,
            )[k]).index < c.len(),
{
    let steps = planned_steps(command, c, a, options);
    match command {
        Command::Run => {
            lemma_first_mismatch(c, a, 0);
            let stop = first_mismatch(c, a, 0);
            lemma_run_steps(c, a, options.target_version, options.dry_run, stop);
            assert forall|k: int| 0 <= k < steps.len() implies (#[trigger] steps[k]).index
                < c.len() by {
                assert(run_line_sound(
                    c,
                    a,
                    options.target_version,
                    options.dry_run,
                    stop,
                    steps[k],
                ));
            }
        },
        Command::Revert => {
            lemma_revert_steps_from(c, a, options.target_version, options.dry_run, 0);
            let all = revert_steps_from(c, a, options.target_version, options.dry_run, 0);
            assert forall|k: int| 0 <= k < steps.len() implies (#[trigger] steps[k]).index
                < c.len() by {
                assert(revert_line_sound(
                    c,
                    a,
                    options.target_version,
                    options.dry_run,
                    0,
                    all[k],
                ));
            }
        },
    }
}

/// How far a command in state `s` is from its end.
pub open spec fn phase_rank(p: Phase) -> int {
    match p {
        Phase::Start => 9,
        Phase::Connecting => 8,
        Phase::EnsuringTable => 7,
        Phase::ReadingDirty => 6,
        Phase::ReadingApplied => 5,
        Phase::Locking => 4,
        Phase::Migrating => 3,
        Phase::Unlocking => 2,
        Phase::Closing => 1,
        Phase::Finished => 0,
    }
}

/// What holds between the protocol's state, the event in hand, the report
/// made so far and the rows of the table while a command is carried out on a
/// table in memory that held the rows `a` and the marker `dirty` at first.
pub open spec fn in_step(
    s: SessionView,
    e: EventView,
    lines: Seq<Step>,
    noted: bool,
    rows: Seq<AppliedView>,
    command: Command,
    options: Options,
    c: Seq<MigrationView>,
    dirty: Option<i64>,
    a: Seq<AppliedView>,
) -> bool {
    let early = early_failure(command, c, dirty, a, options);
    let steps = planned_steps(command, c, a, options);
    let planned = s.steps == steps && s.failure == planned_failure(command, c, a) && early is None;
    let untouched = lines == Seq::<Step>::empty() && rows == a && !noted && !s.announced
        && s.outcome == Outcome::Completed;
    &&& s.command == command
    &&& s.options == options
    &&& match s.phase {
        Phase::Start => untouched && s == initial(command, options),
        Phase::Connecting => untouched && e is Done && !target_absent(
            command,
            c,
            options.target_version,
        ),
        Phase::EnsuringTable => untouched && e is Done && !target_absent(
            command,
            c,
            options.target_version,
        ),
        Phase::ReadingDirty => untouched && e == EventView::DirtyVersion(dirty) && !target_absent(
            command,
            c,
            options.target_version,
        ),
        Phase::ReadingApplied => untouched && e == EventView::AppliedMigrations(a) && dirty is None
            && !target_absent(command, c, options.target_version),
        Phase::Locking => untouched && e is Done && planned && s.cursor == 0,
        Phase::Migrating => e is Done && planned && s.outcome == Outcome::Completed && if 0
            <= s.cursor < steps.len() {
            lines == steps.subrange(0, s.cursor + 1) && rows == rows_after(
                command,
                c,
                a,
                steps,
                s.cursor + 1,
            ) && !noted && !s.announced
        } else {
            steps.len() == 0 && s.cursor == 0 && lines == steps && rows == a && noted && s.announced
                && command == Command::Revert
        },
        Phase::Unlocking => e is Done && planned && lines == steps && rows == rows_after(
            command,
            c,
            a,
            steps,
            steps.len() as int,
        ) && s.outcome == planned_outcome(command, c, a) && noted == (command == Command::Revert
            && steps.len() == 0),
        Phase::Closing => if early is Some {
            lines == Seq::<Step>::empty() && rows == a && !noted && s.outcome == Outcome::Failed(
                early->0,
            )
        } else {
            lines == steps && rows == rows_after(command, c, a, steps, steps.len() as int)
                && s.outcome == planned_outcome(command, c, a) && noted == (command
                == Command::Revert && steps.len() == 0)
        },
        Phase::Finished => false,
    }
}

/// What a command leaves behind on a table in memory that held the rows `a`
/// and the marker `dirty`: the report, the outcome and the rows.
///
/// An early failure leaves an empty report and the rows as they were.
/// Otherwise the report holds the planned lines, the rows are those after
/// the last of them, and the outcome is the error that the plan ends with,
/// if any.
pub open spec fn carried_out(
    command: Command,
    options: Options,
    c: Seq<MigrationView>,
    dirty: Option<i64>,
    a: Seq<AppliedView>,
    lines: Seq<Step>,
    noted: bool,
    outcome: Outcome,
    rows: Seq<AppliedView>,
) -> bool {
    match early_failure(command, c, dirty, a, options) {
        Some(e) => {
            &&& outcome == Outcome::Failed(e)
            &&& lines == Seq::<Step>::empty()
            &&& !noted
            &&& rows == a
        },
        None => {
            let steps = planned_steps(command, c, a, options);
            &&& outcome == planned_outcome(command, c, a)
            &&& lines == steps
            &&& noted == (command == Command::Revert && steps.len() == 0)
            &&& rows == rows_after(command, c, a, steps, steps.len() as int)
        },
    }
}

/// Carries a command out on a table in memory, action by action as the
/// protocol asks for them.
pub fn execute(
    command: Command,
    migrator: &Migrator,
    store: &mut Bookkeeping,
    options: Options,
) -> (report: Report)
    ensures
        final(store).dirty == old(store).dirty,
        carried_out(
            command,
            options,
            migrator@,
            old(store).dirty,
            old(store).applied(),
            report.lines@,
            report.nothing_to_revert,
            report.outcome,
            final(store).applied(),
        ),
{
    let ghost c = migrator@;
    let ghost a = store.applied();
    let ghost dirty = store.dirty;
    let n = migrator.len();
    let mut session = Session::new(command, options);
    let mut event = Event::Begin;
    let mut lines: Vec<Step> = Vec::new();
    let mut noted = false;
    loop
        invariant
            c == migrator@,
            n == c.len(),
            dirty == old(store).dirty,
            a == old(store).applied(),
            store.dirty == dirty,
            in_step(session@, event@, lines@, noted, store.applied(), command, options, c, dirty, a),
        decreases
                phase_rank(session@.phase),
                session@.steps.len() - session@.cursor,
                (if session@.announced {
                    0int
                } else {
                    1int
                }),
    {
        let ghost rows = store.applied();
        let ghost seen = lines@;
        proof {
            lemma_planned_steps_in_range(command, c, a, options);
        }
        let action = session.next(migrator, event);
        match action {
            Action::Finish(outcome) => {
                return Report { lines, nothing_to_revert: noted, outcome };
            },
            Action::ReadDirtyVersion => {
                event = Event::DirtyVersion(store.dirty_version());
            },
            Action::ListApplied => {
                event = Event::AppliedMigrations(store.list_applied_migrations());
            },
            Action::Execute(line) => {
                let ghost steps = planned_steps(command, c, a, options);
                let ghost k = session@.cursor;
                assert(line == steps[k]);
                assert(line.index < n);
                match line.status {
                    StepStatus::Applied => {
                        let m = migrator.get(line.index);
                        match command {
                            Command::Run => {
                                store.apply(m);
                            },
                            Command::Revert => {
                                store.revert(m);
                            },
                        }
                    },
                    _ => {},
                }
                lines.push(line);
                event = Event::Done;
                proof {
                    assert(seen =~= steps.subrange(0, k));
                    assert(lines@ =~= steps.subrange(0, k + 1));
                    assert(rows == rows_after(command, c, a, steps, k));
                    assert(store.applied() == rows_after_step(command, c, rows, line));
                    assert(store.applied() == rows_after(command, c, a, steps, k + 1));
                }
            },
            Action::ReportNone => {
                noted = true;
                event = Event::Done;
                proof {
                    assert(lines@ =~= planned_steps(command, c, a, options));
                }
            },
            _ => {
                event = Event::Done;
                proof {
                    let steps = planned_steps(command, c, a, options);
                    if session@.phase == Phase::Unlocking {
                        assert(lines@ =~= steps);
                    }
                }
            },
        }
    }
}

/// Applies, on a table in memory, the scripts of the catalog that are not
/// applied yet, up to the target where one is given.
pub fn run(
    migrator: &Migrator,
    store: &mut Bookkeeping,
    dry_run: bool,
    ignore_missing: bool,
    target_version: Option<i64>,
) -> (report: Report)
    ensures
        final(store).dirty == old(store).dirty,
        carried_out(
            Command::Run,
            (Options { dry_run, ignore_missing, target_version }),
            migrator@,
            old(store).dirty,
            old(store).applied(),
            report.lines@,
            report.nothing_to_revert,
            report.outcome,
            final(store).applied(),
        ),
{
    execute(Command::Run, migrator, store, Options { dry_run, ignore_missing, target_version })
}

/// Reverts, on a table in memory, the latest applied script that has a
/// "down" side, or every such script above the target where one is given.
pub fn revert(
    migrator: &Migrator,
    store: &mut Bookkeeping,
    dry_run: bool,
    ignore_missing: bool,
    target_version: Option<i64>,
) -> (report: Report)
    ensures
        final(store).dirty == old(store).dirty,
        carried_out(
            Command::Revert,
            (Options { dry_run, ignore_missing, target_version }),
            migrator@,
            old(store).dirty,
            old(store).applied(),
            report.lines@,
            report.nothing_to_revert,
            report.outcome,
            final(store).applied(),
        ),
{
    execute(Command::Revert, migrator, store, Options { dry_run, ignore_missing, target_version })
}

} // verus!
