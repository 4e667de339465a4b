use vstd::prelude::*;
use crate::applied::{
    latest_applied_version, latest_version, validate_applied_migrations, validation_failure,
};
use crate::catalog::has_up_version;
use crate::error::MigrateError;
use crate::migration::{applied_views, AppliedMigration, AppliedView, MigrationView};
use crate::migrator::Migrator;
use crate::plan::{
    first_mismatch, plan_revert, plan_run, revert_steps, run_failure, run_steps, Step,
};

verus! {

/// The two commands that change what is applied.
#[derive(Clone, Copy, Debug, PartialEq, Eq, Structural)]
pub enum Command {
    Run,
    Revert,
}

/// What the caller asks of a command.
#[derive(Clone, Copy, Debug)]
pub struct Options {
    /// Report what would be done and execute nothing.
    pub dry_run: bool,
    /// Accept applied versions that the catalog no longer holds.
    pub ignore_missing: bool,
    /// Where to stop: the last version to apply, or the version to revert
    /// down to (0 reverts everything).
    pub target_version: Option<i64>,
}

/// How a command ended.
#[derive(Clone, Copy, Debug, PartialEq, Eq, Structural)]
pub enum Outcome {
    /// The command went through.
    Completed,
    /// A rule of the engine stopped the command.
    Failed(MigrateError),
    /// The store failed at an action; the driver holds the store's error.
    StoreFailed,
}

/// Where a command stands: the action that it waits for.
#[derive(Clone, Copy, Debug, PartialEq, Eq, Structural)]
pub enum Phase {
    Start,
    Connecting,
    EnsuringTable,
    ReadingDirty,
    ReadingApplied,
    Locking,
    Migrating,
    Unlocking,
    Closing,
    Finished,
}

/// What the driver is to do next.
#[derive(Clone, Copy, Debug, PartialEq, Eq, Structural)]
pub enum Action {
    /// Open the connection to the store.
    Connect,
    /// Create the bookkeeping table if it is absent.
    EnsureTable,
    /// Read the dirty marker and hand it back.
    ReadDirtyVersion,
    /// Read the bookkeeping rows and hand them back.
    ListApplied,
    /// Take the store's lock.
    Lock,
    /// Report the line; where its status is `Applied`, first execute the
    /// script at its place, forward in a run and backward in a revert.
    Execute(Step),
    /// Report that no migration is available to revert.
    ReportNone,
    /// Release the store's lock.
    Unlock,
    /// Close the connection; a failure to do so is not an error.
    Close,
    /// The command is over.
    Finish(Outcome),
}

/// What the driver hands back after an action.
#[derive(Debug)]
pub enum Event {
    /// The command is to begin.
    Begin,
    /// The action succeeded and has nothing to hand back.
    Done,
    /// The store failed at the action.
    Failed,
    /// The dirty marker that was read.
    DirtyVersion(Option<i64>),
    /// The bookkeeping rows that were read.
    AppliedMigrations(Vec<AppliedMigration>),
}

/// The mathematical value of an [`Event`].
pub ghost enum EventView {
    Begin,
    Done,
    Failed,
    DirtyVersion(Option<i64>),
    AppliedMigrations(Seq<AppliedView>),
}

impl View for Event {
    type V = EventView;

    open spec fn view(&self) -> EventView {
        match self {
            Event::Begin => EventView::Begin,
            Event::Done => EventView::Done,
            Event::Failed => EventView::Failed,
            Event::DirtyVersion(d) => EventView::DirtyVersion(*d),
            Event::AppliedMigrations(rows) => EventView::AppliedMigrations(applied_views(rows@)),
        }
    }
}

/// One command in progress.
#[derive(Debug)]
pub struct Session {
    command: Command,
    options: Options,
    phase: Phase,
    steps: Vec<Step>,
    failure: Option<MigrateError>,
    cursor: usize,
    announced: bool,
    outcome: Outcome,
}

/// The mathematical value of a [`Session`].
pub ghost struct SessionView {
    pub command: Command,
    pub options: Options,
    pub phase: Phase,
    /// The lines of the report, once the rows have been read.
    pub steps: Seq<Step>,
    /// The error that ends the command after the last line, if any.
    pub failure: Option<MigrateError>,
    /// How many lines are done.
    pub cursor: int,
    /// Whether the driver was told that nothing can be reverted.
    pub announced: bool,
    pub outcome: Outcome,
}

impl View for Session {
    type V = SessionView;

    closed spec fn view(&self) -> SessionView {
        SessionView {
            command: self.command,
            options: self.options,
            phase: self.phase,
            steps: self.steps@,
            failure: self.failure,
            cursor: self.cursor as int,
            announced: self.announced,
            outcome: self.outcome,
        }
    }
}

/// The state in which a command begins.
pub open spec fn initial(command: Command, options: Options) -> SessionView {
    SessionView {
        command,
        options,
        phase: Phase::Start,
        steps: Seq::empty(),
        failure: None,
        cursor: 0,
        announced: false,
        outcome: Outcome::Completed,
    }
}

/// The target names a version that the catalog does not hold. A revert down
/// to 0 names none.
pub open spec fn target_absent(
    command: Command,
    c: Seq<MigrationView>,
    target: Option<i64>,
) -> bool {
    match target {
        None => false,
        Some(t) => !has_up_version(c, t as int) && !(command == Command::Revert && t == 0),
    }
}

/// The error of a target on the wrong side of the latest applied version:
/// below it in a run, above it in a revert.
pub open spec fn range_failure(command: Command, target: Option<i64>, latest: int) -> Option<
    MigrateError,
> {
    match target {
        None => None,
        Some(t) => match command {
            Command::Run => if t < latest {
                Some(MigrateError::VersionTooOld(t, latest as i64))
            } else {
                None
            },
            Command::Revert => if t > latest {
                Some(MigrateError::VersionTooNew(t, latest as i64))
            } else {
                None
            },
        },
    }
}

/// The error that the rows give rise to before any script is looked at.
pub open spec fn rows_failure(
    command: Command,
    c: Seq<MigrationView>,
    a: Seq<AppliedView>,
    options: Options,
) -> Option<MigrateError> {
    if validation_failure(c, a, options.ignore_missing) is Some {
        validation_failure(c, a, options.ignore_missing)
    } else {
        range_failure(command, options.target_version, latest_version(a))
    }
}

/// The lines of the command's report.
pub open spec fn planned_steps(
    command: Command,
    c: Seq<MigrationView>,
    a: Seq<AppliedView>,
    options: Options,
) -> Seq<Step> {
    match command {
        Command::Run => run_steps(
            c,
            a,
            options.target_version,
            options.dry_run,
            first_mismatch(c, a, 0),
        ),
        Command::Revert => revert_steps(c, a, options.target_version, options.dry_run),
    }
}

/// The error that ends the command after the last line of its report.
pub open spec fn planned_failure(
    command: Command,
    c: Seq<MigrationView>,
    a: Seq<AppliedView>,
) -> Option<MigrateError> {
    match command {
        Command::Run => run_failure(c, a),
        Command::Revert => None,
    }
}

/// The command gives up before the lock is taken: the connection is closed
/// and `outcome` stands.
pub open spec fn close_with(s: SessionView, outcome: Outcome) -> (SessionView, Action) {
    (SessionView { phase: Phase::Closing, outcome, ..s }, Action::Close)
}

/// The next line of the report, or the end of the loop: the lock is
/// released, and the error that the plan ends with becomes the outcome.
pub open spec fn advance(s: SessionView) -> (SessionView, Action) {
    if 0 <= s.cursor < s.steps.len() {
        (SessionView { phase: Phase::Migrating, ..s }, Action::Execute(s.steps[s.cursor]))
    } else if s.command == Command::Revert && s.steps.len() == 0 && !s.announced {
        (SessionView { phase: Phase::Migrating, announced: true, ..s }, Action::ReportNone)
    } else {
        (
            SessionView {
                phase: Phase::Unlocking,
                outcome: match s.failure {
                    Some(e) => Outcome::Failed(e),
                    None => s.outcome,
                },
                ..s
            },
            Action::Unlock,
        )
    }
}

/// The transition of the protocol: from a state and what the driver hands
/// back, the next state and what the driver is to do.
///
/// A command that has not begun begins with whatever event it is handed.
/// After that, an event that does not answer the action that the state waits
/// for counts as a failure of the store. A command that is over stays over.
pub open spec fn next_state(s: SessionView, c: Seq<MigrationView>, e: EventView) -> (
    SessionView,
    Action,
) {
    match s.phase {
        Phase::Start => if target_absent(s.command, c, s.options.target_version) {
            let outcome = Outcome::Failed(
                MigrateError::VersionNotPresent(s.options.target_version->0),
            );
            (SessionView { phase: Phase::Finished, outcome, ..s }, Action::Finish(outcome))
        } else {
            (SessionView { phase: Phase::Connecting, ..s }, Action::Connect)
        },
        Phase::Connecting => if e is Done {
            (SessionView { phase: Phase::EnsuringTable, ..s }, Action::EnsureTable)
        } else {
            (
                SessionView { phase: Phase::Finished, outcome: Outcome::StoreFailed, ..s },
                Action::Finish(Outcome::StoreFailed),
            )
        },
        Phase::EnsuringTable => if e is Done {
            (SessionView { phase: Phase::ReadingDirty, ..s }, Action::ReadDirtyVersion)
        } else {
            close_with(s, Outcome::StoreFailed)
        },
        Phase::ReadingDirty => match e {
            EventView::DirtyVersion(None) => (
                SessionView { phase: Phase::ReadingApplied, ..s },
                Action::ListApplied,
            ),
            EventView::DirtyVersion(Some(v)) => close_with(
                s,
                Outcome::Failed(MigrateError::Dirty(v)),
            ),
            _ => close_with(s, Outcome::StoreFailed),
        },
        Phase::ReadingApplied => match e {
            EventView::AppliedMigrations(a) => match rows_failure(s.command, c, a, s.options) {
                Some(err) => close_with(s, Outcome::Failed(err)),
                None => (
                    SessionView {
                        phase: Phase::Locking,
                        steps: planned_steps(s.command, c, a, s.options),
                        failure: planned_failure(s.command, c, a),
                        cursor: 0,
                        ..s
                    },
                    Action::Lock,
                ),
            },
            _ => close_with(s, Outcome::StoreFailed),
        },
        Phase::Locking => if e is Done {
            advance(s)
        } else {
            close_with(s, Outcome::StoreFailed)
        },
        Phase::Migrating => if e is Done {
            if 0 <= s.cursor < s.steps.len() {
                advance(SessionView { cursor: s.cursor + 1, ..s })
            } else {
                advance(s)
            }
        } else {
            (
                SessionView { phase: Phase::Unlocking, outcome: Outcome::StoreFailed, ..s },
                Action::Unlock,
            )
        },
        Phase::Unlocking => if e is Done || s.outcome != Outcome::Completed {
            (SessionView { phase: Phase::Closing, ..s }, Action::Close)
        } else {
            close_with(s, Outcome::StoreFailed)
        },
        Phase::Closing => (SessionView { phase: Phase::Finished, ..s }, Action::Finish(s.outcome)),
        Phase::Finished => (s, Action::Finish(s.outcome)),
    }
}

impl Session {
    /// A command that has not begun.
    pub fn new(command: Command, options: Options) -> (s: Session)
        ensures
            s@ == initial(command, options),
    {
        Session {
            command,
            options,
            phase: Phase::Start,
            steps: Vec::new(),
            failure: None,
            cursor: 0,
            announced: false,
            outcome: Outcome::Completed,
        }
    }

    /// Where the command stands.
    pub fn phase(&self) -> (p: Phase)
        ensures
            p == self@.phase,
    {
        self.phase
    }

    fn close_with(&mut self, outcome: Outcome) -> (action: Action)
        ensures
            (final(self)@, action) == close_with(old(self)@, outcome),
    {
        self.phase = Phase::Closing;
        self.outcome = outcome;
        Action::Close
    }

    fn advance(&mut self) -> (action: Action)
        ensures
            (final(self)@, action) == advance(old(self)@),
    {
        if self.cursor < self.steps.len() {
            self.phase = Phase::Migrating;
            Action::Execute(self.steps[self.cursor])
        } else if self.is_revert() && self.steps.len() == 0 && !self.announced {
            self.phase = Phase::Migrating;
            self.announced = true;
            Action::ReportNone
        } else {
            self.phase = Phase::Unlocking;
            match self.failure {
                Some(e) => {
                    self.outcome = Outcome::Failed(e);
                },
                None => {},
            }
            Action::Unlock
        }
    }

    fn is_revert(&self) -> (r: bool)
        ensures
            r == (self@.command == Command::Revert),
    {
        match self.command {
            Command::Revert => true,
            Command::Run => false,
        }
    }

    fn read_rows(&mut self, migrator: &Migrator, rows: &Vec<AppliedMigration>) -> (action: Action)
        requires
            old(self)@.phase == Phase::ReadingApplied,
        ensures
            (final(self)@, action) == next_state(
                old(self)@,
                migrator@,
                EventView::AppliedMigrations(applied_views(rows@)),
            ),
    {
        let ghost c = migrator@;
        let ghost a = applied_views(rows@);
        match validate_applied_migrations(rows, migrator, self.options.ignore_missing) {
            Err(e) => {
                return self.close_with(Outcome::Failed(e));
            },
            Ok(_) => {},
        }
        let latest = latest_applied_version(rows);
        match self.options.target_version {
            Some(t) => {
                if !self.is_revert() && t < latest {
                    return self.close_with(
                        Outcome::Failed(MigrateError::VersionTooOld(t, latest)),
                    );
                }
                if self.is_revert() && t > latest {
                    return self.close_with(
                        Outcome::Failed(MigrateError::VersionTooNew(t, latest)),
                    );
                }
            },
            None => {},
        }
        if self.is_revert() {
            self.steps = plan_revert(
                migrator,
                rows,
                self.options.target_version,
                self.options.dry_run,
            );
            self.failure = None;
        } else {
            let plan = plan_run(
                migrator,
                rows,
                self.options.target_version,
                self.options.dry_run,
            );
            self.steps = plan.steps;
            self.failure = plan.failure;
        }
        self.cursor = 0;
        self.phase = Phase::Locking;
        Action::Lock
    }

    /// Takes what the driver hands back and says what it is to do next.
    ///
    /// The first call takes `Event::Begin`. Each later call takes the result
    /// of the action that the call before it returned, until that action is
    /// `Finish`.
    pub fn next(&mut self, migrator: &Migrator, event: Event) -> (action: Action)
        ensures
            (final(self)@, action) == next_state(old(self)@, migrator@, event@),
    {
        match self.phase {
            Phase::Start => {
                let absent = match self.options.target_version {
                    None => false,
                    Some(t) => !migrator.version_exists(t) && !(self.is_revert() && t == 0),
                };
                if absent {
                    let outcome = Outcome::Failed(
                        MigrateError::VersionNotPresent(self.options.target_version.unwrap()),
                    );
                    self.phase = Phase::Finished;
                    self.outcome = outcome;
                    Action::Finish(outcome)
                } else {
                    self.phase = Phase::Connecting;
                    Action::Connect
                }
            },
            Phase::Connecting => match event {
                Event::Done => {
                    self.phase = Phase::EnsuringTable;
                    Action::EnsureTable
                },
                _ => {
                    self.phase = Phase::Finished;
                    self.outcome = Outcome::StoreFailed;
                    Action::Finish(Outcome::StoreFailed)
                },
            },
            Phase::EnsuringTable => match event {
                Event::Done => {
                    self.phase = Phase::ReadingDirty;
                    Action::ReadDirtyVersion
                },
                _ => self.close_with(Outcome::StoreFailed),
            },
            Phase::ReadingDirty => match event {
                Event::DirtyVersion(None) => {
                    self.phase = Phase::ReadingApplied;
                    Action::ListApplied
                },
                Event::DirtyVersion(Some(v)) => self.close_with(
                    Outcome::Failed(MigrateError::Dirty(v)),
                ),
                _ => self.close_with(Outcome::StoreFailed),
            },
            Phase::ReadingApplied => match event {
                Event::AppliedMigrations(rows) => self.read_rows(migrator, &rows),
                _ => self.close_with(Outcome::StoreFailed),
            },
            Phase::Locking => match event {
                Event::Done => self.advance(),
                _ => self.close_with(Outcome::StoreFailed),
            },
            Phase::Migrating => match event {
                Event::Done => {
                    if self.cursor < self.steps.len() {
                        self.cursor = self.cursor + 1;
                    }
                    self.advance()
                },
                _ => {
                    self.phase = Phase::Unlocking;
                    self.outcome = Outcome::StoreFailed;
                    Action::Unlock
                },
            },
            Phase::Unlocking => {
                let done = match event {
                    Event::Done => true,
                    _ => false,
                };
                let completed = match self.outcome {
                    Outcome::Completed => true,
                    _ => false,
                };
                if done || !completed {
                    self.phase = Phase::Closing;
                    Action::Close
                } else {
                    self.close_with(Outcome::StoreFailed)
                }
            },
            Phase::Closing => {
                self.phase = Phase::Finished;
                Action::Finish(self.outcome)
            },
            Phase::Finished => Action::Finish(self.outcome),
        }
    }
}

} // verus!
