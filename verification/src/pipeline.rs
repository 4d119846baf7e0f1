//! The path that every query command takes: the profile's pool is resolved,
//! a connection is taken from it, and the statements of the command's plan
//! run on that one connection, in order. The caller does the work with the
//! server; what follows from each result is decided here.

use crate::audit::{
    count_for, lemma_count_adds, lemma_error_is_one_line_each, lemma_success_is_one_query_line,
    lines, query_result_entry, success_lines, LogEntry, LogLine, LogStream,
};
use crate::failure::{lines_of, message_of, DbError, Failure};
use vstd::prelude::*;

verus! {

/// One statement of a plan.
pub struct Statement {
    /// The statement as the server gets it.
    pub text: String,
    /// The statement as the audit trail and a failure name it.
    pub label: String,
    /// Whether a failure of this statement ends the command. The failure of
    /// a statement that is not required is recorded and passed over.
    pub required: bool,
}

/// What a [`Statement`] says, as plain text.
pub struct StatementText {
    pub text: Seq<char>,
    pub label: Seq<char>,
    pub required: bool,
}

impl View for Statement {
    type V = StatementText;

    open spec fn view(&self) -> StatementText {
        StatementText { text: self.text@, label: self.label@, required: self.required }
    }
}

/// The statements as plain text, in their order.
pub open spec fn plan_text(plan: Seq<Statement>) -> Seq<StatementText> {
    Seq::new(plan.len(), |i: int| plan[i]@)
}

/// What the caller reports back.
pub enum Event {
    /// The registry holds a pool for the profile.
    Resolved,
    /// The registry holds none.
    Unresolved,
    /// The pool gave a connection.
    Acquired,
    /// The pool gave none.
    AcquireFailed { cause: String },
    /// The statement ran and gave so many rows (none for a statement
    /// without a result set).
    Succeeded { rows: usize },
    /// The statement failed.
    Failed { cause: String },
}

/// What an [`Event`] says, as plain text.
pub enum Occurrence {
    Resolved,
    Unresolved,
    Acquired,
    AcquireFailed { cause: Seq<char> },
    Succeeded { rows: nat },
    Failed { cause: Seq<char> },
}

impl View for Event {
    type V = Occurrence;

    open spec fn view(&self) -> Occurrence {
        match self {
            Event::Resolved => Occurrence::Resolved,
            Event::Unresolved => Occurrence::Unresolved,
            Event::Acquired => Occurrence::Acquired,
            Event::AcquireFailed { cause } => Occurrence::AcquireFailed { cause: cause@ },
            Event::Succeeded { rows } => Occurrence::Succeeded { rows: *rows as nat },
            Event::Failed { cause } => Occurrence::Failed { cause: cause@ },
        }
    }
}

/// How far a command has come.
pub enum Phase {
    Resolving,
    Acquiring,
    Running { next: usize },
    Done,
    Failed { error: DbError },
}

/// What a [`Phase`] says, as plain text.
pub enum Progress {
    Resolving,
    Acquiring,
    Running { next: nat },
    Done,
    Failed { failure: Failure },
}

impl View for Phase {
    type V = Progress;

    open spec fn view(&self) -> Progress {
        match self {
            Phase::Resolving => Progress::Resolving,
            Phase::Acquiring => Progress::Acquiring,
            Phase::Running { next } => Progress::Running { next: *next as nat },
            Phase::Done => Progress::Done,
            Phase::Failed { error } => Progress::Failed { failure: error@ },
        }
    }
}

/// What the caller is to do next.
#[derive(Clone, Copy, Debug, PartialEq, Eq, Structural)]
pub enum Action {
    /// Look the profile up in the registry.
    Resolve,
    /// Take a connection from the pool.
    Acquire,
    /// Run the statement at this place of the plan on the connection.
    Execute { index: usize },
    /// Give the connection back and hand the caller the result.
    Deliver,
    /// Give the connection back, if one was taken, and hand the caller the
    /// failure.
    Fail,
}

/// The step that a phase waits for.
pub open spec fn action_of(progress: Progress) -> Action {
    match progress {
        Progress::Resolving => Action::Resolve,
        Progress::Acquiring => Action::Acquire,
        Progress::Running { next } => Action::Execute { index: next as usize },
        Progress::Done => Action::Deliver,
        Progress::Failed { .. } => Action::Fail,
    }
}

/// The phase in which the statement at `index` is the next to run; past the
/// end of the plan the command is done.
pub open spec fn running_from(plan: Seq<StatementText>, index: nat) -> Progress {
    if index < plan.len() {
        Progress::Running { next: index }
    } else {
        Progress::Done
    }
}

/// The failure of the statement at `index` for the given cause.
pub open spec fn statement_failure(plan: Seq<StatementText>, index: nat, cause: Seq<char>) -> Failure {
    Failure::Query { statement: plan[index as int].label, cause }
}

/// The phase that follows when the caller reports `event` in `progress`. A
/// report that does not answer the step that the phase waits for changes
/// nothing.
pub open spec fn next_progress(
    plan: Seq<StatementText>,
    progress: Progress,
    event: Occurrence,
) -> Progress {
    match (progress, event) {
        (Progress::Resolving, Occurrence::Resolved) => Progress::Acquiring,
        (Progress::Resolving, Occurrence::Unresolved) => Progress::Failed {
            failure: Failure::NotConnected,
        },
        (Progress::Acquiring, Occurrence::Acquired) => running_from(plan, 0),
        (Progress::Acquiring, Occurrence::AcquireFailed { cause }) => Progress::Failed {
            failure: Failure::Connectivity { target: None, cause },
        },
        (Progress::Running { next }, Occurrence::Succeeded { rows }) => if next < plan.len() {
            running_from(plan, next + 1)
        } else {
            Progress::Done
        },
        (Progress::Running { next }, Occurrence::Failed { cause }) => if next < plan.len() {
            if plan[next as int].required {
                Progress::Failed { failure: statement_failure(plan, next, cause) }
            } else {
                running_from(plan, next + 1)
            }
        } else {
            Progress::Done
        },
        _ => progress,
    }
}

/// The lines that go to the audit trail when the caller reports `event` in
/// `progress`: one for a statement that succeeded, one in each stream for
/// whatever failed, none for a step that only leads on.
pub open spec fn lines_for(plan: Seq<StatementText>, progress: Progress, event: Occurrence) -> Seq<
    LogLine,
> {
    match (progress, event) {
        (Progress::Resolving, Occurrence::Unresolved) => lines_of(Failure::NotConnected),
        (Progress::Acquiring, Occurrence::AcquireFailed { cause }) => lines_of(
            Failure::Connectivity { target: None, cause },
        ),
        (Progress::Running { next }, Occurrence::Succeeded { rows }) => if next < plan.len() {
            success_lines(plan[next as int].label, rows)
        } else {
            Seq::empty()
        },
        (Progress::Running { next }, Occurrence::Failed { cause }) => if next < plan.len() {
            lines_of(statement_failure(plan, next, cause))
        } else {
            Seq::empty()
        },
        _ => Seq::empty(),
    }
}

/// A command on its way.
pub struct Execution {
    plan: Vec<Statement>,
    phase: Phase,
}

impl Execution {
    /// The plan of the command.
    pub closed spec fn plan(&self) -> Seq<StatementText> {
        plan_text(self.plan@)
    }

    /// How far the command has come.
    pub closed spec fn progress(&self) -> Progress {
        self.phase@
    }

    /// A command with the given plan, at its start.
    pub fn start(plan: Vec<Statement>) -> (run: Execution)
        ensures
            run.plan() == plan_text(plan@),
            run.progress() == Progress::Resolving,
    {
        Execution { plan, phase: Phase::Resolving }
    }

    /// What the caller is to do next.
    pub fn pending(&self) -> (action: Action)
        ensures
            action == action_of(self.progress()),
    {
        match &self.phase {
            Phase::Resolving => Action::Resolve,
            Phase::Acquiring => Action::Acquire,
            Phase::Running { next } => Action::Execute { index: *next },
            Phase::Done => Action::Deliver,
            Phase::Failed { .. } => Action::Fail,
        }
    }

    /// The statement that is to run now, if the command waits for one.
    pub fn current(&self) -> (statement: Option<&Statement>)
        ensures
            match statement {
                Some(s) => self.progress() is Running && self.progress()->next < self.plan().len()
                    && s@ == self.plan()[self.progress()->next as int],
                None => !(self.progress() is Running && self.progress()->next < self.plan().len()),
            },
    {
        match &self.phase {
            Phase::Running { next } => {
                if *next < self.plan.len() {
                    Some(&self.plan[*next])
                } else {
                    None
                }
            },
            _ => None,
        }
    }

    fn phase_from(&self, index: usize) -> (phase: Phase)
        ensures
            phase@ == running_from(self.plan(), index as nat),
    {
        if index < self.plan.len() {
            Phase::Running { next: index }
        } else {
            Phase::Done
        }
    }

    /// Takes the caller's report of the step it was asked for, moves on,
    /// and hands back what the step leaves in the audit trail.
    pub fn advance(&mut self, event: Event) -> (log: Vec<LogEntry>)
        ensures
            final(self).plan() == old(self).plan(),
            final(self).progress() == next_progress(old(self).plan(), old(self).progress(), event@),
            lines(log@) == lines_for(old(self).plan(), old(self).progress(), event@),
    {
        let ghost plan = self.plan();
        let ghost progress = self.progress();
        let mut log: Vec<LogEntry> = Vec::new();
        proof {
            assert(lines(log@) =~= Seq::<LogLine>::empty());
        }
        let mut moved: Option<Phase> = None;
        match (&self.phase, event) {
            (Phase::Resolving, Event::Resolved) => {
                moved = Some(Phase::Acquiring);
            },
            (Phase::Resolving, Event::Unresolved) => {
                let error = DbError::NotConnected;
                log = error.log_entries();
                moved = Some(Phase::Failed { error });
            },
            (Phase::Acquiring, Event::Acquired) => {
                moved = Some(self.phase_from(0));
            },
            (Phase::Acquiring, Event::AcquireFailed { cause }) => {
                let error = DbError::Connectivity { target: None, cause };
                log = error.log_entries();
                moved = Some(Phase::Failed { error });
            },
            (Phase::Running { next }, Event::Succeeded { rows }) => {
                let at: usize = *next;
                if at < self.plan.len() {
                    log.push(query_result_entry(self.plan[at].label.as_str(), rows));
                    proof {
                        assert(lines(log@) =~= success_lines(plan[at as int].label, rows as nat));
                    }
                    moved = Some(self.phase_from(at + 1));
                } else {
                    moved = Some(Phase::Done);
                }
            },
            (Phase::Running { next }, Event::Failed { cause }) => {
                let at: usize = *next;
                if at < self.plan.len() {
                    let error = DbError::Query { statement: self.plan[at].label.clone(), cause };
                    log = error.log_entries();
                    if self.plan[at].required {
                        moved = Some(Phase::Failed { error });
                    } else {
                        moved = Some(self.phase_from(at + 1));
                    }
                } else {
                    moved = Some(Phase::Done);
                }
            },
            _ => {},
        }
        match moved {
            Some(phase) => {
                self.phase = phase;
            },
            None => {},
        }
        log
    }

    /// What the command came to: nothing as long as it is on its way, then
    /// success, or the failure that ended it.
    pub fn finish(self) -> (result: Option<Result<(), DbError>>)
        ensures
            match self.progress() {
                Progress::Done => result == Some(Ok::<(), DbError>(())),
                Progress::Failed { failure } => result is Some && result->0 is Err
                    && result->0->Err_0@ == failure,
                _ => result is None,
            },
    {
        match self.phase {
            Phase::Done => Some(Ok(())),
            Phase::Failed { error } => Some(Err(error)),
            _ => None,
        }
    }
}

/// How far a command has come after the caller has reported the events, one
/// after the other, from the given phase on.
pub open spec fn progress_after(
    plan: Seq<StatementText>,
    progress: Progress,
    events: Seq<Occurrence>,
) -> Progress
    decreases events.len(),
{
    if events.len() == 0 {
        progress
    } else {
        next_progress(plan, progress_after(plan, progress, events.drop_last()), events.last())
    }
}

/// All that the events leave in the audit trail, in order.
pub open spec fn lines_after(
    plan: Seq<StatementText>,
    progress: Progress,
    events: Seq<Occurrence>,
) -> Seq<LogLine>
    decreases events.len(),
{
    if events.len() == 0 {
        Seq::empty()
    } else {
        lines_after(plan, progress, events.drop_last()) + lines_for(
            plan,
            progress_after(plan, progress, events.drop_last()),
            events.last(),
        )
    }
}

/// Whether every statement of the plan is required.
pub open spec fn all_required(plan: Seq<StatementText>) -> bool {
    forall|i: int| 0 <= i < plan.len() ==> (#[trigger] plan[i]).required
}

/// What the audit trail holds of a command whose statements are all
/// required, by the phase that the command has come to: a line in the query
/// stream for each statement that has run, none in the error stream; and
/// once the command has failed one line more in each of the two streams.
pub open spec fn tally_fits(plan: Seq<StatementText>, progress: Progress, log: Seq<LogLine>) -> bool {
    let queries = count_for(log, LogStream::Query);
    let errors = count_for(log, LogStream::Error);
    match progress {
        Progress::Resolving => queries == 0 && errors == 0,
        Progress::Acquiring => queries == 0 && errors == 0,
        Progress::Running { next } => next < plan.len() && queries == next && errors == 0,
        Progress::Done => queries == plan.len() && errors == 0,
        Progress::Failed { failure } => errors == 1 && 1 <= queries && (queries <= plan.len()
            || queries == 1),
    }
}

/// Every statement that succeeds leaves one line in the query stream, and
/// the failure that ends a command leaves one line in each of the two
/// streams: whatever the caller reports, the audit trail of a command whose
/// statements are all required fits the phase that the command has come to.
pub proof fn lemma_one_line_for_each_outcome(plan: Seq<StatementText>, events: Seq<Occurrence>)
    requires
        all_required(plan),
    ensures
        tally_fits(
            plan,
            progress_after(plan, Progress::Resolving, events),
            lines_after(plan, Progress::Resolving, events),
        ),
    decreases events.len(),
{
    if events.len() > 0 {
        let front = events.drop_last();
        let before = progress_after(plan, Progress::Resolving, front);
        let log = lines_after(plan, Progress::Resolving, front);
        let event = events.last();
        let added = lines_for(plan, before, event);
        lemma_one_line_for_each_outcome(plan, front);
        lemma_count_adds(log, added, LogStream::Query);
        lemma_count_adds(log, added, LogStream::Error);
        match (before, event) {
            (Progress::Resolving, Occurrence::Unresolved) => {
                lemma_error_is_one_line_each(message_of(Failure::NotConnected));
            },
            (Progress::Acquiring, Occurrence::AcquireFailed { cause }) => {
                lemma_error_is_one_line_each(
                    message_of(Failure::Connectivity { target: None, cause }),
                );
            },
            (Progress::Running { next }, Occurrence::Succeeded { rows }) => {
                lemma_success_is_one_query_line(plan[next as int].label, rows);
            },
            (Progress::Running { next }, Occurrence::Failed { cause }) => {
                assert(plan[next as int].required);
                lemma_error_is_one_line_each(message_of(statement_failure(plan, next, cause)));
            },
            _ => {
                assert(added =~= Seq::<LogLine>::empty());
            },
        }
    }
}

/// A command of one required statement that ends well has left exactly one
/// line in the query stream and none in the error stream; one that fails,
/// at whatever step, has left exactly one line in each of the two streams.
pub proof fn lemma_single_statement_trail(plan: Seq<StatementText>, events: Seq<Occurrence>)
    requires
        plan.len() == 1,
        all_required(plan),
    ensures
        progress_after(plan, Progress::Resolving, events) is Done ==> count_for(
            lines_after(plan, Progress::Resolving, events),
            LogStream::Query,
        ) == 1 && count_for(lines_after(plan, Progress::Resolving, events), LogStream::Error) == 0,
        progress_after(plan, Progress::Resolving, events) is Failed ==> count_for(
            lines_after(plan, Progress::Resolving, events),
            LogStream::Query,
        ) == 1 && count_for(lines_after(plan, Progress::Resolving, events), LogStream::Error) == 1,
{
    lemma_one_line_for_each_outcome(plan, events);
}

/// A command that has ended stays as it ended, whatever is reported to it.
pub proof fn lemma_ended_is_final(plan: Seq<StatementText>, progress: Progress, event: Occurrence)
    requires
        progress is Done || progress is Failed,
    ensures
        next_progress(plan, progress, event) == progress,
        lines_for(plan, progress, event) == Seq::<LogLine>::empty(),
{
}

/// A statement runs only after every statement before it has run without a
/// failure that ends the command: the first failure of a required statement
/// ends the command, and none after it is asked for.
pub proof fn lemma_failure_of_required_ends(
    plan: Seq<StatementText>,
    next: nat,
    cause: Seq<char>,
)
    requires
        next < plan.len(),
        plan[next as int].required,
    ensures
        next_progress(plan, Progress::Running { next }, Occurrence::Failed { cause })
            == (Progress::Failed { failure: statement_failure(plan, next, cause) }),
        action_of(next_progress(plan, Progress::Running { next }, Occurrence::Failed { cause }))
            == Action::Fail,
{
}

} // verus!
