//! Runs of workflow programs: when they start, and what becomes of them.
//!
//! [`ScheduledRun`] says what to do next; what came of it is handed back.

use crate::json::Json;
use crate::protocol::ids::WorkflowRunId;
use crate::protocol::research::WorkflowRunStatus;
use crate::text::{decimal, maybe, number};
use vstd::prelude::*;

verus! {

/// Why a run cannot be steered.
#[derive(Clone, Copy, Debug, PartialEq, Eq, Structural)]
pub enum WorkflowSchedulerError {
    TerminalRun { run_id: WorkflowRunId, status: WorkflowRunStatus },
    NotScheduled(WorkflowRunId),
    OutcomeChannelClosed(WorkflowRunId),
}

/// The name of a status.
pub open spec fn status_name(status: WorkflowRunStatus) -> Seq<char> {
    match status {
        WorkflowRunStatus::Created => "Created"@,
        WorkflowRunStatus::Running => "Running"@,
        WorkflowRunStatus::Paused => "Paused"@,
        WorkflowRunStatus::Completed => "Completed"@,
        WorkflowRunStatus::Failed => "Failed"@,
        WorkflowRunStatus::Cancelled => "Cancelled"@,
    }
}

fn name_of(status: WorkflowRunStatus) -> (r: &'static str)
    ensures
        r@ == status_name(status),
{
    match status {
        WorkflowRunStatus::Created => "Created",
        WorkflowRunStatus::Running => "Running",
        WorkflowRunStatus::Paused => "Paused",
        WorkflowRunStatus::Completed => "Completed",
        WorkflowRunStatus::Failed => "Failed",
        WorkflowRunStatus::Cancelled => "Cancelled",
    }
}

impl WorkflowSchedulerError {
    /// What is said of the error, given the text of the run's identifier.
    pub open spec fn words(self, run: Seq<char>) -> Seq<char> {
        match self {
            WorkflowSchedulerError::TerminalRun { status, .. } => "WorkflowRun "@ + run
                + " is terminal with status "@ + status_name(status),
            WorkflowSchedulerError::NotScheduled(_) => "WorkflowRun "@ + run
                + " is not scheduled in this process"@,
            WorkflowSchedulerError::OutcomeChannelClosed(_) => "outcome channel for WorkflowRun "@
                + run + " closed unexpectedly"@,
        }
    }

    /// What is said of the error, given the text of the run's identifier.
    pub fn message(self, run: &str) -> (r: String)
        ensures
            r@ == self.words(run@),
    {
        match self {
            WorkflowSchedulerError::TerminalRun { status, .. } => {
                let mut r = "WorkflowRun ".to_owned();
                r.append(run);
                r.append(" is terminal with status ");
                r.append(name_of(status));
                r
            },
            WorkflowSchedulerError::NotScheduled(_) => {
                let mut r = "WorkflowRun ".to_owned();
                r.append(run);
                r.append(" is not scheduled in this process");
                r
            },
            WorkflowSchedulerError::OutcomeChannelClosed(_) => {
                let mut r = "outcome channel for WorkflowRun ".to_owned();
                r.append(run);
                r.append(" closed unexpectedly");
                r
            },
        }
    }
}

/// The runs that were started in this process.
#[derive(Debug)]
pub struct WorkflowRunScheduler {
    pub scheduled: Vec<WorkflowRunId>,
}

/// Runs with one more, unless it is among them.
pub open spec fn with_run(scheduled: Seq<WorkflowRunId>, run: WorkflowRunId) -> Seq<WorkflowRunId> {
    if scheduled.contains(run) {
        scheduled
    } else {
        scheduled.push(run)
    }
}

/// Runs, each with its status.
pub open spec fn run_after(
    scheduled: Seq<WorkflowRunId>,
    runs: Seq<(WorkflowRunId, WorkflowRunStatus)>,
) -> Seq<WorkflowRunId>
    decreases runs.len(),
{
    if runs.len() == 0 {
        scheduled
    } else {
        with_run(run_after(scheduled, runs.drop_last()), runs.last().0)
    }
}

/// The runs that are started where some are to be recovered: those that were not started yet.
pub open spec fn newly_started(
    scheduled: Seq<WorkflowRunId>,
    runs: Seq<(WorkflowRunId, WorkflowRunStatus)>,
) -> Seq<WorkflowRunId>
    decreases runs.len(),
{
    if runs.len() == 0 {
        Seq::empty()
    } else {
        let before = newly_started(scheduled, runs.drop_last());
        if run_after(scheduled, runs.drop_last()).contains(runs.last().0) {
            before
        } else {
            before.push(runs.last().0)
        }
    }
}

/// Whether a run can still be steered.
pub fn check_run(run_id: WorkflowRunId, status: WorkflowRunStatus) -> (r: Result<
    (),
    WorkflowSchedulerError,
>)
    ensures
        match r {
            Ok(()) => !status.ended(),
            Err(e) => status.ended() && e == (WorkflowSchedulerError::TerminalRun {
                run_id,
                status,
            }),
        },
{
    if status.is_terminal() {
        return Err(WorkflowSchedulerError::TerminalRun { run_id, status });
    }
    Ok(())
}

/// A change of a run's status.
#[derive(Debug, PartialEq, Eq)]
pub struct StatusChange {
    pub status: WorkflowRunStatus,
    pub reason: Option<String>,
}

impl StatusChange {
    /// Whether a change sets a status for a reason.
    pub open spec fn sets(&self, status: WorkflowRunStatus, reason: Option<Seq<char>>) -> bool {
        self.status == status && maybe(self.reason) == reason
    }
}

impl WorkflowRunScheduler {
    pub open spec fn wf(&self) -> bool {
        self.scheduled@.no_duplicates()
    }

    pub fn new() -> (r: WorkflowRunScheduler)
        ensures
            r.wf(),
            r.scheduled@.len() == 0,
    {
        WorkflowRunScheduler { scheduled: Vec::new() }
    }

    /// Whether a run was started in this process.
    pub fn is_scheduled(&self, run_id: WorkflowRunId) -> (r: bool)
        ensures
            r == self.scheduled@.contains(run_id),
    {
        let mut i: usize = 0;
        while i < self.scheduled.len()
            invariant
                i <= self.scheduled@.len(),
                forall|k: int| 0 <= k < i ==> self.scheduled@[k] != run_id,
            decreases self.scheduled.len() - i,
        {
            if self.scheduled[i] == run_id {
                return true;
            }
            i = i + 1;
        }
        false
    }

    /// Whether a run is to be started now. One that was started before is not started again.
    pub fn start(&mut self, run_id: WorkflowRunId, status: WorkflowRunStatus) -> (r: Result<
        bool,
        WorkflowSchedulerError,
    >)
        requires
            old(self).wf(),
        ensures
            final(self).wf(),
            match r {
                Ok(started) => !status.ended() && started == !old(self).scheduled@.contains(run_id)
                    && final(self).scheduled@ == with_run(old(self).scheduled@, run_id),
                Err(e) => status.ended() && e == (WorkflowSchedulerError::TerminalRun {
                    run_id,
                    status,
                }) && final(self).scheduled@ == old(self).scheduled@,
            },
    {
        check_run(run_id, status)?;
        if self.is_scheduled(run_id) {
            return Ok(false);
        }
        self.scheduled.push(run_id);
        Ok(true)
    }

    /// Starts the runs that had been created but not begun when the last process stopped. The
    /// first that cannot be started ends it.
    pub fn recover(&mut self, runs: &Vec<(WorkflowRunId, WorkflowRunStatus)>) -> (r: Result<
        Vec<WorkflowRunId>,
        WorkflowSchedulerError,
    >)
        requires
            old(self).wf(),
        ensures
            final(self).wf(),
            match r {
                Ok(started) => (forall|i: int| 0 <= i < runs@.len() ==> !(#[trigger] runs@[i]).1.ended())
                    && started@ == newly_started(old(self).scheduled@, runs@)
                    && final(self).scheduled@ == run_after(old(self).scheduled@, runs@),
                Err(e) => exists|i: int|
                    {
                        &&& 0 <= i < runs@.len()
                        &&& (#[trigger] runs@[i]).1.ended()
                        &&& forall|k: int| 0 <= k < i ==> !(#[trigger] runs@[k]).1.ended()
                        &&& e == (WorkflowSchedulerError::TerminalRun {
                            run_id: runs@[i].0,
                            status: runs@[i].1,
                        })
                        &&& final(self).scheduled@ == run_after(
                            old(self).scheduled@,
                            runs@.take(i),
                        )
                    },
            },
    {
        let ghost before = self.scheduled@;
        let mut started: Vec<WorkflowRunId> = Vec::new();
        let mut i: usize = 0;
        assert(runs@.take(0) =~= Seq::<(WorkflowRunId, WorkflowRunStatus)>::empty());
        while i < runs.len()
            invariant
                i <= runs@.len(),
                before == old(self).scheduled@,
                self.wf(),
                forall|k: int| 0 <= k < i ==> !(#[trigger] runs@[k]).1.ended(),
                started@ == newly_started(before, runs@.take(i as int)),
                self.scheduled@ == run_after(before, runs@.take(i as int)),
            decreases runs.len() - i,
        {
            let (run_id, status) = runs[i];
            assert(runs@.take(i + 1).drop_last() =~= runs@.take(i as int));
            assert(runs@.take(i + 1).last() == runs@[i as int]);
            match self.start(run_id, status) {
                Ok(fresh) => {
                    if fresh {
                        started.push(run_id);
                    }
                },
                Err(e) => {
                    assert(runs@[i as int].1.ended());
                    return Err(e);
                },
            }
            i = i + 1;
        }
        assert(runs@.take(i as int) =~= runs@);
        Ok(started)
    }

    /// What pausing a run changes.
    pub fn pause(&self, run_id: WorkflowRunId, status: WorkflowRunStatus) -> (r: Result<
        StatusChange,
        WorkflowSchedulerError,
    >)
        ensures
            match r {
                Ok(change) => !status.ended() && change.sets(
                    WorkflowRunStatus::Paused,
                    Some("paused by user"@),
                ),
                Err(e) => status.ended() && e == (WorkflowSchedulerError::TerminalRun {
                    run_id,
                    status,
                }),
            },
    {
        check_run(run_id, status)?;
        Ok(
            StatusChange {
                status: WorkflowRunStatus::Paused,
                reason: Some("paused by user".to_owned()),
            },
        )
    }

    /// What resuming a run changes. The run is then started, unless it was started before.
    pub fn resume(&self, run_id: WorkflowRunId, status: WorkflowRunStatus) -> (r: Result<
        StatusChange,
        WorkflowSchedulerError,
    >)
        ensures
            match r {
                Ok(change) => !status.ended() && change.sets(WorkflowRunStatus::Running, None),
                Err(e) => status.ended() && e == (WorkflowSchedulerError::TerminalRun {
                    run_id,
                    status,
                }),
            },
    {
        check_run(run_id, status)?;
        Ok(StatusChange { status: WorkflowRunStatus::Running, reason: None })
    }

    /// What cancelling a run changes, and whether there is something to stop.
    pub fn cancel(&self, run_id: WorkflowRunId, status: WorkflowRunStatus) -> (r: Result<
        (StatusChange, bool),
        WorkflowSchedulerError,
    >)
        ensures
            match r {
                Ok((change, stop)) => !status.ended() && change.sets(
                    WorkflowRunStatus::Cancelled,
                    Some("cancelled by user"@),
                ) && stop == self.scheduled@.contains(run_id),
                Err(e) => status.ended() && e == (WorkflowSchedulerError::TerminalRun {
                    run_id,
                    status,
                }),
            },
    {
        check_run(run_id, status)?;
        let change = StatusChange {
            status: WorkflowRunStatus::Cancelled,
            reason: Some("cancelled by user".to_owned()),
        };
        Ok((change, self.is_scheduled(run_id)))
    }

    /// Whether the end of a run can be waited for.
    pub fn wait(&self, run_id: WorkflowRunId) -> (r: Result<(), WorkflowSchedulerError>)
        ensures
            match r {
                Ok(()) => self.scheduled@.contains(run_id),
                Err(e) => !self.scheduled@.contains(run_id) && e
                    == WorkflowSchedulerError::NotScheduled(run_id),
            },
    {
        if self.is_scheduled(run_id) {
            Ok(())
        } else {
            Err(WorkflowSchedulerError::NotScheduled(run_id))
        }
    }
}

/// Why runs that had begun when the last process stopped fail.
pub fn interrupted_reason() -> (r: String)
    ensures
        r@
            == "WorkflowRun interrupted by server restart; durable Python effect replay is not available. Start a new run to retry safely."@,
{
    "WorkflowRun interrupted by server restart; durable Python effect replay is not available. Start a new run to retry safely.".to_owned()
}

/// A run is started at most once in a process: once it was started, it is known, and starting it
/// again starts nothing.
pub proof fn law_runs_start_once(scheduled: Seq<WorkflowRunId>, run: WorkflowRunId)
    ensures
        with_run(scheduled, run).contains(run),
        with_run(with_run(scheduled, run), run) == with_run(scheduled, run),
{
    let all = with_run(scheduled, run);
    if !scheduled.contains(run) {
        assert(all[scheduled.len() as int] == run);
    }
}

/// What a run has used and may use, when it is taken up.
#[derive(Clone, Copy, Debug, PartialEq, Eq, Structural)]
pub struct LoadedRun {
    pub status: WorkflowRunStatus,
    pub max_wall_time_seconds: Option<u64>,
    pub wall_time_seconds: u64,
}

/// What came of the last step of a run. A missing fault is success.
#[derive(Debug)]
pub enum RunEvent {
    /// There is room for the run.
    Permitted(Option<String>),
    /// The run was cancelled while it waited for room.
    CancelledEarly,
    Loaded(Result<LoadedRun, String>),
    StatusSet(Option<String>),
    /// The program ended, and the time that it took, in nanoseconds.
    Executed { result: Result<Json, String>, elapsed: u128 },
    /// The program ran out of time, and the time that it took, in nanoseconds.
    TimedOut { elapsed: u128 },
    /// The time since the run was taken up, in nanoseconds.
    Measured { elapsed: u128 },
    UsageAdded(Option<String>),
    /// The run was read again, and whether it was cancelled.
    Reloaded { status: Result<WorkflowRunStatus, String>, cancelled: bool },
    Stored(Option<String>),
}

/// What is done next for a run.
#[derive(Debug)]
pub enum RunStep {
    Load,
    SetStatus(StatusChange),
    /// The program is run, for some seconds at most.
    Execute { seconds: Option<u64> },
    /// No program is run; the time since the run was taken up is measured.
    Measure,
    /// The time that was taken is added to what the run has used.
    AddUsage { wall_time_seconds: u64 },
    Reload,
    /// The run is completed with what the program returned.
    Complete { output: Json },
    /// The run is over.
    Finish(Result<Json, String>),
}

/// Where a run stands.
#[derive(Debug)]
pub enum RunStage {
    Waiting,
    Loading,
    /// It is marked as running, before the program is run.
    Starting(LoadedRun),
    Executing(LoadedRun),
    /// Nothing is left of the run's time.
    Measuring(Result<Json, String>),
    /// The time that was taken is being added.
    Recording(Result<Json, String>),
    Reloading(Result<Json, String>),
    /// What came of it is being stored.
    Storing(Result<Json, String>),
    Finished,
}

/// A run that was started.
#[derive(Debug)]
pub struct ScheduledRun {
    pub stage: RunStage,
}

/// A time in whole seconds. A time of less than a second counts as one.
pub open spec fn counted_seconds(elapsed: u128) -> u64 {
    let seconds = elapsed / 1_000_000_000;
    if elapsed == 0 {
        0
    } else if seconds == 0 {
        1
    } else if seconds > u64::MAX {
        u64::MAX
    } else {
        seconds as u64
    }
}

/// A time in whole seconds.
pub fn count_seconds(elapsed: u128) -> (r: u64)
    ensures
        r == counted_seconds(elapsed),
{
    let seconds: u128 = elapsed / 1_000_000_000;
    if elapsed == 0 {
        0
    } else if seconds == 0 {
        1
    } else if seconds > u64::MAX as u128 {
        u64::MAX
    } else {
        seconds as u64
    }
}

/// Whether nothing is left of the time that a run may take.
pub open spec fn exhausted(run: LoadedRun) -> bool {
    run.max_wall_time_seconds matches Some(limit) && run.wall_time_seconds >= limit
}

/// What is said of a run that has no time left.
pub open spec fn exhausted_words(run: LoadedRun) -> Seq<char> {
    "wall-time budget exhausted: used "@ + decimal(run.wall_time_seconds as nat) + " of "@
        + decimal(run.max_wall_time_seconds->0 as nat) + " seconds"@
}

/// What is said of a program that took too long.
pub open spec fn exceeded_words(limit: u64) -> Seq<char> {
    "wall-time budget exceeded after "@ + decimal(limit as nat) + " seconds"@
}

/// The seconds that a program may run.
pub open spec fn seconds_left(run: LoadedRun) -> Option<u64> {
    match run.max_wall_time_seconds {
        Some(limit) => if run.wall_time_seconds >= limit {
            Some(0)
        } else {
            Some((limit - run.wall_time_seconds) as u64)
        },
        None => None,
    }
}

/// What is said of a run that was cancelled while it waited.
pub open spec fn cancelled_words() -> Seq<char> {
    "cancelled before execution started"@
}

fn say_exhausted(run: &LoadedRun) -> (r: String)
    requires
        exhausted(*run),
    ensures
        r@ == exhausted_words(*run),
{
    let limit: u64 = match run.max_wall_time_seconds {
        Some(limit) => limit,
        None => 0,
    };
    let mut r = "wall-time budget exhausted: used ".to_owned();
    let used = number(run.wall_time_seconds);
    r.append(used.as_str());
    r.append(" of ");
    let limit = number(limit);
    r.append(limit.as_str());
    r.append(" seconds");
    r
}

fn say_exceeded(limit: u64) -> (r: String)
    ensures
        r@ == exceeded_words(limit),
{
    let mut r = "wall-time budget exceeded after ".to_owned();
    let n = number(limit);
    r.append(n.as_str());
    r.append(" seconds");
    r
}

/// Whether two results of a program say the same.
pub open spec fn same_result(a: Result<Json, String>, b: Result<Json, String>) -> bool {
    match (a, b) {
        (Ok(x), Ok(y)) => x@ == y@,
        (Err(x), Err(y)) => x@ == y@,
        _ => false,
    }
}

/// What follows once a run is loaded: the program is run, unless no time is left for it.
pub open spec fn begins(run: LoadedRun, step: RunStep, stage: RunStage) -> bool {
    if exhausted(run) {
        &&& step == RunStep::Measure
        &&& stage matches RunStage::Measuring(Err(e)) && e@ == exhausted_words(run)
    } else {
        &&& step matches RunStep::Execute { seconds } && seconds == seconds_left(run)
        &&& stage == RunStage::Executing(run)
    }
}

/// Whether a run ends with a fault.
pub open spec fn ends_with(step: RunStep, stage: RunStage, fault: Seq<char>) -> bool {
    &&& step matches RunStep::Finish(Err(e)) && e@ == fault
    &&& stage == RunStage::Finished
}

/// What follows once a run was read again: what came of the program is stored, unless the run has
/// ended meanwhile.
pub open spec fn settles(
    result: Result<Json, String>,
    status: WorkflowRunStatus,
    cancelled: bool,
    step: RunStep,
    stage: RunStage,
) -> bool {
    if status.ended() {
        &&& step matches RunStep::Finish(r) && r == result
        &&& stage == RunStage::Finished
    } else {
        &&& stage matches RunStage::Storing(r) && same_result(r, result)
        &&& if cancelled {
            step matches RunStep::SetStatus(change) && change.sets(
                WorkflowRunStatus::Cancelled,
                Some("cancelled by user"@),
            )
        } else {
            match result {
                Ok(output) => step matches RunStep::Complete { output: stored } && stored@
                    == output@,
                Err(e) => step matches RunStep::SetStatus(change) && change.sets(
                    WorkflowRunStatus::Failed,
                    Some(e@),
                ),
            }
        }
    }
}

/// Whether something came of the step that was asked for.
pub open spec fn awaits(stage: RunStage, event: RunEvent) -> bool {
    match stage {
        RunStage::Waiting => event is Permitted || event is CancelledEarly,
        RunStage::Loading => event is Loaded,
        RunStage::Starting(_) => event is StatusSet,
        RunStage::Executing(run) => event is Executed || (event is TimedOut
            && run.max_wall_time_seconds is Some),
        RunStage::Measuring(_) => event is Measured,
        RunStage::Recording(_) => event is UsageAdded,
        RunStage::Reloading(_) => event is Reloaded,
        RunStage::Storing(_) => event is Stored,
        RunStage::Finished => false,
    }
}

/// What follows what came of a step.
pub open spec fn follows(before: RunStage, event: RunEvent, step: RunStep, stage: RunStage) -> bool {
    match (before, event) {
        (RunStage::Waiting, RunEvent::Permitted(None)) => step == RunStep::Load && stage
            == RunStage::Loading,
        (RunStage::Waiting, RunEvent::Permitted(Some(e))) => ends_with(step, stage, e@),
        (RunStage::Waiting, RunEvent::CancelledEarly) => ends_with(step, stage, cancelled_words()),
        (RunStage::Loading, RunEvent::Loaded(Err(e))) => ends_with(step, stage, e@),
        (RunStage::Loading, RunEvent::Loaded(Ok(run))) => if run.status
            == WorkflowRunStatus::Created {
            &&& step matches RunStep::SetStatus(change) && change.sets(
                WorkflowRunStatus::Running,
                None,
            )
            &&& stage == RunStage::Starting(run)
        } else {
            begins(run, step, stage)
        },
        (RunStage::Starting(_), RunEvent::StatusSet(Some(e))) => ends_with(step, stage, e@),
        (RunStage::Starting(run), RunEvent::StatusSet(None)) => begins(run, step, stage),
        (RunStage::Executing(_), RunEvent::Executed { result, elapsed }) => {
            &&& step matches RunStep::AddUsage { wall_time_seconds } && wall_time_seconds
                == counted_seconds(elapsed)
            &&& stage matches RunStage::Recording(r) && r == result
        },
        (RunStage::Executing(run), RunEvent::TimedOut { elapsed }) => {
            &&& step matches RunStep::AddUsage { wall_time_seconds } && wall_time_seconds
                == counted_seconds(elapsed)
            &&& stage matches RunStage::Recording(Err(e)) && e@ == exceeded_words(
                run.max_wall_time_seconds->0,
            )
        },
        (RunStage::Measuring(result), RunEvent::Measured { elapsed }) => {
            &&& step matches RunStep::AddUsage { wall_time_seconds } && wall_time_seconds
                == counted_seconds(elapsed)
            &&& stage matches RunStage::Recording(r) && r == result
        },
        (RunStage::Recording(_), RunEvent::UsageAdded(Some(e))) => ends_with(step, stage, e@),
        (RunStage::Recording(result), RunEvent::UsageAdded(None)) => step == RunStep::Reload && stage
            == RunStage::Reloading(result),
        (RunStage::Reloading(_), RunEvent::Reloaded { status: Err(e), .. }) => ends_with(
            step,
            stage,
            e@,
        ),
        (RunStage::Reloading(result), RunEvent::Reloaded { status: Ok(status), cancelled }) => {
            settles(result, status, cancelled, step, stage)
        },
        (RunStage::Storing(_), RunEvent::Stored(Some(e))) => ends_with(step, stage, e@),
        (RunStage::Storing(result), RunEvent::Stored(None)) => {
            &&& step == RunStep::Finish(result)
            &&& stage == RunStage::Finished
        },
        _ => false,
    }
}

fn begin(run: LoadedRun) -> (r: (RunStep, RunStage))
    ensures
        begins(run, r.0, r.1),
{
    match run.max_wall_time_seconds {
        Some(limit) => {
            if run.wall_time_seconds >= limit {
                (RunStep::Measure, RunStage::Measuring(Err(say_exhausted(&run))))
            } else {
                (
                    RunStep::Execute { seconds: Some(limit - run.wall_time_seconds) },
                    RunStage::Executing(run),
                )
            }
        },
        None => (RunStep::Execute { seconds: None }, RunStage::Executing(run)),
    }
}

fn settle(result: Result<Json, String>, status: WorkflowRunStatus, cancelled: bool) -> (r: (
    RunStep,
    RunStage,
))
    ensures
        settles(result, status, cancelled, r.0, r.1),
{
    if status.is_terminal() {
        return (RunStep::Finish(result), RunStage::Finished);
    }
    if cancelled {
        let change = StatusChange {
            status: WorkflowRunStatus::Cancelled,
            reason: Some("cancelled by user".to_owned()),
        };
        return (RunStep::SetStatus(change), RunStage::Storing(result));
    }
    match result {
        Ok(output) => {
            let stored = output.clone();
            (RunStep::Complete { output: stored }, RunStage::Storing(Ok(output)))
        },
        Err(e) => {
            let change = StatusChange {
                status: WorkflowRunStatus::Failed,
                reason: Some(e.clone()),
            };
            (RunStep::SetStatus(change), RunStage::Storing(Err(e)))
        },
    }
}

impl ScheduledRun {
    pub fn new() -> (r: ScheduledRun)
        ensures
            r.stage == RunStage::Waiting,
    {
        ScheduledRun { stage: RunStage::Waiting }
    }

    fn end(&mut self, fault: String) -> (r: RunStep)
        ensures
            ends_with(r, final(self).stage, fault@),
    {
        self.stage = RunStage::Finished;
        RunStep::Finish(Err(fault))
    }

    /// What follows what came of a step.
    pub fn advance(&mut self, event: RunEvent) -> (r: RunStep)
        requires
            awaits(old(self).stage, event),
        ensures
            follows(old(self).stage, event, r, final(self).stage),
    {
        let mut stage = RunStage::Finished;
        std::mem::swap(&mut stage, &mut self.stage);
        match (stage, event) {
            (RunStage::Waiting, RunEvent::Permitted(None)) => {
                self.stage = RunStage::Loading;
                RunStep::Load
            },
            (RunStage::Waiting, RunEvent::Permitted(Some(e))) => self.end(e),
            (RunStage::Waiting, RunEvent::CancelledEarly) => {
                self.end("cancelled before execution started".to_owned())
            },
            (RunStage::Loading, RunEvent::Loaded(Err(e))) => self.end(e),
            (RunStage::Loading, RunEvent::Loaded(Ok(run))) => {
                if run.status == WorkflowRunStatus::Created {
                    self.stage = RunStage::Starting(run);
                    RunStep::SetStatus(
                        StatusChange { status: WorkflowRunStatus::Running, reason: None },
                    )
                } else {
                    let (step, next) = begin(run);
                    self.stage = next;
                    step
                }
            },
            (RunStage::Starting(_), RunEvent::StatusSet(Some(e))) => self.end(e),
            (RunStage::Starting(run), RunEvent::StatusSet(None)) => {
                let (step, next) = begin(run);
                self.stage = next;
                step
            },
            (RunStage::Executing(_), RunEvent::Executed { result, elapsed }) => {
                self.stage = RunStage::Recording(result);
                RunStep::AddUsage { wall_time_seconds: count_seconds(elapsed) }
            },
            (RunStage::Executing(run), RunEvent::TimedOut { elapsed }) => {
                let limit: u64 = match run.max_wall_time_seconds {
                    Some(limit) => limit,
                    None => 0,
                };
                self.stage = RunStage::Recording(Err(say_exceeded(limit)));
                RunStep::AddUsage { wall_time_seconds: count_seconds(elapsed) }
            },
            (RunStage::Measuring(result), RunEvent::Measured { elapsed }) => {
                self.stage = RunStage::Recording(result);
                RunStep::AddUsage { wall_time_seconds: count_seconds(elapsed) }
            },
            (RunStage::Recording(_), RunEvent::UsageAdded(Some(e))) => self.end(e),
            (RunStage::Recording(result), RunEvent::UsageAdded(None)) => {
                self.stage = RunStage::Reloading(result);
                RunStep::Reload
            },
            (RunStage::Reloading(_), RunEvent::Reloaded { status: Err(e), .. }) => self.end(e),
            (RunStage::Reloading(result), RunEvent::Reloaded { status: Ok(status), cancelled }) => {
                let (step, next) = settle(result, status, cancelled);
                self.stage = next;
                step
            },
            (RunStage::Storing(_), RunEvent::Stored(Some(e))) => self.end(e),
            (RunStage::Storing(result), RunEvent::Stored(None)) => RunStep::Finish(result),
            _ => RunStep::Load,
        }
    }
}

/// What a program returned is stored only after the time that it took was added to what the run
/// has used, and only for a run that has not ended and was not cancelled.
pub proof fn law_output_follows_usage(
    before: RunStage,
    event: RunEvent,
    step: RunStep,
    stage: RunStage,
)
    requires
        follows(before, event, step, stage),
    ensures
        step is Complete ==> before is Reloading && (event matches RunEvent::Reloaded {
            status: Ok(status),
            cancelled,
        } && !status.ended() && !cancelled),
        stage is Reloading ==> before is Recording && event == RunEvent::UsageAdded(None),
        stage is Recording ==> step is AddUsage,
{
}

/// A program is never run longer than what is left of the run's time, and not at all where nothing
/// is left.
pub proof fn law_runs_keep_their_time(
    before: RunStage,
    event: RunEvent,
    step: RunStep,
    stage: RunStage,
)
    requires
        follows(before, event, step, stage),
    ensures
        step matches RunStep::Execute { seconds } ==> (stage matches RunStage::Executing(run) && (
        run.max_wall_time_seconds matches Some(limit) ==> seconds matches Some(s) && s > 0
            && run.wall_time_seconds + s == limit)),
{
}

/// A run that has ended is not changed any more.
pub proof fn law_ended_runs_stay(
    result: Result<Json, String>,
    status: WorkflowRunStatus,
    cancelled: bool,
    step: RunStep,
    stage: RunStage,
)
    requires
        follows(
            RunStage::Reloading(result),
            RunEvent::Reloaded { status: Ok(status), cancelled },
            step,
            stage,
        ),
        status.ended(),
    ensures
        step == RunStep::Finish(result),
{
}

} // verus!
