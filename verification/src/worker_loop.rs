//! The worker's cycle of scanning and waiting, and its shutdown.

use crate::config::{dir_choice, stem_choice, BackgroundTaskConfig, Interval};
use crate::error::IoFailure;
use crate::path::{path_file_stem, path_parent};
use crate::segment::SealedSegment;
use crate::worker::{begun, name_views, process_segments, segment_views, Next, NextView};
use vstd::prelude::*;

verus! {

/// Where the worker looks for segments, how often, and what runs on them.
#[derive(Debug)]
pub struct WorkerLoop {
    pub dir: String,
    pub stem: String,
    pub poll_interval: Interval,
    /// The processors' names, in the order in which they run.
    pub processors: Vec<&'static str>,
}

/// What a scan of the directory leads to: whether segments were found, and what
/// is done with them. A scan that failed counts as one that found none.
pub open spec fn scanned(
    segments: Option<Seq<SealedSegment>>,
    processors: Seq<&'static str>,
) -> (bool, NextView) {
    match segments {
        Some(segments) => (
            segments.len() > 0,
            begun(segment_views(segments), name_views(processors)),
        ),
        None => (false, NextView::Finished),
    }
}

impl WorkerLoop {
    /// A worker for the configured trace path.
    pub fn new(config: &BackgroundTaskConfig, processors: Vec<&'static str>) -> (res: WorkerLoop)
        ensures
            res.dir@ == dir_choice(path_parent(config.trace_path@)),
            res.stem@ == stem_choice(path_file_stem(config.trace_path@)),
            res.poll_interval == config.poll_interval,
            res.processors == processors,
    {
        WorkerLoop {
            dir: config.trace_dir().to_owned(),
            stem: config.trace_stem().to_owned(),
            poll_interval: config.poll_interval(),
            processors,
        }
    }

    /// Takes up what a scan for sealed segments gave.
    pub fn process_open_segments(&self, scan: Result<Vec<SealedSegment>, IoFailure>) -> (res: (
        bool,
        Next,
    ))
        ensures
            (res.0, res.1@) == scanned(
                match scan {
                    Ok(segments) => Some(segments@),
                    Err(_) => None,
                },
                self.processors@,
            ),
            scan matches Ok(segments) ==> (res.0 <==> segments@.len() > 0),
            scan is Err ==> !res.0 && res.1 is Finished,
            scan matches Ok(segments) ==> (res.1 is Read <==> segments@.len() > 0
                && self.processors@.len() > 0),
            scan matches Ok(segments) ==> (res.1@ matches NextView::Read { batch } ==> {
                &&& batch.at == 0
                &&& batch.segments.len() == segments@.len()
                &&& batch.processors.len() == self.processors@.len()
                &&& forall|i: int|
                    0 <= i < segments@.len() ==> {
                        &&& (#[trigger] batch.segments[i]).path == segments@[i].path@
                        &&& batch.segments[i].index == segments@[i].index
                    }
                &&& forall|i: int|
                    0 <= i < self.processors@.len() ==> #[trigger] batch.processors[i]
                        == self.processors@[i]@
            }),
    {
        match scan {
            Ok(segments) => {
                let found: bool = segments.len() > 0;
                let mut processors: Vec<&'static str> = Vec::new();
                let mut i: usize = 0;
                while i < self.processors.len()
                    invariant
                        i <= self.processors.len(),
                        processors@ == self.processors@.take(i as int),
                    decreases self.processors.len() - i,
                {
                    processors.push(self.processors[i]);
                    i = i + 1;
                }
                assert(processors@ =~= self.processors@);
                (found, process_segments(segments, processors))
            },
            Err(_) => (false, Next::Finished),
        }
    }
}

/// Where the worker is in its cycle.
#[derive(Clone, Copy, Debug, PartialEq, Eq, Structural)]
pub enum CycleState {
    /// Scans for segments and processes them.
    Scan,
    /// Scans one last time after the stop signal.
    FinalScan,
    /// Waits for the poll interval to pass or for the stop signal.
    Wait,
    /// Is done.
    Exit,
}

/// The state that follows, given whether the scan found segments and whether the
/// stop signal has come.
pub open spec fn cycle_next(state: CycleState, found: bool, stop: bool) -> CycleState {
    match state {
        CycleState::Scan => if stop {
            CycleState::FinalScan
        } else if found {
            CycleState::Scan
        } else {
            CycleState::Wait
        },
        CycleState::FinalScan => CycleState::Exit,
        CycleState::Wait => CycleState::Scan,
        CycleState::Exit => CycleState::Exit,
    }
}

impl CycleState {
    /// The state that follows when the work of this one is done.
    pub fn next(self, found: bool, stop: bool) -> (res: CycleState)
        ensures
            res == cycle_next(self, found, stop),
    {
        match self {
            CycleState::Scan => if stop {
                CycleState::FinalScan
            } else if found {
                CycleState::Scan
            } else {
                CycleState::Wait
            },
            CycleState::FinalScan => CycleState::Exit,
            CycleState::Wait => CycleState::Scan,
            CycleState::Exit => CycleState::Exit,
        }
    }
}

/// The state after `n` steps, given what each scan found and when the stop
/// signal was seen.
pub open spec fn cycle_after(
    n: nat,
    found: spec_fn(nat) -> bool,
    stop: spec_fn(nat) -> bool,
) -> CycleState
    decreases n,
{
    if n == 0 {
        CycleState::Scan
    } else {
        let before = (n - 1) as nat;
        cycle_next(cycle_after(before, found, stop), found(before), stop(before))
    }
}

/// Once the stop signal has come, the worker finishes the scan under way, scans
/// exactly once more and exits, whatever the scans find. From a wait it first
/// goes back to scanning.
pub proof fn law_stop_drains_and_exits(
    n: nat,
    found: spec_fn(nat) -> bool,
    stop: spec_fn(nat) -> bool,
)
    requires
        forall|i: nat| i >= n ==> #[trigger] stop(i),
    ensures
        cycle_after(n, found, stop) == CycleState::Scan ==> cycle_after(n + 1, found, stop)
            == CycleState::FinalScan && cycle_after(n + 2, found, stop) == CycleState::Exit,
        cycle_after(n, found, stop) == CycleState::Wait ==> cycle_after(n + 1, found, stop)
            == CycleState::Scan && cycle_after(n + 2, found, stop) == CycleState::FinalScan
            && cycle_after(n + 3, found, stop) == CycleState::Exit,
{
    reveal_with_fuel(cycle_after, 4);
    assert(stop(n));
    assert(stop((n + 1) as nat));
    assert(stop((n + 2) as nat));
}

/// Without the stop signal the worker never exits, and it waits exactly when the
/// scan before found no segment.
pub proof fn law_runs_until_stopped(
    n: nat,
    found: spec_fn(nat) -> bool,
    stop: spec_fn(nat) -> bool,
)
    requires
        forall|i: nat| i < n ==> !#[trigger] stop(i),
    ensures
        cycle_after(n, found, stop) == CycleState::Scan || cycle_after(n, found, stop)
            == CycleState::Wait,
        cycle_after(n, found, stop) == CycleState::Wait <==> n > 0 && cycle_after(
            (n - 1) as nat,
            found,
            stop,
        ) == CycleState::Scan && !found((n - 1) as nat),
    decreases n,
{
    if n > 0 {
        let before = (n - 1) as nat;
        assert(!stop(before));
        law_runs_until_stopped(before, found, stop);
    }
}

/// How the background task came to its end.
#[derive(Clone, Copy, Debug, PartialEq, Eq, Structural)]
pub enum Ending {
    /// The worker returned by itself.
    Finished,
    /// The worker returned after the shutdown signal, in time.
    Drained,
    /// The worker did not return in time and was dropped.
    TimedOut,
}

/// The state of the background task.
#[derive(Clone, Copy, Debug, PartialEq, Eq, Structural)]
pub enum TaskState {
    /// The worker runs.
    Running,
    /// The worker was told to stop and has so long to return.
    Draining { timeout: Interval },
    /// The task is over.
    Stopped { ending: Ending },
}

/// What happens to the background task.
#[derive(Clone, Copy, Debug, PartialEq, Eq, Structural)]
pub enum TaskEvent {
    /// The worker returned.
    WorkerReturned,
    /// The shutdown signal came, with the time left for draining; without one
    /// where the sender was dropped.
    Shutdown { drain_timeout: Option<Interval> },
    /// The time for draining is over.
    DrainTimeout,
}

/// The state that an event leads to.
pub open spec fn task_next(state: TaskState, event: TaskEvent) -> TaskState {
    match (state, event) {
        (TaskState::Running, TaskEvent::WorkerReturned) => TaskState::Stopped {
            ending: Ending::Finished,
        },
        (
            TaskState::Running,
            TaskEvent::Shutdown { drain_timeout: Some(timeout) },
        ) => TaskState::Draining { timeout },
        (TaskState::Running, TaskEvent::Shutdown { drain_timeout: None }) => TaskState::Draining {
            timeout: Interval { secs: 0, nanos: 0 },
        },
        (TaskState::Draining { .. }, TaskEvent::WorkerReturned) => TaskState::Stopped {
            ending: Ending::Drained,
        },
        (TaskState::Draining { .. }, TaskEvent::DrainTimeout) => TaskState::Stopped {
            ending: Ending::TimedOut,
        },
        (state, _) => state,
    }
}

impl TaskState {
    /// The state that an event leads to. The worker is told to stop when this
    /// turns to draining.
    pub fn next(self, event: TaskEvent) -> (res: TaskState)
        ensures
            res == task_next(self, event),
    {
        match self {
            TaskState::Running => match event {
                TaskEvent::WorkerReturned => TaskState::Stopped { ending: Ending::Finished },
                TaskEvent::Shutdown { drain_timeout } => match drain_timeout {
                    Some(timeout) => TaskState::Draining { timeout },
                    None => TaskState::Draining { timeout: Interval::zero() },
                },
                TaskEvent::DrainTimeout => self,
            },
            TaskState::Draining { .. } => match event {
                TaskEvent::WorkerReturned => TaskState::Stopped { ending: Ending::Drained },
                TaskEvent::Shutdown { .. } => self,
                TaskEvent::DrainTimeout => TaskState::Stopped { ending: Ending::TimedOut },
            },
            TaskState::Stopped { .. } => self,
        }
    }
}

/// The worker is never dropped before it was told to stop: only a draining task
/// can time out. A task that is over stays as it ended.
pub proof fn law_timeout_only_while_draining(state: TaskState, event: TaskEvent)
    ensures
        task_next(state, event) == (TaskState::Stopped { ending: Ending::TimedOut }) ==> state
            is Draining || state == (TaskState::Stopped { ending: Ending::TimedOut }),
        state is Stopped ==> task_next(state, event) == state,
{
}

/// A scan that found segments takes up all of them, in their order, with all of the
/// worker's processors in theirs, however many there are. Without segments or
/// processors, or where the scan failed, nothing is taken up.
pub proof fn law_scan_takes_up_everything(
    segments: Seq<SealedSegment>,
    processors: Seq<&'static str>,
)
    ensures
        scanned(None, processors) == (false, NextView::Finished),
        scanned(Some(segments), processors).0 <==> segments.len() > 0,
        segments.len() == 0 || processors.len() == 0 ==> scanned(Some(segments), processors).1
            is Finished,
        segments.len() > 0 && processors.len() > 0 ==> {
            let next = scanned(Some(segments), processors).1;
            &&& next is Read
            &&& next->Read_batch.at == 0
            &&& next->Read_batch.segments.len() == segments.len()
            &&& next->Read_batch.processors.len() == processors.len()
            &&& forall|i: int|
                0 <= i < segments.len() ==> {
                    &&& (#[trigger] next->Read_batch.segments[i]).path == segments[i].path@
                    &&& next->Read_batch.segments[i].index == segments[i].index
                }
            &&& forall|i: int|
                0 <= i < processors.len() ==> #[trigger] next->Read_batch.processors[i]
                    == processors[i]@
        },
{
}

/// The stop signal turns a scan into the last but one. Until then an empty scan is
/// followed by a wait and any other by a scan; a wait is followed by a scan in any
/// case, the last scan by the exit, and the exit by nothing.
pub proof fn law_cycle_step(found: bool, stop: bool)
    ensures
        stop ==> cycle_next(CycleState::Scan, found, stop) == CycleState::FinalScan,
        !stop && found ==> cycle_next(CycleState::Scan, found, stop) == CycleState::Scan,
        !stop && !found ==> cycle_next(CycleState::Scan, found, stop) == CycleState::Wait,
        cycle_next(CycleState::Wait, found, stop) == CycleState::Scan,
        cycle_next(CycleState::FinalScan, found, stop) == CycleState::Exit,
        cycle_next(CycleState::Exit, found, stop) == CycleState::Exit,
{
}

/// A running task ends where its worker returns and drains where it is told to stop,
/// for as long as it was told, which is no time at all where it was told nothing. A
/// draining task ends where the worker returns or the time is over. Nothing else
/// changes a task.
pub proof fn law_task_step(timeout: Interval, given: Interval, ending: Ending, event: TaskEvent)
    ensures
        task_next(TaskState::Running, TaskEvent::WorkerReturned) == (TaskState::Stopped {
            ending: Ending::Finished,
        }),
        task_next(TaskState::Running, TaskEvent::Shutdown { drain_timeout: Some(given) }) == (
        TaskState::Draining { timeout: given }),
        task_next(TaskState::Running, TaskEvent::Shutdown { drain_timeout: None }) is Draining,
        task_next(
            TaskState::Running,
            TaskEvent::Shutdown { drain_timeout: None },
        )->timeout.secs == 0,
        task_next(
            TaskState::Running,
            TaskEvent::Shutdown { drain_timeout: None },
        )->timeout.nanos == 0,
        task_next(TaskState::Running, TaskEvent::DrainTimeout) == TaskState::Running,
        task_next(TaskState::Draining { timeout }, TaskEvent::WorkerReturned) == (
        TaskState::Stopped { ending: Ending::Drained }),
        task_next(TaskState::Draining { timeout }, TaskEvent::DrainTimeout) == (
        TaskState::Stopped { ending: Ending::TimedOut }),
        event is Shutdown ==> task_next(TaskState::Draining { timeout }, event) == (
        TaskState::Draining { timeout }),
        task_next(TaskState::Stopped { ending }, event) == (TaskState::Stopped { ending }),
{
}

} // verus!
