//! Per-thread CPU timers: when sampling runs, and what registering and
//! unregistering a thread asks of the operating system.
//!
//! Each thread gets a timer of its own that fires on that thread whenever it has
//! consumed a given amount of CPU time. The calls into the system are made by
//! the caller; [`Registration`] and [`Unregistration`] say which are due and take
//! back their results.
//!
//! # Lifecycle
//!
//! 1. [`start`] is called once and sets the sampling interval.
//! 2. Each thread that wants to be profiled registers itself.
//! 3. On its exit the thread unregisters itself.
//! 4. [`disable`] pauses sampling and [`enable`] resumes it; the timers stay armed.
//! 5. [`disable_permanent`] ends sampling: each thread's next tick disarms its
//!    timer.

use vstd::prelude::*;

verus! {

/// The process-wide state of the timers.
#[derive(Clone, Copy, Debug, PartialEq, Eq, Structural)]
pub struct CtimerState {
    /// CPU time between two samples of a thread, in nanoseconds.
    pub interval_ns: i64,
    /// Whether sampling is currently enabled.
    pub running: bool,
    /// Tells each thread's next tick to disarm its timer.
    pub permanently_stopped: bool,
}

impl CtimerState {
    /// A tick takes a sample: sampling is enabled and was not ended for good.
    pub open spec fn samples(self) -> bool {
        self.running && !self.permanently_stopped
    }

    /// The state before the first [`start`].
    pub fn new() -> (res: CtimerState)
        ensures
            res == (CtimerState { interval_ns: 0, running: false, permanently_stopped: false }),
    {
        CtimerState { interval_ns: 0, running: false, permanently_stopped: false }
    }
}

/// The timer of one thread, by the handle that the system gave it.
#[derive(Clone, Copy, Debug, PartialEq, Eq, Structural)]
pub struct ThreadTimer {
    pub timer: Option<u64>,
}

/// Why timers could not be started or a thread not be registered.
#[derive(Clone, Copy, Debug, PartialEq, Eq, Structural)]
pub enum CtimerError {
    /// The interval is zero or negative.
    InvalidInterval,
    /// Sampling is not enabled.
    NotRunning,
    /// The system refused, with this error number.
    Os(i32),
}

/// The error in words, where it is this module's own.
pub open spec fn error_message(error: CtimerError) -> Option<Seq<char>> {
    match error {
        CtimerError::InvalidInterval => Some("interval must be positive"@),
        CtimerError::NotRunning => Some("ctimer is not running (call start first)"@),
        CtimerError::Os(_) => None,
    }
}

impl CtimerError {
    /// The error in words, where it is this module's own; the system has the
    /// words for its error numbers.
    pub fn message(self) -> (res: Option<&'static str>)
        ensures
            match res {
                Some(message) => error_message(self) == Some(message@),
                None => error_message(self) is None,
            },
    {
        match self {
            CtimerError::InvalidInterval => Some("interval must be positive"),
            CtimerError::NotRunning => Some("ctimer is not running (call start first)"),
            CtimerError::Os(_) => None,
        }
    }
}

/// The interval can be sampled at.
pub open spec fn valid_interval(interval_ns: i64) -> bool {
    interval_ns > 0
}

/// Checks a sampling interval. The signal handler is installed only for one that
/// passes.
pub fn check_interval(interval_ns: i64) -> (res: Result<(), CtimerError>)
    ensures
        res == if valid_interval(interval_ns) {
            Ok::<(), CtimerError>(())
        } else {
            Err::<(), CtimerError>(CtimerError::InvalidInterval)
        },
{
    if interval_ns <= 0 {
        Err(CtimerError::InvalidInterval)
    } else {
        Ok(())
    }
}

/// The state after a start at an interval, the signal handler having been
/// installed or not.
pub open spec fn started(
    state: CtimerState,
    interval_ns: i64,
    installed: Result<(), i32>,
) -> (CtimerState, Result<(), CtimerError>) {
    if !valid_interval(interval_ns) {
        (state, Err(CtimerError::InvalidInterval))
    } else {
        match installed {
            Err(errno) => (state, Err(CtimerError::Os(errno))),
            Ok(_) => (
                CtimerState { interval_ns, running: true, permanently_stopped: false },
                Ok(()),
            ),
        }
    }
}

/// Remembers the sampling interval and enables sampling, the signal handler
/// having been installed.
///
/// Calling again resets the interval without re-arming existing timers.
pub fn start(state: &mut CtimerState, interval_ns: i64, installed: Result<(), i32>) -> (res: Result<
    (),
    CtimerError,
>)
    ensures
        (*final(state), res) == started(*old(state), interval_ns, installed),
        *final(state) == switched(*old(state), Switch::Start { interval_ns, installed }),
{
    check_interval(interval_ns)?;
    match installed {
        Err(errno) => Err(CtimerError::Os(errno)),
        Ok(_) => {
            state.interval_ns = interval_ns;
            state.permanently_stopped = false;
            state.running = true;
            Ok(())
        },
    }
}

/// Disables sampling process-wide. Reversible with [`enable`]: the timers stay
/// armed and keep firing, but no sample is taken.
pub fn disable(state: &mut CtimerState)
    ensures
        *final(state) == (CtimerState { running: false, ..*old(state) }),
        *final(state) == switched(*old(state), Switch::Disable),
{
    state.running = false;
}

/// Re-enables sampling after [`disable`].
pub fn enable(state: &mut CtimerState)
    ensures
        *final(state) == (CtimerState { running: true, ..*old(state) }),
        *final(state) == switched(*old(state), Switch::Enable),
{
    state.running = true;
}

/// Ends sampling for good: each thread's next tick disarms its timer. Only a new
/// [`start`] samples again.
pub fn disable_permanent(state: &mut CtimerState)
    ensures
        *final(state) == (CtimerState {
            running: false,
            permanently_stopped: true,
            ..*old(state)
        }),
        *final(state) == switched(*old(state), Switch::DisablePermanent),
{
    state.permanently_stopped = true;
    state.running = false;
}

/// Whether sampling is enabled.
pub fn is_running(state: &CtimerState) -> (res: bool)
    ensures
        res == state.running,
{
    state.running
}

/// Whether sampling was ended for good.
pub fn is_permanently_stopped(state: &CtimerState) -> (res: bool)
    ensures
        res == state.permanently_stopped,
{
    state.permanently_stopped
}

/// The sampling interval in nanoseconds.
pub fn interval_ns(state: &CtimerState) -> (res: i64)
    ensures
        res == state.interval_ns,
{
    state.interval_ns
}

/// The calling thread's timer handle, or `None` if it is not registered.
pub fn current_thread_timer_id(thread: &ThreadTimer) -> (res: Option<u64>)
    ensures
        res == thread.timer,
{
    thread.timer
}

/// When a timer first fires and how often after that.
#[derive(Clone, Copy, Debug, PartialEq, Eq, Structural)]
pub struct TimerSpec {
    pub sec: i64,
    /// The part below a second.
    pub nsec: i64,
}

/// Nanoseconds in a second.
pub const NANOS_PER_SEC: i64 = 1_000_000_000;

/// The timer setting for an interval: whole seconds and the rest.
pub open spec fn timer_spec(interval_ns: i64) -> TimerSpec {
    TimerSpec {
        sec: (interval_ns as int / NANOS_PER_SEC as int) as i64,
        nsec: (interval_ns as int % NANOS_PER_SEC as int) as i64,
    }
}

/// What registering the calling thread asks for next.
#[derive(Clone, Copy, Debug, PartialEq, Eq)]
pub enum Registration {
    /// A CPU timer is to be created for the calling thread.
    CreateTimer { interval_ns: i64 },
    /// The timer is to be armed: it fires after this long and then again and
    /// again after as long.
    ArmTimer { timer: u64, spec: TimerSpec },
    /// The timer could not be armed, with this error number, and is to be
    /// deleted.
    DeleteTimer { timer: u64, errno: i32 },
    /// The thread is registered, or is not for this reason.
    Done(Result<(), CtimerError>),
}

/// The first step of registering a thread.
pub open spec fn registration(state: CtimerState, thread: ThreadTimer) -> Registration {
    if !state.running {
        Registration::Done(Err(CtimerError::NotRunning))
    } else if thread.timer is Some {
        Registration::Done(Ok(()))
    } else {
        Registration::CreateTimer { interval_ns: state.interval_ns }
    }
}

/// Starts to register the calling thread. A thread that has a timer keeps it.
pub fn register_thread(state: &CtimerState, thread: &ThreadTimer) -> (res: Registration)
    ensures
        res == registration(*state, *thread),
        res matches Registration::CreateTimer { interval_ns } ==> interval_ns == state.interval_ns,
        res is CreateTimer <==> state.running && thread.timer is None,
{
    if !state.running {
        return Registration::Done(Err(CtimerError::NotRunning));
    }
    if thread.timer.is_some() {
        return Registration::Done(Ok(()));
    }
    Registration::CreateTimer { interval_ns: state.interval_ns }
}

/// What follows the creation of a timer.
pub open spec fn after_creation(interval_ns: i64, created: Result<u64, i32>) -> Registration {
    match created {
        Ok(timer) => Registration::ArmTimer { timer, spec: timer_spec(interval_ns) },
        Err(errno) => Registration::Done(Err(CtimerError::Os(errno))),
    }
}

/// The timer was created, or not.
pub fn timer_created(interval_ns: i64, created: Result<u64, i32>) -> (res: Registration)
    requires
        interval_ns >= 0,
    ensures
        res == after_creation(interval_ns, created),
        res is ArmTimer <==> created is Ok,
        res matches Registration::ArmTimer { timer, spec } ==> created == Ok::<u64, i32>(timer)
            && spec.sec * 1_000_000_000 + spec.nsec == interval_ns && 0 <= spec.nsec
            < 1_000_000_000,
{
    match created {
        Ok(timer) => {
            let spec = TimerSpec {
                sec: interval_ns / NANOS_PER_SEC,
                nsec: interval_ns % NANOS_PER_SEC,
            };
            Registration::ArmTimer { timer, spec }
        },
        Err(errno) => Registration::Done(Err(CtimerError::Os(errno))),
    }
}

/// The thread and what follows the arming of its timer.
pub open spec fn after_arming(
    thread: ThreadTimer,
    timer: u64,
    armed: Result<(), i32>,
) -> (ThreadTimer, Registration) {
    match armed {
        Ok(_) => (ThreadTimer { timer: Some(timer) }, Registration::Done(Ok(()))),
        Err(errno) => (thread, Registration::DeleteTimer { timer, errno }),
    }
}

/// The timer was armed and becomes the thread's own; or it was not.
pub fn timer_armed(thread: &mut ThreadTimer, timer: u64, armed: Result<(), i32>) -> (res:
    Registration)
    ensures
        (*final(thread), res) == after_arming(*old(thread), timer, armed),
{
    match armed {
        Ok(_) => {
            thread.timer = Some(timer);
            Registration::Done(Ok(()))
        },
        Err(errno) => Registration::DeleteTimer { timer, errno },
    }
}

/// The timer that could not be armed was deleted, or not: either way the thread
/// is not registered, for the reason that the arming failed.
pub fn timer_deleted(errno: i32) -> (res: Registration)
    ensures
        res == Registration::Done(Err(CtimerError::Os(errno))),
{
    Registration::Done(Err(CtimerError::Os(errno)))
}

/// What unregistering the calling thread asks for next.
#[derive(Clone, Copy, Debug, PartialEq, Eq, Structural)]
pub enum Unregistration {
    /// The thread has no timer: nothing is to be done.
    Nothing,
    /// The timer is to be set to this, upon which it fires no more.
    DisarmTimer { timer: u64, spec: TimerSpec },
    /// The timer is to be deleted. With this the thread is done with, whether or
    /// not the deletion succeeds.
    DeleteTimer { timer: u64 },
}

/// The setting of a timer that does not fire: all zero.
pub open spec fn disarmed_spec() -> TimerSpec {
    TimerSpec { sec: 0, nsec: 0 }
}

/// What unregistering a thread asks for first.
pub open spec fn unregistration(thread: ThreadTimer) -> Unregistration {
    match thread.timer {
        Some(timer) => Unregistration::DisarmTimer { timer, spec: disarmed_spec() },
        None => Unregistration::Nothing,
    }
}

/// Unregisters the calling thread. A thread without a timer is left alone.
pub fn unregister_thread(thread: &mut ThreadTimer) -> (res: Unregistration)
    ensures
        res == unregistration(*old(thread)),
        final(thread).timer is None,
{
    match thread.timer {
        Some(timer) => {
            thread.timer = None;
            Unregistration::DisarmTimer { timer, spec: TimerSpec { sec: 0, nsec: 0 } }
        },
        None => Unregistration::Nothing,
    }
}

/// What follows the attempt to disarm a timer: its deletion, whatever came of it.
pub open spec fn after_disarming(timer: u64, disarmed: Result<(), i32>) -> Unregistration {
    Unregistration::DeleteTimer { timer }
}

/// The timer was disarmed, or not: either way it is deleted.
pub fn timer_disarmed(timer: u64, disarmed: Result<(), i32>) -> (res: Unregistration)
    ensures
        res == after_disarming(timer, disarmed),
{
    let _ = disarmed;
    Unregistration::DeleteTimer { timer }
}

/// The timer setting stands for the interval exactly, and its nanoseconds stay
/// below a second, as the system demands.
pub proof fn law_timer_spec_is_interval(interval_ns: i64)
    requires
        interval_ns >= 0,
    ensures
        timer_spec(interval_ns).sec * 1_000_000_000 + timer_spec(interval_ns).nsec == interval_ns,
        0 <= timer_spec(interval_ns).nsec < 1_000_000_000,
        timer_spec(interval_ns).sec >= 0,
{
}

/// A call that switches sampling.
pub enum Switch {
    Enable,
    Disable,
    DisablePermanent,
    Start { interval_ns: i64, installed: Result<(), i32> },
}

/// The state after a call.
pub open spec fn switched(state: CtimerState, switch: Switch) -> CtimerState {
    match switch {
        Switch::Enable => CtimerState { running: true, ..state },
        Switch::Disable => CtimerState { running: false, ..state },
        Switch::DisablePermanent => CtimerState {
            running: false,
            permanently_stopped: true,
            ..state
        },
        Switch::Start { interval_ns, installed } => started(state, interval_ns, installed).0,
    }
}

/// The state after a series of calls.
pub open spec fn switched_all(state: CtimerState, switches: Seq<Switch>) -> CtimerState
    decreases switches.len(),
{
    if switches.len() == 0 {
        state
    } else {
        switched(switched_all(state, switches.drop_last()), switches.last())
    }
}

/// A pause is reversible: enabling after disabling restores the state of timers
/// that were running.
pub proof fn law_pause_is_reversible(state: CtimerState)
    requires
        state.running,
    ensures
        switched(switched(state, Switch::Disable), Switch::Enable) == state,
        !switched(state, Switch::Disable).samples(),
{
}

/// The call is a start that succeeds.
pub open spec fn is_successful_start(switch: Switch) -> bool {
    match switch {
        Switch::Start { interval_ns, installed } => valid_interval(interval_ns) && installed is Ok,
        _ => false,
    }
}

/// Ending for good is not reversible: without a new start that succeeds, no series
/// of calls makes a tick take a sample again.
pub proof fn law_permanent_stop_needs_start(state: CtimerState, switches: Seq<Switch>)
    requires
        forall|i: int| 0 <= i < switches.len() ==> !is_successful_start(#[trigger] switches[i]),
    ensures
        ({
            let stopped = switched(state, Switch::DisablePermanent);
            &&& switched_all(stopped, switches).permanently_stopped
            &&& !switched_all(stopped, switches).samples()
        }),
    decreases switches.len(),
{
    if switches.len() > 0 {
        let front = switches.drop_last();
        assert forall|i: int| 0 <= i < front.len() implies !is_successful_start(
            #[trigger] front[i],
        ) by {
            assert(front[i] == switches[i]);
        }
        law_permanent_stop_needs_start(state, front);
        assert(!is_successful_start(switches[switches.len() - 1]));
    }
}

/// A start that succeeds samples at its interval, whatever the state before; one
/// that fails changes nothing.
pub proof fn law_start_samples_or_changes_nothing(
    state: CtimerState,
    interval_ns: i64,
    installed: Result<(), i32>,
)
    ensures
        ({
            let (after, result) = started(state, interval_ns, installed);
            &&& result is Ok <==> interval_ns > 0 && installed is Ok
            &&& result is Ok ==> after.samples() && after.interval_ns == interval_ns
            &&& result is Err ==> after == state
        }),
{
}

/// The interval is positive once a start has succeeded, whatever else was called,
/// and zero before.
pub proof fn law_interval_stays_valid(switches: Seq<Switch>)
    ensures
        ({
            let first = CtimerState { interval_ns: 0, running: false, permanently_stopped: false };
            let interval_ns = switched_all(first, switches).interval_ns;
            let was_started = exists|i: int|
                0 <= i < switches.len() && is_successful_start(#[trigger] switches[i]);
            &&& was_started ==> valid_interval(interval_ns)
            &&& !was_started ==> interval_ns == 0
        }),
    decreases switches.len(),
{
    if switches.len() > 0 {
        let front = switches.drop_last();
        law_interval_stays_valid(front);
        let last = switches.len() - 1;
        if !is_successful_start(switches[last]) {
            assert forall|i: int|
                0 <= i < switches.len() && is_successful_start(#[trigger] switches[i]) implies 0
                <= i < front.len() && is_successful_start(front[i]) by {
                assert(i != last);
            }
            assert forall|i: int|
                0 <= i < front.len() && is_successful_start(#[trigger] front[i]) implies 0 <= i
                < switches.len() && is_successful_start(switches[i]) by {}
        }
    }
}

/// How a registration ended: the thread after it, its result, and the timers that
/// were created and deleted for it.
pub struct Registered {
    pub thread: ThreadTimer,
    pub result: Result<(), CtimerError>,
    pub created: Option<u64>,
    pub deleted: Option<u64>,
}

/// A whole registration, given what the system makes of each request.
pub open spec fn registered(
    state: CtimerState,
    thread: ThreadTimer,
    creation: Result<u64, i32>,
    arming: Result<(), i32>,
) -> Registered {
    match registration(state, thread) {
        Registration::Done(result) => Registered { thread, result, created: None, deleted: None },
        Registration::CreateTimer { interval_ns } => match after_creation(interval_ns, creation) {
            Registration::ArmTimer { timer, spec } => match after_arming(thread, timer, arming) {
                (after, Registration::Done(result)) => Registered {
                    thread: after,
                    result,
                    created: Some(timer),
                    deleted: None,
                },
                (after, Registration::DeleteTimer { timer: unarmed, errno }) => Registered {
                    thread: after,
                    result: Err(CtimerError::Os(errno)),
                    created: Some(timer),
                    deleted: Some(unarmed),
                },
                _ => arbitrary(),
            },
            Registration::Done(result) => Registered {
                thread,
                result,
                created: None,
                deleted: None,
            },
            _ => arbitrary(),
        },
        _ => arbitrary(),
    }
}

/// No timer is lost: one that is created for a registration is the thread's own
/// afterwards or has been deleted. A registration that succeeds leaves the thread
/// with a timer, one that fails leaves it as it was, and a thread that has a
/// timer gets no other.
pub proof fn law_registration_loses_no_timer(
    state: CtimerState,
    thread: ThreadTimer,
    creation: Result<u64, i32>,
    arming: Result<(), i32>,
)
    ensures
        ({
            let end = registered(state, thread, creation, arming);
            &&& end.created matches Some(timer) ==> end.thread.timer == Some(timer)
                || end.deleted == Some(timer)
            &&& end.result is Ok ==> end.thread.timer is Some && end.deleted is None
            &&& end.result is Err ==> end.thread == thread
            &&& thread.timer is Some ==> end.thread == thread && end.created is None
            &&& !state.running ==> end.result == Err::<(), CtimerError>(CtimerError::NotRunning)
        }),
{
}

/// All that unregistering a thread asks for, given what the system makes of the
/// disarming.
pub open spec fn unregistration_requests(
    thread: ThreadTimer,
    disarming: Result<(), i32>,
) -> Seq<Unregistration> {
    match unregistration(thread) {
        Unregistration::DisarmTimer { timer, spec } => seq![
            Unregistration::DisarmTimer { timer, spec },
            after_disarming(timer, disarming),
        ],
        _ => seq![],
    }
}

/// Unregistering undoes registering: the timer that a registration gave the
/// thread is disarmed and then deleted, also where the disarming failed.
pub proof fn law_unregistering_deletes_registered_timer(
    state: CtimerState,
    thread: ThreadTimer,
    timer: u64,
    disarming: Result<(), i32>,
)
    requires
        state.running,
        thread.timer is None,
    ensures
        unregistration_requests(registered(state, thread, Ok(timer), Ok(())).thread, disarming)
            == seq![
            Unregistration::DisarmTimer { timer, spec: TimerSpec { sec: 0, nsec: 0 } },
            Unregistration::DeleteTimer { timer },
        ],
{
}

/// A thread is sampled at the interval that was started: registering one without a
/// timer, any time after a start that succeeded while sampling is enabled, asks for
/// a timer of exactly that interval, and the setting that the timer is armed with
/// amounts to it, whole seconds and less than a second of nanoseconds.
pub proof fn law_registered_timer_has_started_interval(
    before: CtimerState,
    interval_ns: i64,
    thread: ThreadTimer,
    timer: u64,
)
    requires
        interval_ns > 0,
        thread.timer is None,
    ensures
        ({
            let (state, result) = started(before, interval_ns, Ok(()));
            let asked = registration(state, thread);
            let armed = after_creation(asked->CreateTimer_interval_ns, Ok(timer));
            &&& result is Ok
            &&& asked is CreateTimer
            &&& asked->CreateTimer_interval_ns == interval_ns
            &&& armed is ArmTimer
            &&& armed->ArmTimer_timer == timer
            &&& armed->spec.sec * 1_000_000_000 + armed->spec.nsec == interval_ns
            &&& 0 <= armed->spec.nsec < 1_000_000_000
        }),
        ({
            let (state, _) = started(before, interval_ns, Ok(()));
            let paused = switched(switched(state, Switch::Disable), Switch::Enable);
            registration(paused, thread) == registration(state, thread)
        }),
{
}

/// A thread is registered only while sampling is enabled, and one that has a timer
/// keeps it. The interval that is asked for is the state's own, whatever it is.
pub proof fn law_registration_request(state: CtimerState, thread: ThreadTimer)
    ensures
        !state.running ==> registration(state, thread) == Registration::Done(
            Err(CtimerError::NotRunning),
        ),
        state.running && thread.timer is Some ==> registration(state, thread)
            == Registration::Done(Ok(())),
        state.running && thread.timer is None ==> registration(state, thread)
            is CreateTimer && registration(state, thread)->CreateTimer_interval_ns
            == state.interval_ns,
{
}

/// A refusal of the system ends the registration with the system's error number; a
/// timer that could not be armed is deleted first, and the one that could be becomes
/// the thread's.
pub proof fn law_system_errors_are_passed_on(
    thread: ThreadTimer,
    interval_ns: i64,
    timer: u64,
    errno: i32,
)
    ensures
        after_creation(interval_ns, Err(errno)) == Registration::Done(Err(CtimerError::Os(errno))),
        after_arming(thread, timer, Ok(())).0.timer == Some(timer),
        after_arming(thread, timer, Ok(())).1 == Registration::Done(Ok(())),
        after_arming(thread, timer, Err(errno)).0 == thread,
        after_arming(thread, timer, Err(errno)).1 == (Registration::DeleteTimer { timer, errno }),
{
}

/// A start takes every positive interval and no other. A failure says what was
/// wrong, the interval first, and leaves the state as it was.
pub proof fn law_start_outcome(state: CtimerState, interval_ns: i64, errno: i32)
    ensures
        valid_interval(interval_ns) <==> interval_ns > 0,
        interval_ns > 0 ==> started(state, interval_ns, Ok(())).1 == Ok::<(), CtimerError>(()),
        interval_ns > 0 ==> started(state, interval_ns, Ok(())).0.interval_ns == interval_ns,
        interval_ns > 0 ==> started(state, interval_ns, Ok(())).0.running,
        interval_ns > 0 ==> !started(state, interval_ns, Ok(())).0.permanently_stopped,
        interval_ns > 0 ==> started(state, interval_ns, Err(errno)) == (
            state,
            Err::<(), CtimerError>(CtimerError::Os(errno)),
        ),
        interval_ns <= 0 ==> started(state, interval_ns, Ok(())) == (
            state,
            Err::<(), CtimerError>(CtimerError::InvalidInterval),
        ),
        interval_ns <= 0 ==> started(state, interval_ns, Err(errno)) == (
            state,
            Err::<(), CtimerError>(CtimerError::InvalidInterval),
        ),
{
}

/// Unregistering asks for the thread's own timer to be set to zero and then deleted,
/// and for nothing where there is none.
pub proof fn law_unregistration_request(timer: u64, disarmed: Result<(), i32>)
    ensures
        unregistration(ThreadTimer { timer: None }) == Unregistration::Nothing,
        unregistration(ThreadTimer { timer: Some(timer) }) is DisarmTimer,
        unregistration(ThreadTimer { timer: Some(timer) })->DisarmTimer_timer == timer,
        unregistration(ThreadTimer { timer: Some(timer) })->spec.sec == 0,
        unregistration(ThreadTimer { timer: Some(timer) })->spec.nsec == 0,
        after_disarming(timer, disarmed) == (Unregistration::DeleteTimer { timer }),
{
}

/// The module has words for its own two errors and leaves the system's to the system.
pub proof fn law_own_errors_have_messages(errno: i32)
    ensures
        error_message(CtimerError::InvalidInterval) == Some("interval must be positive"@),
        error_message(CtimerError::NotRunning) == Some("ctimer is not running (call start first)"@),
        error_message(CtimerError::Os(errno)) is None,
{
}

/// Pausing, resuming and ending keep the interval. A pause leaves it open whether
/// sampling was ended, as does resuming; ending also pauses.
pub proof fn law_switches_keep_interval(state: CtimerState)
    ensures
        ({
            let paused = switched(state, Switch::Disable);
            &&& !paused.running
            &&& paused.interval_ns == state.interval_ns
            &&& paused.permanently_stopped == state.permanently_stopped
        }),
        ({
            let resumed = switched(state, Switch::Enable);
            &&& resumed.running
            &&& resumed.interval_ns == state.interval_ns
            &&& resumed.permanently_stopped == state.permanently_stopped
        }),
        ({
            let over = switched(state, Switch::DisablePermanent);
            &&& !over.running
            &&& over.interval_ns == state.interval_ns
            &&& over.permanently_stopped
        }),
        state.samples() <==> state.running && !state.permanently_stopped,
{
}

} // verus!
