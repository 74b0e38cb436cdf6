//! Per-thread CPU timers.

use dial9::ctimer::{
    check_interval, current_thread_timer_id, disable, disable_permanent, enable, interval_ns,
    is_permanently_stopped, is_running, register_thread, start, timer_armed, timer_created,
    timer_deleted, timer_disarmed, unregister_thread, CtimerError, CtimerState, Registration, ThreadTimer,
    TimerSpec, Unregistration,
};

fn running(interval: i64) -> CtimerState {
    let mut state = CtimerState::new();
    start(&mut state, interval, Ok(())).unwrap();
    state
}

#[test]
fn start_rejects_zero_interval() {
    let mut state = CtimerState::new();
    let err = start(&mut state, 0, Ok(())).unwrap_err();
    assert_eq!(err, CtimerError::InvalidInterval);
    assert_eq!(state, CtimerState::new());
}

#[test]
fn start_rejects_negative_interval() {
    let mut state = CtimerState::new();
    let err = start(&mut state, -1, Ok(())).unwrap_err();
    assert_eq!(err, CtimerError::InvalidInterval);
    assert_eq!(err.message(), Some("interval must be positive"));
}

#[test]
fn register_thread_fails_when_not_running() {
    let mut state = running(1000);
    disable(&mut state);
    match register_thread(&state, &ThreadTimer { timer: None }) {
        Registration::Done(Err(err)) => {
            assert_eq!(err, CtimerError::NotRunning);
            assert!(err.message().unwrap().contains("not running"));
        }
        _ => panic!("the thread is not registered"),
    }
}

#[test]
fn unregister_thread_is_safe_when_not_registered() {
    let mut thread = ThreadTimer { timer: None };
    assert_eq!(unregister_thread(&mut thread), Unregistration::Nothing);
    assert!(current_thread_timer_id(&thread).is_none());
}

#[test]
fn start_keeps_the_interval_and_runs() {
    let state = running(1_010_101);
    assert!(is_running(&state));
    assert!(!is_permanently_stopped(&state));
    assert_eq!(interval_ns(&state), 1_010_101);
    assert_eq!(check_interval(1), Ok(()));
    assert_eq!(check_interval(0), Err(CtimerError::InvalidInterval));
}

#[test]
fn start_without_a_handler_changes_nothing() {
    let mut state = CtimerState::new();
    assert_eq!(start(&mut state, 5, Err(22)), Err(CtimerError::Os(22)));
    assert_eq!(state, CtimerState::new());
    assert_eq!(CtimerError::Os(22).message(), None);
}

#[test]
fn pause_is_reversible_and_teardown_is_not() {
    let mut state = running(1000);
    let before = state;
    disable(&mut state);
    assert!(!is_running(&state));
    enable(&mut state);
    assert_eq!(state, before);
    disable_permanent(&mut state);
    assert!(!is_running(&state));
    assert!(is_permanently_stopped(&state));
    enable(&mut state);
    assert!(is_permanently_stopped(&state));
    assert!(start(&mut state, 0, Ok(())).is_err());
    assert!(start(&mut state, 7, Err(22)).is_err());
    assert!(is_permanently_stopped(&state));
    start(&mut state, 7, Ok(())).unwrap();
    assert!(!is_permanently_stopped(&state));
    assert_eq!(interval_ns(&state), 7);
}

#[test]
fn registered_thread_gets_its_timer_back_on_exit() {
    let state = running(2_500_000_000);
    let mut thread = ThreadTimer { timer: None };
    let interval = match register_thread(&state, &thread) {
        Registration::CreateTimer { interval_ns } => interval_ns,
        _ => panic!("a timer is to be created"),
    };
    assert_eq!(interval, 2_500_000_000);
    let armed = timer_created(interval, Ok(77));
    let spec = TimerSpec { sec: 2, nsec: 500_000_000 };
    assert_eq!(armed, Registration::ArmTimer { timer: 77, spec });
    assert_eq!(timer_armed(&mut thread, 77, Ok(())), Registration::Done(Ok(())));
    assert_eq!(current_thread_timer_id(&thread), Some(77));
    assert_eq!(register_thread(&state, &thread), Registration::Done(Ok(())));
    let zero = TimerSpec { sec: 0, nsec: 0 };
    assert_eq!(
        unregister_thread(&mut thread),
        Unregistration::DisarmTimer { timer: 77, spec: zero }
    );
    assert_eq!(timer_disarmed(77, Ok(())), Unregistration::DeleteTimer { timer: 77 });
    assert_eq!(timer_disarmed(77, Err(22)), Unregistration::DeleteTimer { timer: 77 });
    assert_eq!(current_thread_timer_id(&thread), None);
}

#[test]
fn timer_that_cannot_be_armed_is_deleted() {
    let mut thread = ThreadTimer { timer: None };
    assert_eq!(
        timer_armed(&mut thread, 77, Err(22)),
        Registration::DeleteTimer { timer: 77, errno: 22 }
    );
    assert_eq!(thread.timer, None);
    assert_eq!(timer_deleted(22), Registration::Done(Err(CtimerError::Os(22))));
}

#[test]
fn timer_that_cannot_be_created_is_reported() {
    assert_eq!(timer_created(1000, Err(11)), Registration::Done(Err(CtimerError::Os(11))));
}

#[test]
fn short_intervals_have_no_whole_seconds() {
    let spec = TimerSpec { sec: 0, nsec: 999_999_999 };
    assert_eq!(timer_created(999_999_999, Ok(1)), Registration::ArmTimer { timer: 1, spec });
    let spec = TimerSpec { sec: 1, nsec: 0 };
    assert_eq!(timer_created(1_000_000_000, Ok(1)), Registration::ArmTimer { timer: 1, spec });
}
