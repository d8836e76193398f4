use dpdk::lcore::{
    decode, launch_decision, poll_decision, Builder, LcoreError, Poll, Slot, State, StateCell, CPU_SETSIZE,
};
use dpdk::thread::{stack_size, DEFAULT_MIN_STACK_SIZE};

/// Drives one launch/wait round trip through the shared cells, playing the
/// worker's part in between.
fn round_trip(
    state: &StateCell,
    task: &mut Slot<Box<dyn FnOnce() -> String>>,
    result: &mut Slot<String>,
    f: Box<dyn FnOnce() -> String>,
) -> Result<String, LcoreError> {
    state.try_launch()?;
    assert!(task.put(f).is_ok());
    // worker
    state.mark_running();
    let job = task.take().unwrap();
    assert!(result.put(job()).is_ok());
    state.mark_finished();
    // controller
    loop {
        match state.poll()? {
            Poll::Pending => continue,
            Poll::Ready => return Ok(result.take().unwrap()),
        }
    }
}

#[test]
fn lcore_round_trip_returns_result() {
    let state = StateCell::new();
    let mut task: Slot<Box<dyn FnOnce() -> String>> = Slot::new();
    let mut result: Slot<String> = Slot::new();
    let r = round_trip(&state, &mut task, &mut result, Box::new(|| "result".into()));
    assert_eq!(r, Ok("result".to_string()));
    assert_eq!(state.load(), State::Wait);
    assert!(task.is_empty());
    assert!(result.is_empty());
}

#[test]
fn lcore_busy_while_task_in_flight() {
    let state = StateCell::new();
    assert_eq!(state.try_launch(), Ok(()));
    state.mark_running();
    assert_eq!(state.try_launch(), Err(LcoreError::Busy));
    assert_eq!(state.poll(), Ok(Poll::Pending));
    state.mark_finished();
    assert_eq!(state.try_launch(), Err(LcoreError::Busy));
    assert_eq!(state.poll(), Ok(Poll::Ready));
    assert_eq!(state.try_launch(), Ok(()));
}

#[test]
fn lcore_wait_without_launch_is_not_started() {
    let state = StateCell::default();
    assert_eq!(state.poll(), Err(LcoreError::NotStarted));
    assert_eq!(state.load(), State::Wait);
}

#[test]
fn lcore_serves_many_round_trips() {
    let state = StateCell::new();
    let mut task: Slot<Box<dyn FnOnce() -> String>> = Slot::new();
    let mut result: Slot<String> = Slot::new();
    for i in 0..1000 {
        let r = round_trip(&state, &mut task, &mut result, Box::new(move || format!("n{}", i)));
        assert_eq!(r, Ok(format!("n{}", i)));
        assert_eq!(state.load(), State::Wait);
    }
}

#[test]
fn decisions_follow_the_state_codes() {
    assert_eq!(State::Wait.code(), 0);
    assert_eq!(State::Running.code(), 1);
    assert_eq!(State::Finished.code(), 2);
    assert_eq!(launch_decision(0), Ok(()));
    assert_eq!(launch_decision(1), Err(LcoreError::Busy));
    assert_eq!(launch_decision(2), Err(LcoreError::Busy));
    assert_eq!(poll_decision(0), Err(LcoreError::NotStarted));
    assert_eq!(poll_decision(1), Ok(Poll::Pending));
    assert_eq!(poll_decision(2), Ok(Poll::Ready));
}

#[test]
fn slot_holds_one_value() {
    let mut s: Slot<u32> = Slot::new();
    assert!(s.is_empty());
    assert_eq!(s.put(1), Ok(()));
    assert_eq!(s.put(2), Err(2));
    assert_eq!(s.take(), Some(1));
    assert_eq!(s.take(), None);
    assert_eq!(s.put(3), Ok(()));
    assert_eq!(s.take(), Some(3));
}

#[test]
fn lcore_failed_task_then_next_launch() {
    let state = StateCell::new();
    let mut result: Slot<Result<String, String>> = Slot::new();
    // a task that failed: the worker stores the failure as the outcome
    assert_eq!(state.try_launch(), Ok(()));
    state.mark_running();
    assert!(result.put(Err("x".to_string())).is_ok());
    state.mark_finished();
    assert_eq!(state.poll(), Ok(Poll::Ready));
    assert_eq!(result.take(), Some(Err("x".to_string())));
    // the same cells serve the next task
    assert_eq!(state.try_launch(), Ok(()));
    state.mark_running();
    assert!(result.put(Ok("again".to_string())).is_ok());
    state.mark_finished();
    assert_eq!(state.poll(), Ok(Poll::Ready));
    assert_eq!(result.take(), Some(Ok("again".to_string())));
}

#[test]
fn builder_keeps_name_and_cpus() {
    let (name, cpus) = Builder::new().name("lcore255".to_string()).affinity(&[1, 3, 3, 5000]).into_parts();
    assert_eq!(name, Some("lcore255".to_string()));
    let cpus = cpus.unwrap();
    assert_eq!(cpus.len(), CPU_SETSIZE);
    for (c, on) in cpus.iter().enumerate() {
        assert_eq!(*on, c == 1 || c == 3);
    }
}

#[test]
fn builder_affinity_replaces_earlier_set() {
    let (name, cpus) = Builder::default().affinity(&[0]).affinity(&[]).into_parts();
    assert_eq!(name, None);
    assert!(cpus.unwrap().iter().all(|on| !*on));
    let (name, cpus) = Builder::new().into_parts();
    assert!(name.is_none() && cpus.is_none());
}

#[test]
fn stack_size_has_a_floor() {
    assert_eq!(stack_size(0), DEFAULT_MIN_STACK_SIZE);
    assert_eq!(stack_size(4096), 2 * 1024 * 1024);
    assert_eq!(stack_size(DEFAULT_MIN_STACK_SIZE), DEFAULT_MIN_STACK_SIZE);
    assert_eq!(stack_size(8 * 1024 * 1024), 8 * 1024 * 1024);
}

#[test]
fn decode_reads_codes() {
    assert_eq!(decode(0), State::Wait);
    assert_eq!(decode(1), State::Running);
    assert_eq!(decode(2), State::Finished);
    assert_eq!(decode(7), State::Finished);
}
