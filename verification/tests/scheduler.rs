use ai_core::codec::{KvSerde, StoreError};
use ai_core::job::{Action, JobSpec, JobState, LegacySpec};
use ai_core::jobs::upsert_job;
use ai_core::keys::{registry_key, spec_key, state_key};
use ai_core::runner::{conclude, execute, Execution, ExecutionError, ProcessExit};
use ai_core::scheduler::{
    is_due, millis_since_epoch, next_state, Dispatch, Permits, Scheduler, DEFAULT_MAX_BACKOFF_MS,
};
use ai_core::store::{Kv, MemKv};

fn state(last_run_ms: u64, backoff_ms: u64) -> JobState {
    JobState { last_run_ms, runs: 0, failures: 0, backoff_ms }
}

fn noop(period_ms: u64) -> JobSpec {
    JobSpec { period_ms, action: Action::Noop }
}

fn kept_state(kv: &MemKv, id: &str) -> Option<JobState> {
    kv.get_t::<JobState>(&state_key(id)).unwrap()
}

struct Lossy {
    inner: MemKv,
}

impl Kv for Lossy {
    fn get(&self, key: &[u8]) -> Option<Vec<u8>> {
        self.inner.get(key)
    }

    fn put(&mut self, _key: &[u8], _val: &[u8]) -> Result<(), StoreError> {
        Err(StoreError::Io)
    }

    fn delete(&mut self, key: &[u8]) -> bool {
        self.inner.delete(key)
    }
}

#[test]
fn a_new_scheduler_caps_backoff_at_a_minute() {
    let s = Scheduler::new(250, 4);
    assert_eq!(s.tick_ms(), 250);
    assert_eq!(s.max_concurrency(), 4);
    assert_eq!(s.max_backoff_ms(), 60_000);
    assert_eq!(DEFAULT_MAX_BACKOFF_MS, 60_000);
    let p = s.permits();
    assert_eq!(p.free(), 4);
    assert_eq!(p.running(), 0);
}

#[test]
fn due_when_the_period_has_passed() {
    assert!(!is_due(&state(1000, 0), 100, 1099));
    assert!(is_due(&state(1000, 0), 100, 1100));
    assert!(is_due(&state(1000, 0), 100, 5000));
    assert!(is_due(&state(0, 0), 0, 0));
    assert!(!is_due(&state(0, 0), 100, 99));
}

#[test]
fn backoff_replaces_the_period_while_it_is_active() {
    assert!(!is_due(&state(1000, 400), 100, 1399));
    assert!(is_due(&state(1000, 400), 100, 1400));
    assert!(!is_due(&state(1000, 50), 100, 1049));
    assert!(is_due(&state(1000, 50), 100, 1050));
}

#[test]
fn a_clock_that_moved_backward_never_makes_a_job_due() {
    assert!(!is_due(&state(1000, 0), 100, 500));
    assert!(!is_due(&state(u64::MAX, 0), 1, 0));
    assert!(is_due(&state(1000, 0), 0, 500));
}

#[test]
fn success_counts_a_run_and_clears_failures_and_backoff() {
    let before = JobState { last_run_ms: 5, runs: 7, failures: 3, backoff_ms: 800 };
    assert_eq!(
        next_state(&before, 100, 60_000, true, 999),
        JobState { last_run_ms: 999, runs: 8, failures: 0, backoff_ms: 0 }
    );
}

#[test]
fn failure_doubles_the_larger_of_backoff_and_period() {
    let fresh = JobState { last_run_ms: 5, runs: 7, failures: 0, backoff_ms: 0 };
    let one = next_state(&fresh, 100, 60_000, false, 10);
    assert_eq!(one, JobState { last_run_ms: 10, runs: 7, failures: 1, backoff_ms: 200 });
    let two = next_state(&one, 100, 60_000, false, 20);
    assert_eq!(two, JobState { last_run_ms: 20, runs: 7, failures: 2, backoff_ms: 400 });
    let small = JobState { last_run_ms: 0, runs: 0, failures: 1, backoff_ms: 30 };
    assert_eq!(next_state(&small, 100, 60_000, false, 1).backoff_ms, 200);
}

#[test]
fn backoff_stops_at_the_ceiling() {
    let near = JobState { last_run_ms: 0, runs: 0, failures: 9, backoff_ms: 40_000 };
    assert_eq!(next_state(&near, 100, 60_000, false, 1).backoff_ms, 60_000);
    let at = JobState { last_run_ms: 0, runs: 0, failures: 9, backoff_ms: 60_000 };
    assert_eq!(next_state(&at, 100, 60_000, false, 1).backoff_ms, 60_000);
    assert_eq!(next_state(&at, 100_000, 60_000, false, 1).backoff_ms, 60_000);
    assert_eq!(next_state(&at, 100, 0, false, 1).backoff_ms, 0);
}

#[test]
fn backoff_never_decreases_across_consecutive_failures() {
    for period in [0u64, 1, 100, 50_000, u64::MAX] {
        for cap in [0u64, 1, 60_000, u64::MAX] {
            let mut st = JobState::default();
            let mut last = None;
            for i in 0..70 {
                st = next_state(&st, period, cap, false, i);
                assert!(st.backoff_ms <= cap);
                if let Some(prev) = last {
                    assert!(st.backoff_ms >= prev);
                }
                last = Some(st.backoff_ms);
            }
        }
    }
}

#[test]
fn counters_clamp_instead_of_wrapping() {
    let full = JobState { last_run_ms: 0, runs: u64::MAX, failures: u64::MAX, backoff_ms: u64::MAX };
    assert_eq!(next_state(&full, 1, u64::MAX, true, 1).runs, u64::MAX);
    let failed = next_state(&full, 1, u64::MAX, false, 1);
    assert_eq!(failed.failures, u64::MAX);
    assert_eq!(failed.backoff_ms, u64::MAX);
    let half = JobState { last_run_ms: 0, runs: 0, failures: 0, backoff_ms: u64::MAX / 2 + 1 };
    assert_eq!(next_state(&half, 1, u64::MAX, false, 1).backoff_ms, u64::MAX);
    let below = JobState { last_run_ms: 0, runs: 0, failures: 0, backoff_ms: u64::MAX / 2 };
    assert_eq!(next_state(&below, 1, u64::MAX, false, 1).backoff_ms, u64::MAX - 1);
}

#[test]
fn permits_never_exceed_the_capacity() {
    let mut p = Permits::new(2);
    assert!(p.try_acquire());
    assert!(p.try_acquire());
    assert!(!p.try_acquire());
    assert_eq!(p.running(), 2);
    assert_eq!(p.free(), 0);
    p.release();
    assert_eq!(p.free(), 1);
    assert!(p.try_acquire());
    p.release();
    p.release();
    p.release();
    assert_eq!(p.running(), 0);
    assert_eq!(p.free(), 2);
    let mut none = Permits::new(0);
    assert!(!none.try_acquire());
}

#[test]
fn two_ticks_150_ms_apart_run_the_job_once() {
    let mut kv = MemKv::new();
    upsert_job(&mut kv, "x", noop(100)).unwrap();
    let sched = Scheduler::new(150, 2);
    let mut permits = sched.permits();
    let mut runs = 0;
    for now in [0u64, 150] {
        let tick = sched.tick(&kv, now, &mut permits);
        assert_eq!(tick.fault, None);
        for job in tick.dispatched {
            let outcome = match execute(&job.spec.action, &mut kv) {
                Execution::Finished(r) => r,
                Execution::Spawn(_) => unreachable!(),
            };
            assert_eq!(outcome, Ok(()));
            sched.complete(&mut kv, &job, &outcome, now, &mut permits);
            runs += 1;
        }
    }
    assert_eq!(runs, 1);
    assert_eq!(
        kept_state(&kv, "x"),
        Some(JobState { last_run_ms: 150, runs: 1, failures: 0, backoff_ms: 0 })
    );
    assert_eq!(permits.running(), 0);
}

#[test]
fn a_failing_command_counts_a_failure_and_doubles_the_period() {
    let mut kv = MemKv::new();
    let spec = JobSpec {
        period_ms: 100,
        action: Action::Exec { cmd: "false".to_string(), args: vec![], timeout_ms: None },
    };
    upsert_job(&mut kv, "y", spec).unwrap();
    let sched = Scheduler::new(250, 2);
    let mut permits = sched.permits();
    let tick = sched.tick(&kv, 1000, &mut permits);
    assert_eq!(tick.dispatched.len(), 1);
    let job = &tick.dispatched[0];
    let request = match execute(&job.spec.action, &mut kv) {
        Execution::Spawn(c) => c,
        Execution::Finished(_) => unreachable!(),
    };
    assert_eq!(request.cmd, "false");
    let outcome = conclude(ProcessExit::Exited { success: false, code: Some(1) });
    assert_eq!(outcome, Err(ExecutionError::NonZeroExit(Some(1))));
    let done = sched.complete(&mut kv, job, &outcome, 1001, &mut permits);
    assert_eq!(done.stored, Ok(()));
    let next = done.state;
    assert_eq!(next, JobState { last_run_ms: 1001, runs: 0, failures: 1, backoff_ms: 200 });
    assert_eq!(kept_state(&kv, "y"), Some(next));
    let again = sched.tick(&kv, 1200, &mut permits);
    assert_eq!(again.dispatched.len(), 0);
    let later = sched.tick(&kv, 1201, &mut permits);
    assert_eq!(later.dispatched.len(), 1);
}

#[test]
fn a_long_period_backs_off_to_the_ceiling() {
    let mut kv = MemKv::new();
    upsert_job(&mut kv, "slow", noop(45_000)).unwrap();
    let sched = Scheduler::new(250, 1);
    let mut permits = sched.permits();
    let tick = sched.tick(&kv, 50_000, &mut permits);
    let outcome = Err(ExecutionError::Timeout);
    let done = sched.complete(&mut kv, &tick.dispatched[0], &outcome, 50_000, &mut permits);
    let next = done.state;
    assert_eq!(next.backoff_ms, 60_000);
    assert_eq!(next.failures, 1);
}

#[test]
fn a_job_without_a_spec_that_resolves_is_passed_over_and_kept() {
    let mut kv = MemKv::new();
    upsert_job(&mut kv, "good", noop(10)).unwrap();
    upsert_job(&mut kv, "bad", noop(10)).unwrap();
    upsert_job(&mut kv, "gone", noop(10)).unwrap();
    kv.put(&spec_key("bad"), b"garbage").unwrap();
    kv.delete(&spec_key("gone"));
    let seen = JobState { last_run_ms: 1, runs: 2, failures: 3, backoff_ms: 4 };
    kv.put_t(&state_key("bad"), &seen).unwrap();
    let sched = Scheduler::new(250, 8);
    let mut permits = sched.permits();
    let tick = sched.tick(&kv, 1_000_000, &mut permits);
    assert_eq!(tick.fault, None);
    let ids: Vec<&str> = tick.dispatched.iter().map(|d| d.id.as_str()).collect();
    assert_eq!(ids, vec!["good"]);
    assert_eq!(kept_state(&kv, "bad"), Some(seen));
    assert_eq!(
        kv.get_t::<Vec<String>>(&registry_key()),
        Ok(Some(vec!["good".to_string(), "bad".to_string(), "gone".to_string()]))
    );
}

#[test]
fn a_saturated_scheduler_skips_the_rest_of_the_due_jobs() {
    let mut kv = MemKv::new();
    for id in ["a", "b", "c", "d"] {
        upsert_job(&mut kv, id, noop(10)).unwrap();
    }
    let sched = Scheduler::new(250, 2);
    let mut permits = sched.permits();
    let first = sched.tick(&kv, 100, &mut permits);
    let ids: Vec<&str> = first.dispatched.iter().map(|d| d.id.as_str()).collect();
    assert_eq!(ids, vec!["a", "b"]);
    assert_eq!(permits.running(), 2);
    let second = sched.tick(&kv, 100, &mut permits);
    assert_eq!(second.dispatched.len(), 0);
    assert_eq!(permits.running(), 2);
    sched.complete(&mut kv, &first.dispatched[0], &Ok(()), 100, &mut permits);
    assert_eq!(permits.running(), 1);
    let third = sched.tick(&kv, 105, &mut permits);
    let ids: Vec<&str> = third.dispatched.iter().map(|d| d.id.as_str()).collect();
    assert_eq!(ids, vec!["b"]);
    assert_eq!(permits.running(), 2);
}

#[test]
fn a_job_still_running_may_be_dispatched_again() {
    let mut kv = MemKv::new();
    upsert_job(&mut kv, "a", noop(10)).unwrap();
    let sched = Scheduler::new(250, 3);
    let mut permits = sched.permits();
    assert_eq!(sched.tick(&kv, 100, &mut permits).dispatched.len(), 1);
    assert_eq!(sched.tick(&kv, 101, &mut permits).dispatched.len(), 1);
    assert_eq!(permits.running(), 2);
}

#[test]
fn an_empty_or_absent_registry_dispatches_nothing() {
    let mut kv = MemKv::new();
    let sched = Scheduler::new(250, 2);
    let mut permits = sched.permits();
    let tick = sched.tick(&kv, 100, &mut permits);
    assert_eq!(tick.dispatched.len(), 0);
    assert_eq!(tick.fault, None);
    kv.put_t(&registry_key(), &Vec::<String>::new()).unwrap();
    assert_eq!(sched.tick(&kv, 100, &mut permits).dispatched.len(), 0);
}

#[test]
fn a_registry_that_cannot_be_read_stops_the_tick() {
    let mut kv = MemKv::new();
    kv.put(&registry_key(), b"\x01").unwrap();
    let sched = Scheduler::new(250, 2);
    let mut permits = sched.permits();
    let tick = sched.tick(&kv, 100, &mut permits);
    assert_eq!(tick.dispatched.len(), 0);
    assert_eq!(tick.fault, Some(StoreError::Decode));
    assert_eq!(permits.running(), 0);
}

#[test]
fn a_state_that_cannot_be_read_stops_the_tick_and_keeps_what_was_dispatched() {
    let mut kv = MemKv::new();
    for id in ["a", "b", "c"] {
        upsert_job(&mut kv, id, noop(10)).unwrap();
    }
    kv.put(&state_key("b"), b"short").unwrap();
    let sched = Scheduler::new(250, 8);
    let mut permits = sched.permits();
    let tick = sched.tick(&kv, 100, &mut permits);
    let ids: Vec<&str> = tick.dispatched.iter().map(|d| d.id.as_str()).collect();
    assert_eq!(ids, vec!["a"]);
    assert_eq!(tick.fault, Some(StoreError::Decode));
    assert_eq!(permits.running(), 1);
}

#[test]
fn a_legacy_spec_is_dispatched_as_noop() {
    let mut kv = MemKv::new();
    kv.put_t(&registry_key(), &vec!["old".to_string()]).unwrap();
    kv.put_t(&spec_key("old"), &LegacySpec { cmd: "noop".to_string(), period_ms: 500 })
        .unwrap();
    let sched = Scheduler::new(250, 1);
    let mut permits = sched.permits();
    assert_eq!(sched.tick(&kv, 499, &mut permits).dispatched.len(), 0);
    let tick = sched.tick(&kv, 500, &mut permits);
    assert_eq!(tick.dispatched, vec![Dispatch { id: "old".to_string(), spec: noop(500) }]);
}

#[test]
fn completion_counts_from_zero_where_the_state_cannot_be_read() {
    let mut kv = MemKv::new();
    kv.put(&state_key("j"), b"junk").unwrap();
    let sched = Scheduler::new(250, 1);
    let mut permits = sched.permits();
    assert!(permits.try_acquire());
    let job = Dispatch { id: "j".to_string(), spec: noop(10) };
    let done = sched.complete(&mut kv, &job, &Ok(()), 77, &mut permits);
    let next = done.state;
    assert_eq!(next, JobState { last_run_ms: 77, runs: 1, failures: 0, backoff_ms: 0 });
    assert_eq!(kept_state(&kv, "j"), Some(next));
    assert_eq!(permits.running(), 0);
}

#[test]
fn completion_gives_the_permit_back_even_where_the_store_refuses_the_write() {
    let mut inner = MemKv::new();
    let before = JobState { last_run_ms: 1, runs: 1, failures: 0, backoff_ms: 0 };
    inner.put_t(&state_key("j"), &before).unwrap();
    let mut kv = Lossy { inner };
    let sched = Scheduler::new(250, 1);
    let mut permits = sched.permits();
    assert!(permits.try_acquire());
    let job = Dispatch { id: "j".to_string(), spec: noop(10) };
    let done = sched.complete(&mut kv, &job, &Err(ExecutionError::Timeout), 9, &mut permits);
    let next = done.state;
    assert_eq!(done.stored, Err(StoreError::Io));
    assert_eq!(next, JobState { last_run_ms: 9, runs: 1, failures: 1, backoff_ms: 20 });
    assert_eq!(kv.get_t::<JobState>(&state_key("j")), Ok(Some(before)));
    assert_eq!(permits.running(), 0);
}

#[test]
fn the_clock_keeps_the_low_64_bits() {
    assert_eq!(millis_since_epoch(None), 0);
    assert_eq!(millis_since_epoch(Some(0)), 0);
    assert_eq!(millis_since_epoch(Some(1_700_000_000_123)), 1_700_000_000_123);
    assert_eq!(millis_since_epoch(Some(u64::MAX as u128)), u64::MAX);
    assert_eq!(millis_since_epoch(Some(u64::MAX as u128 + 1)), 0);
    assert_eq!(millis_since_epoch(Some((1u128 << 64) + 7)), 7);
    assert_eq!(millis_since_epoch(Some(u128::MAX)), u64::MAX);
}
