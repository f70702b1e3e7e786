use ai_core::codec::{KvSerde, StoreError};
use ai_core::heartbeat::Heartbeat;
use ai_core::job::{Action, JobSpec, JobState, Scalar};
use ai_core::jobs::{del_job, registry, seed_demo_job, upsert_job};
use ai_core::keys::{registry_key, spec_key, state_key};
use ai_core::resolver::resolve_spec;
use ai_core::runner::{execute, store_value, Execution, ExecutionError};
use ai_core::scanner::{run, Report, Request};
use ai_core::store::{ns, Kv, MemKv};
use ai_core::trainer::record_steps;
use ai_core::web::{jobs_delete, jobs_upsert, kv_put, JobUpsert};

/// A store that takes only so many writes, then refuses every one.
struct Flaky {
    inner: MemKv,
    left: usize,
}

impl Flaky {
    fn taking(left: usize) -> Flaky {
        Flaky { inner: MemKv::new(), left }
    }
}

impl Kv for Flaky {
    fn get(&self, key: &[u8]) -> Option<Vec<u8>> {
        self.inner.get(key)
    }

    fn put(&mut self, key: &[u8], val: &[u8]) -> Result<(), StoreError> {
        if self.left == 0 {
            return Err(StoreError::Io);
        }
        self.left -= 1;
        self.inner.put(key, val)
    }

    fn delete(&mut self, key: &[u8]) -> bool {
        self.inner.delete(key)
    }
}

fn noop(period_ms: u64) -> JobSpec {
    JobSpec { period_ms, action: Action::Noop }
}

#[test]
fn a_typed_write_that_is_refused_is_reported() {
    let mut kv = Flaky::taking(1);
    assert_eq!(kv.put_t(b"n", &5u64), Ok(()));
    assert_eq!(kv.put_t(b"n", &6u64), Err(StoreError::Io));
    assert_eq!(kv.get_t::<u64>(b"n"), Ok(Some(5)));
    assert_eq!(kv.put(b"raw", b"x"), Err(StoreError::Io));
    assert_eq!(kv.get(b"raw"), None);
}

#[test]
fn a_typed_read_after_a_typed_write_gives_the_value_back() {
    let mut kv = MemKv::new();
    assert_eq!(kv.put_t(b"a", &70_000u32), Ok(()));
    assert_eq!(kv.put_t(b"b", &u64::MAX), Ok(()));
    assert_eq!(kv.put_t(b"c", &"h\u{e9}".to_string()), Ok(()));
    assert_eq!(kv.put_t(b"d", &vec!["x".to_string(), String::new()]), Ok(()));
    let state = JobState { last_run_ms: 9, runs: 3, failures: 2, backoff_ms: 400 };
    assert_eq!(kv.put_t(b"e", &state), Ok(()));
    assert_eq!(kv.get_t::<u32>(b"a"), Ok(Some(70_000)));
    assert_eq!(kv.get_t::<u64>(b"b"), Ok(Some(u64::MAX)));
    assert_eq!(kv.get_t::<String>(b"c"), Ok(Some("h\u{e9}".to_string())));
    assert_eq!(kv.get_t::<Vec<String>>(b"d"), Ok(Some(vec!["x".to_string(), String::new()])));
    assert_eq!(kv.get_t::<JobState>(b"e"), Ok(Some(state)));
    assert_eq!(kv.len(), 5);
}

#[test]
fn a_refused_value_fails_the_execution_and_changes_nothing() {
    let mut kv = Flaky::taking(0);
    let text = Scalar::Text("v".to_string());
    assert_eq!(store_value(&mut kv, "k", "raw", &text), Err(ExecutionError::StoreFailed));
    assert_eq!(store_value(&mut kv, "k", "string", &text), Err(ExecutionError::StoreFailed));
    assert_eq!(kv_put(&mut kv, "k", "u32", &Scalar::Unsigned(7)), Err(ExecutionError::StoreFailed));
    assert_eq!(kv_put(&mut kv, "k", "u64", &Scalar::Unsigned(7)), Err(ExecutionError::StoreFailed));
    let action =
        Action::KvPut { key: "k".to_string(), decode: "utf8".to_string(), value: text.clone() };
    assert_eq!(
        execute(&action, &mut kv),
        Execution::Finished(Err(ExecutionError::StoreFailed))
    );
    assert_eq!(kv.get(b"k"), None);
    assert_eq!(
        store_value(&mut kv, "k", "u32", &Scalar::Unsigned(5_000_000_000)),
        Err(ExecutionError::OutOfRange)
    );
    assert_eq!(store_value(&mut kv, "k", "u32", &text), Err(ExecutionError::TypeMismatch));
    assert_eq!(store_value(&mut kv, "k", "hex", &text), Err(ExecutionError::UnknownDecode));
}

#[test]
fn a_stored_value_reads_back_under_every_mode() {
    let mut kv = MemKv::new();
    let text = Scalar::Text("h\u{e9}".to_string());
    assert_eq!(store_value(&mut kv, "r", "raw", &text), Ok(()));
    assert_eq!(store_value(&mut kv, "u", "utf8", &text), Ok(()));
    assert_eq!(store_value(&mut kv, "s", "string", &text), Ok(()));
    assert_eq!(store_value(&mut kv, "a", "u32", &Scalar::Unsigned(70_000)), Ok(()));
    assert_eq!(store_value(&mut kv, "b", "u64", &Scalar::Unsigned(5_000_000_000)), Ok(()));
    assert_eq!(kv.get(b"r"), Some("h\u{e9}".as_bytes().to_vec()));
    assert_eq!(kv.get(b"u"), Some("h\u{e9}".as_bytes().to_vec()));
    assert_eq!(kv.get_t::<String>(b"s"), Ok(Some("h\u{e9}".to_string())));
    assert_eq!(kv.get(b"s"), Some(vec![3, 0, 0, 0, 0, 0, 0, 0, b'h', 0xc3, 0xa9]));
    assert_eq!(kv.get_t::<u32>(b"a"), Ok(Some(70_000)));
    assert_eq!(kv.get_t::<u64>(b"b"), Ok(Some(5_000_000_000)));
    assert_eq!(kv.len(), 5);
}

#[test]
fn an_upsert_stops_at_the_write_that_is_refused() {
    let mut kv = Flaky::taking(0);
    assert_eq!(upsert_job(&mut kv, "a", noop(5)), Err(StoreError::Io));
    assert_eq!(kv.inner.len(), 0);

    let mut kv = Flaky::taking(1);
    assert_eq!(upsert_job(&mut kv, "a", noop(5)), Err(StoreError::Io));
    assert_eq!(registry(&kv), Ok(vec!["a".to_string()]));
    assert_eq!(kv.get(&spec_key("a")), None);
    assert_eq!(kv.get(&state_key("a")), None);

    let mut kv = Flaky::taking(2);
    assert_eq!(upsert_job(&mut kv, "a", noop(5)), Err(StoreError::Io));
    assert_eq!(registry(&kv), Ok(vec!["a".to_string()]));
    assert_eq!(resolve_spec(&kv, "a"), Some(noop(5)));
    assert_eq!(kv.get(&state_key("a")), None);

    let mut kv = Flaky::taking(3);
    assert_eq!(upsert_job(&mut kv, "a", noop(5)), Ok(()));
    assert_eq!(registry(&kv), Ok(vec!["a".to_string()]));
    assert_eq!(resolve_spec(&kv, "a"), Some(noop(5)));
    assert_eq!(kv.get_t::<JobState>(&state_key("a")), Ok(Some(JobState::default())));
}

#[test]
fn an_upsert_of_a_registered_job_resets_its_state() {
    let mut kv = MemKv::new();
    upsert_job(&mut kv, "a", noop(5)).unwrap();
    upsert_job(&mut kv, "b", noop(6)).unwrap();
    let ran = JobState { last_run_ms: 9, runs: 3, failures: 2, backoff_ms: 400 };
    kv.put_t(&state_key("a"), &ran).unwrap();
    kv.put_t(&state_key("b"), &ran).unwrap();
    let request = JobUpsert::New { id: "a".to_string(), spec: noop(7) };
    assert_eq!(jobs_upsert(&mut kv, request), Ok(()));
    assert_eq!(registry(&kv), Ok(vec!["a".to_string(), "b".to_string()]));
    assert_eq!(resolve_spec(&kv, "a"), Some(noop(7)));
    assert_eq!(kv.get_t::<JobState>(&state_key("a")), Ok(Some(JobState::default())));
    assert_eq!(resolve_spec(&kv, "b"), Some(noop(6)));
    assert_eq!(kv.get_t::<JobState>(&state_key("b")), Ok(Some(ran)));
}

#[test]
fn a_front_end_reports_a_registry_it_cannot_read() {
    let mut kv = MemKv::new();
    kv.put(&registry_key(), b"\x05").unwrap();
    let request = JobUpsert::Legacy { id: "a".to_string(), cmd: "noop".to_string(), period_ms: 5 };
    assert_eq!(jobs_upsert(&mut kv, request), Err(StoreError::Decode));
    assert_eq!(jobs_delete(&mut kv, "a"), Err(StoreError::Decode));
    assert_eq!(kv.get(&registry_key()), Some(b"\x05".to_vec()));
    assert_eq!(kv.len(), 1);
}

#[test]
fn a_delete_reports_a_registry_that_is_not_written_back() {
    let mut kv = Flaky::taking(3);
    upsert_job(&mut kv, "a", noop(5)).unwrap();
    assert_eq!(del_job(&mut kv, "a"), Err(StoreError::Io));
    assert_eq!(registry(&kv), Ok(vec!["a".to_string()]));
    assert_eq!(kv.get(&spec_key("a")), None);
    assert_eq!(kv.get(&state_key("a")), None);
    assert_eq!(del_job(&mut kv, "b"), Ok(()));
}

#[test]
fn a_delete_takes_the_id_out_of_the_registry() {
    let mut kv = MemKv::new();
    for id in ["a", "b", "c"] {
        upsert_job(&mut kv, id, noop(5)).unwrap();
    }
    assert_eq!(del_job(&mut kv, "b"), Ok(()));
    assert_eq!(registry(&kv), Ok(vec!["a".to_string(), "c".to_string()]));
    assert_eq!(kv.get(&spec_key("b")), None);
    assert_eq!(kv.get(&state_key("b")), None);
    assert_eq!(resolve_spec(&kv, "a"), Some(noop(5)));
    assert_eq!(resolve_spec(&kv, "c"), Some(noop(5)));
}

#[test]
fn seeding_stops_at_the_write_that_is_refused() {
    let mut kv = Flaky::taking(0);
    assert_eq!(seed_demo_job(&mut kv), Err(StoreError::Io));
    assert_eq!(kv.inner.len(), 0);

    let mut kv = Flaky::taking(1);
    assert_eq!(seed_demo_job(&mut kv), Err(StoreError::Io));
    assert_eq!(registry(&kv), Ok(vec!["demo".to_string()]));
    assert_eq!(resolve_spec(&kv, "demo"), None);

    let mut kv = MemKv::new();
    assert_eq!(seed_demo_job(&mut kv), Ok(true));
    assert_eq!(registry(&kv), Ok(vec!["demo".to_string()]));
    assert_eq!(resolve_spec(&kv, "demo"), Some(noop(3000)));
    assert_eq!(seed_demo_job(&mut kv), Ok(false));
}

#[test]
fn a_heartbeat_reports_a_count_that_is_not_kept() {
    let mut kv = Flaky::taking(1);
    let hb = Heartbeat::new(1000);
    assert_eq!(hb.beat(&mut kv, 4), (5, Ok(())));
    assert_eq!(hb.beat(&mut kv, 5), (6, Err(StoreError::Io)));
    assert_eq!(hb.stop(&mut kv, 6), Err(StoreError::Io));
    assert_eq!(hb.start(&kv), Ok(5));
}

#[test]
fn steps_that_are_not_kept_are_reported() {
    let mut kv = Flaky::taking(1);
    assert_eq!(record_steps(&mut kv, 100), Ok(None));
    assert_eq!(record_steps(&mut kv, 5), Err(StoreError::Io));
    assert_eq!(kv.get_t::<u32>(&ns("trainer", "last_steps")), Ok(Some(100)));
}

#[test]
fn the_scanner_reports_a_write_that_is_refused() {
    let mut kv = Flaky::taking(0);
    let put = Request::Put { key: "k".to_string(), value: "v".to_string() };
    assert_eq!(run(&mut kv, put.clone()), Err(StoreError::Io));
    assert_eq!(kv.get(b"k"), None);
    let mut kv = MemKv::new();
    assert_eq!(run(&mut kv, put), Ok(Report::Done));
    assert_eq!(kv.get(b"k"), Some(b"v".to_vec()));
}
