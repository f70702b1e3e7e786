use ai_core::codec::{KvSerde, StoreError};
use ai_core::job::{Action, JobSpec, JobState, LegacySpec};
use ai_core::jobs::{
    del_job, holds, list_jobs, registry, remove_id, seed_demo_job, upsert_job,
    upsert_legacy_job, JobView,
};
use ai_core::keys::{registry_key, spec_key, state_key};
use ai_core::resolver::resolve_spec;
use ai_core::store::{Kv, MemKv};

fn noop(period_ms: u64) -> JobSpec {
    JobSpec { period_ms, action: Action::Noop }
}

fn ids(kv: &MemKv) -> Vec<String> {
    registry(kv).unwrap()
}

#[test]
fn upsert_appends_a_new_id_and_writes_spec_and_zero_state() {
    let mut kv = MemKv::new();
    assert_eq!(ids(&kv), Vec::<String>::new());
    assert_eq!(upsert_job(&mut kv, "a", noop(5)), Ok(()));
    assert_eq!(upsert_job(&mut kv, "b", noop(6)), Ok(()));
    assert_eq!(ids(&kv), vec!["a".to_string(), "b".to_string()]);
    assert_eq!(resolve_spec(&kv, "a"), Some(noop(5)));
    assert_eq!(kv.get_t::<JobState>(&state_key("a")), Ok(Some(JobState::default())));
    assert_eq!(kv.len(), 5);
}

#[test]
fn upsert_of_a_known_id_replaces_the_spec_and_resets_the_state() {
    let mut kv = MemKv::new();
    upsert_job(&mut kv, "a", noop(5)).unwrap();
    upsert_job(&mut kv, "b", noop(6)).unwrap();
    let ran = JobState { last_run_ms: 9, runs: 3, failures: 1, backoff_ms: 20 };
    kv.put_t(&state_key("a"), &ran).unwrap();
    assert_eq!(upsert_job(&mut kv, "a", noop(50)), Ok(()));
    assert_eq!(ids(&kv), vec!["a".to_string(), "b".to_string()]);
    assert_eq!(resolve_spec(&kv, "a"), Some(noop(50)));
    assert_eq!(kv.get_t::<JobState>(&state_key("a")), Ok(Some(JobState::default())));
}

#[test]
fn upsert_stops_on_a_registry_that_cannot_be_read() {
    let mut kv = MemKv::new();
    kv.put(&registry_key(), b"\x05").unwrap();
    assert_eq!(upsert_job(&mut kv, "a", noop(5)), Err(StoreError::Decode));
    assert_eq!(kv.len(), 1);
    assert_eq!(registry(&kv), Err(StoreError::Decode));
}

#[test]
fn a_legacy_upsert_keeps_the_legacy_form() {
    let mut kv = MemKv::new();
    let old = LegacySpec { cmd: "noop".to_string(), period_ms: 500 };
    assert_eq!(upsert_legacy_job(&mut kv, "l", old.clone()), Ok(()));
    assert_eq!(kv.get_t::<LegacySpec>(&spec_key("l")), Ok(Some(old)));
    assert_eq!(resolve_spec(&kv, "l"), Some(noop(500)));
    assert_eq!(ids(&kv), vec!["l".to_string()]);
}

#[test]
fn deleting_a_job_removes_id_spec_and_state() {
    let mut kv = MemKv::new();
    for id in ["a", "b", "c"] {
        upsert_job(&mut kv, id, noop(5)).unwrap();
    }
    assert_eq!(del_job(&mut kv, "b"), Ok(()));
    assert_eq!(ids(&kv), vec!["a".to_string(), "c".to_string()]);
    assert_eq!(kv.get(&spec_key("b")), None);
    assert_eq!(kv.get(&state_key("b")), None);
    assert_eq!(resolve_spec(&kv, "a"), Some(noop(5)));
    assert_eq!(kv.len(), 5);
}

#[test]
fn deleting_a_job_that_does_not_exist_changes_nothing() {
    let mut kv = MemKv::new();
    upsert_job(&mut kv, "a", noop(5)).unwrap();
    let registry_bytes = kv.get(&registry_key());
    assert_eq!(del_job(&mut kv, "nope"), Ok(()));
    assert_eq!(kv.get(&registry_key()), registry_bytes);
    assert_eq!(ids(&kv), vec!["a".to_string()]);
    assert_eq!(kv.len(), 3);
    let mut empty = MemKv::new();
    assert_eq!(del_job(&mut empty, "nope"), Ok(()));
    assert_eq!(empty.len(), 0);
}

#[test]
fn deleting_reports_a_registry_that_cannot_be_read() {
    let mut kv = MemKv::new();
    kv.put(&registry_key(), b"\x05").unwrap();
    kv.put(&spec_key("a"), b"x").unwrap();
    assert_eq!(del_job(&mut kv, "a"), Err(StoreError::Decode));
    assert_eq!(kv.get(&spec_key("a")), None);
    assert_eq!(kv.get(&registry_key()), Some(b"\x05".to_vec()));
}

#[test]
fn listing_skips_jobs_whose_spec_does_not_resolve() {
    let mut kv = MemKv::new();
    for id in ["a", "b", "c"] {
        upsert_job(&mut kv, id, noop(5)).unwrap();
    }
    kv.put(&spec_key("b"), b"garbage").unwrap();
    kv.delete(&state_key("c"));
    let ran = JobState { last_run_ms: 9, runs: 3, failures: 1, backoff_ms: 20 };
    kv.put_t(&state_key("a"), &ran).unwrap();
    assert_eq!(
        list_jobs(&kv),
        Ok(vec![
            JobView { id: "a".to_string(), spec: noop(5), state: ran },
            JobView { id: "c".to_string(), spec: noop(5), state: JobState::default() },
        ])
    );
    assert_eq!(list_jobs(&MemKv::new()), Ok(vec![]));
}

#[test]
fn seeding_adds_the_demo_job_once() {
    let mut kv = MemKv::new();
    upsert_job(&mut kv, "a", noop(5)).unwrap();
    assert_eq!(seed_demo_job(&mut kv), Ok(true));
    assert_eq!(ids(&kv), vec!["a".to_string(), "demo".to_string()]);
    assert_eq!(resolve_spec(&kv, "demo"), Some(noop(3000)));
    assert_eq!(kv.get(&state_key("demo")), None);
    kv.put_t(&spec_key("demo"), &noop(1)).unwrap();
    assert_eq!(seed_demo_job(&mut kv), Ok(false));
    assert_eq!(resolve_spec(&kv, "demo"), Some(noop(1)));
    assert_eq!(ids(&kv), vec!["a".to_string(), "demo".to_string()]);
}

#[test]
fn id_list_helpers() {
    let v = vec!["a".to_string(), "b".to_string(), "a".to_string()];
    assert!(holds(&v, "a"));
    assert!(holds(&v, "b"));
    assert!(!holds(&v, "c"));
    assert!(!holds(&Vec::new(), ""));
    assert_eq!(remove_id(&v, "a"), vec!["b".to_string()]);
    assert_eq!(remove_id(&v, "c"), v);
    assert_eq!(remove_id(&v, "b"), vec!["a".to_string(), "a".to_string()]);
}
