use ai_core::cfg::Config;
use ai_core::codec::{KvSerde, StoreError};
use ai_core::heartbeat::Heartbeat;
use ai_core::job::{Action, JobSpec, JobState, Scalar};
use ai_core::jobs::{registry, JobView};
use ai_core::resolver::resolve_spec;
use ai_core::runner::ExecutionError;
use ai_core::scanner::{run, Report, Request};
use ai_core::store::{ns, Kv, MemKv};
use ai_core::trainer::{log_level, record_steps};
use ai_core::web::{
    jobs_delete, jobs_list, jobs_upsert, kv_del, kv_get, kv_put, status, GetError, JobUpsert,
    KvReply,
};

#[test]
fn runs_scanner_baseline() {
    let mut kv = MemKv::new();
    let report = run(&mut kv, Request::Baseline);
    assert!(report.is_ok());
    assert_eq!(report, Ok(Report::Baseline { objects: 42, chains: 1337 }));
    assert_eq!(kv.len(), 0);
}

#[test]
fn runs_trainer_with_args() {
    let mut kv = MemKv::new();
    let conf = Config::default();
    assert_eq!(log_level(&conf, Some("debug".to_string())), "debug");
    let result = record_steps(&mut kv, 3);
    assert!(result.is_ok());
    assert_eq!(result, Ok(None));
    assert_eq!(kv.get_t::<u32>(&ns("trainer", "last_steps")), Ok(Some(3)));
}

#[test]
fn trainer_hands_back_the_steps_of_the_run_before() {
    let mut kv = MemKv::new();
    assert_eq!(record_steps(&mut kv, 100), Ok(None));
    assert_eq!(record_steps(&mut kv, 5), Ok(Some(100)));
    assert_eq!(kv.get(&ns("trainer", "last_steps")), Some(vec![5, 0, 0, 0]));
    kv.put(&ns("trainer", "last_steps"), b"x").unwrap();
    assert_eq!(record_steps(&mut kv, 6), Err(StoreError::Decode));
    assert_eq!(kv.get(&ns("trainer", "last_steps")), Some(b"x".to_vec()));
    assert_eq!(log_level(&Config::default(), None), "info");
}

#[test]
fn scanner_raw_key_commands() {
    let mut kv = MemKv::new();
    let get = Request::Get { key: "k".to_string() };
    assert_eq!(run(&mut kv, get.clone()), Ok(Report::Value(None)));
    let put = Request::Put { key: "k".to_string(), value: "v".to_string() };
    assert_eq!(run(&mut kv, put), Ok(Report::Done));
    assert_eq!(kv.get(b"k"), Some(b"v".to_vec()));
    assert_eq!(run(&mut kv, get), Ok(Report::Value(Some("v".to_string()))));
    let del = Request::Del { key: "k".to_string() };
    assert_eq!(run(&mut kv, del.clone()), Ok(Report::Deleted(true)));
    assert_eq!(run(&mut kv, del), Ok(Report::Deleted(false)));
}

#[test]
fn scanner_job_commands() {
    let mut kv = MemKv::new();
    let add = Request::JobsAddKvPut {
        id: "w".to_string(),
        key: "k".to_string(),
        value: "v".to_string(),
        decode: "utf8".to_string(),
        period_ms: 1000,
    };
    assert_eq!(run(&mut kv, add), Ok(Report::Done));
    let exec = Request::JobsAddExec {
        id: "e".to_string(),
        cmd: "ls".to_string(),
        args: vec!["-l".to_string()],
        timeout_ms: Some(5),
        period_ms: 2000,
    };
    assert_eq!(run(&mut kv, exec), Ok(Report::Done));
    let put_spec = JobSpec {
        period_ms: 1000,
        action: Action::KvPut {
            key: "k".to_string(),
            decode: "utf8".to_string(),
            value: Scalar::Text("v".to_string()),
        },
    };
    let exec_spec = JobSpec {
        period_ms: 2000,
        action: Action::Exec {
            cmd: "ls".to_string(),
            args: vec!["-l".to_string()],
            timeout_ms: Some(5),
        },
    };
    assert_eq!(
        run(&mut kv, Request::JobsList),
        Ok(Report::Jobs(vec![
            JobView { id: "w".to_string(), spec: put_spec, state: JobState::default() },
            JobView { id: "e".to_string(), spec: exec_spec.clone(), state: JobState::default() },
        ]))
    );
    assert_eq!(run(&mut kv, Request::JobsDel { id: "w".to_string() }), Ok(Report::Done));
    assert_eq!(run(&mut kv, Request::JobsDel { id: "w".to_string() }), Ok(Report::Done));
    assert_eq!(registry(&kv), Ok(vec!["e".to_string()]));
    assert_eq!(resolve_spec(&kv, "e"), Some(exec_spec));
    kv.put(&ns("jobs", "registry"), b"\x01").unwrap();
    assert_eq!(run(&mut kv, Request::JobsList), Err(StoreError::Decode));
}

#[test]
fn reading_a_key_under_each_decode_mode() {
    let mut kv = MemKv::new();
    kv.put(b"t", "hé".as_bytes()).unwrap();
    kv.put(b"b", &[b'a', 0xff, b'b']).unwrap();
    kv.put_t(b"s", &"str".to_string()).unwrap();
    kv.put_t(b"n32", &7u32).unwrap();
    kv.put_t(b"n64", &8u64).unwrap();
    let text = |s: &str| KvReply::Found(Scalar::Text(s.to_string()));
    assert_eq!(kv_get(&kv, "t", None), text("hé"));
    assert_eq!(kv_get(&kv, "t", Some("raw")), text("hé"));
    assert_eq!(kv_get(&kv, "b", Some("raw")), text("a\u{fffd}b"));
    assert_eq!(kv_get(&kv, "t", Some("utf8")), text("hé"));
    assert_eq!(kv_get(&kv, "b", Some("utf8")), KvReply::BadRequest(GetError::NonUtf8));
    assert_eq!(kv_get(&kv, "s", Some("string")), text("str"));
    assert_eq!(kv_get(&kv, "n32", Some("u32")), KvReply::Found(Scalar::Unsigned(7)));
    assert_eq!(kv_get(&kv, "n64", Some("u64")), KvReply::Found(Scalar::Unsigned(8)));
    assert_eq!(
        kv_get(&kv, "n32", Some("u64")),
        KvReply::BadRequest(GetError::Store(StoreError::Decode))
    );
    assert_eq!(
        kv_get(&kv, "t", Some("string")),
        KvReply::BadRequest(GetError::Store(StoreError::Decode))
    );
    for mode in ["raw", "utf8", "string", "u32", "u64"] {
        assert_eq!(kv_get(&kv, "absent", Some(mode)), KvReply::NotFound);
    }
    assert_eq!(kv_get(&kv, "t", Some("hex")), KvReply::BadRequest(GetError::UnknownDecode));
    assert_eq!(kv_get(&kv, "absent", Some("hex")), KvReply::BadRequest(GetError::UnknownDecode));
}

#[test]
fn writing_and_deleting_a_key_through_the_front_end() {
    let mut kv = MemKv::new();
    assert_eq!(kv_put(&mut kv, "k", "u32", &Scalar::Unsigned(70000)), Ok(()));
    assert_eq!(kv_get(&kv, "k", Some("u32")), KvReply::Found(Scalar::Unsigned(70000)));
    assert_eq!(
        kv_put(&mut kv, "k", "u32", &Scalar::Unsigned(5_000_000_000)),
        Err(ExecutionError::OutOfRange)
    );
    assert_eq!(
        kv_put(&mut kv, "k", "u32", &Scalar::Text("x".to_string())),
        Err(ExecutionError::TypeMismatch)
    );
    assert_eq!(
        kv_put(&mut kv, "k", "nope", &Scalar::Unsigned(1)),
        Err(ExecutionError::UnknownDecode)
    );
    assert!(kv_del(&mut kv, "k"));
    assert!(!kv_del(&mut kv, "k"));
}

#[test]
fn job_requests_of_the_front_end() {
    let mut kv = MemKv::new();
    let legacy = JobUpsert::Legacy { id: "l".to_string(), cmd: "noop".to_string(), period_ms: 500 };
    assert_eq!(jobs_upsert(&mut kv, legacy), Ok(()));
    let spec = JobSpec { period_ms: 9, action: Action::KvDel { key: "k".to_string() } };
    let new = JobUpsert::New { id: "n".to_string(), spec: spec.clone() };
    assert_eq!(jobs_upsert(&mut kv, new), Ok(()));
    assert_eq!(
        jobs_list(&kv),
        vec![
            JobView {
                id: "l".to_string(),
                spec: JobSpec { period_ms: 500, action: Action::Noop },
                state: JobState::default(),
            },
            JobView { id: "n".to_string(), spec, state: JobState::default() },
        ]
    );
    assert_eq!(jobs_delete(&mut kv, "l"), Ok(()));
    assert_eq!(registry(&kv), Ok(vec!["n".to_string()]));
    kv.put(&ns("jobs", "registry"), b"\x01").unwrap();
    assert_eq!(jobs_list(&kv), vec![]);
}

#[test]
fn heartbeat_counts_up_in_the_store() {
    let mut kv = MemKv::new();
    let hb = Heartbeat::new(1000);
    assert_eq!(hb.period_ms(), 1000);
    assert_eq!(status(&kv), 0);
    let mut count = hb.start(&kv).unwrap();
    assert_eq!(count, 0);
    count = hb.beat(&mut kv, count).0;
    let (next, stored) = hb.beat(&mut kv, count);
    assert_eq!(stored, Ok(()));
    count = next;
    assert_eq!(count, 2);
    assert_eq!(kv.get_t::<u64>(&ns("heartbeat", "count")), Ok(Some(2)));
    assert_eq!(status(&kv), 2);
    assert_eq!(hb.start(&kv), Ok(2));
    assert_eq!(hb.beat(&mut kv, u64::MAX), (u64::MAX, Ok(())));
    assert_eq!(hb.stop(&mut kv, 41), Ok(()));
    assert_eq!(status(&kv), 41);
    kv.put(&ns("heartbeat", "count"), b"x").unwrap();
    assert_eq!(hb.start(&kv), Err(StoreError::Decode));
    assert_eq!(status(&kv), 0);
}
