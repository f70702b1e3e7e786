use ai_core::codec::{KvSerde, StoreError, Stored};
use ai_core::job::{Action, JobSpec, JobState, LegacySpec, Scalar};
use ai_core::store::{Kv, MemKv};

fn specs() -> Vec<JobSpec> {
    vec![
        JobSpec { period_ms: 3000, action: Action::Noop },
        JobSpec {
            period_ms: 1,
            action: Action::Exec {
                cmd: "echo".to_string(),
                args: vec!["a".to_string(), "".to_string(), "ünï".to_string()],
                timeout_ms: Some(250),
            },
        },
        JobSpec {
            period_ms: u64::MAX,
            action: Action::Exec { cmd: "".to_string(), args: vec![], timeout_ms: None },
        },
        JobSpec {
            period_ms: 7,
            action: Action::Http {
                url: "http://localhost/".to_string(),
                method: Some("POST".to_string()),
                body: None,
                timeout_ms: Some(0),
            },
        },
        JobSpec {
            period_ms: 8,
            action: Action::KvPut {
                key: "k".to_string(),
                decode: "u32".to_string(),
                value: Scalar::Unsigned(70000),
            },
        },
        JobSpec {
            period_ms: 9,
            action: Action::KvPut {
                key: "k".to_string(),
                decode: "utf8".to_string(),
                value: Scalar::Text("v".to_string()),
            },
        },
        JobSpec {
            period_ms: 10,
            action: Action::KvPut {
                key: "k".to_string(),
                decode: "raw".to_string(),
                value: Scalar::Number("-1.5".to_string()),
            },
        },
        JobSpec {
            period_ms: 11,
            action: Action::KvPut {
                key: "k".to_string(),
                decode: "x".to_string(),
                value: Scalar::Bool(true),
            },
        },
        JobSpec {
            period_ms: 12,
            action: Action::KvPut {
                key: "k".to_string(),
                decode: "x".to_string(),
                value: Scalar::Null,
            },
        },
        JobSpec { period_ms: 13, action: Action::KvDel { key: "gone".to_string() } },
    ]
}

#[test]
fn numbers_are_little_endian() {
    assert_eq!(1u32.encode(), vec![1, 0, 0, 0]);
    assert_eq!(0x0102_0304u32.encode(), vec![4, 3, 2, 1]);
    assert_eq!(500u64.encode(), vec![0xf4, 0x01, 0, 0, 0, 0, 0, 0]);
    assert_eq!(u64::decode(&[0xf4, 0x01, 0, 0, 0, 0, 0, 0]), Ok(500));
    assert_eq!(u32::decode(&[4, 3, 2, 1]), Ok(0x0102_0304));
}

#[test]
fn numbers_ignore_what_follows_and_need_all_their_bytes() {
    assert_eq!(u64::decode(&[1, 0, 0, 0, 0, 0, 0, 0, 9, 9]), Ok(1));
    assert_eq!(u64::decode(&[1, 0, 0, 0, 0, 0, 0]), Err(StoreError::Decode));
    assert_eq!(u32::decode(&[1, 0, 0]), Err(StoreError::Decode));
    assert_eq!(u32::decode(&[]), Err(StoreError::Decode));
}

#[test]
fn strings_are_length_prefixed() {
    assert_eq!(
        "noop".to_string().encode(),
        vec![4, 0, 0, 0, 0, 0, 0, 0, b'n', b'o', b'o', b'p']
    );
    assert_eq!(String::new().encode(), vec![0; 8]);
    assert_eq!("é".to_string().encode(), vec![2, 0, 0, 0, 0, 0, 0, 0, 0xc3, 0xa9]);
    assert_eq!(String::decode(&[2, 0, 0, 0, 0, 0, 0, 0, 0xc3, 0xa9]), Ok("é".to_string()));
}

#[test]
fn strings_that_are_cut_short_or_not_utf8_are_refused() {
    assert_eq!(String::decode(&[2, 0, 0, 0, 0, 0, 0, 0, b'a']), Err(StoreError::Decode));
    assert_eq!(String::decode(&[1, 0, 0, 0, 0, 0, 0, 0, 0xff]), Err(StoreError::Decode));
    assert_eq!(String::decode(&[1, 0, 0]), Err(StoreError::Decode));
    assert_eq!(
        String::decode(&[0xff, 0xff, 0xff, 0xff, 0xff, 0xff, 0xff, 0xff, b'a']),
        Err(StoreError::Decode)
    );
}

#[test]
fn encodings_agree_with_bincode() {
    assert_eq!(7u32.encode(), bincode::serialize(&7u32).unwrap());
    assert_eq!(u64::MAX.encode(), bincode::serialize(&u64::MAX).unwrap());
    let s = "hällo".to_string();
    assert_eq!(s.encode(), bincode::serialize(&s).unwrap());
    let ids = vec!["a".to_string(), "".to_string(), "demo".to_string()];
    assert_eq!(ids.encode(), bincode::serialize(&ids).unwrap());
    let state = JobState { last_run_ms: 1, runs: 2, failures: 3, backoff_ms: 4 };
    assert_eq!(state.encode(), bincode::serialize(&(1u64, 2u64, 3u64, 4u64)).unwrap());
    let old = LegacySpec { cmd: "noop".to_string(), period_ms: 500 };
    assert_eq!(
        old.encode(),
        bincode::serialize(&("noop".to_string(), 500u64)).unwrap()
    );
}

#[test]
fn decodings_agree_with_bincode() {
    let ids = vec!["x".to_string(), "yy".to_string()];
    let bytes = bincode::serialize(&ids).unwrap();
    assert_eq!(Vec::<String>::decode(&bytes), Ok(ids));
    let bytes = bincode::serialize(&(9u64, 8u64, 7u64, 6u64)).unwrap();
    assert_eq!(
        JobState::decode(&bytes),
        Ok(JobState { last_run_ms: 9, runs: 8, failures: 7, backoff_ms: 6 })
    );
    let bytes = bincode::serialize(&("run".to_string(), 5u64)).unwrap();
    assert_eq!(LegacySpec::decode(&bytes), Ok(LegacySpec { cmd: "run".to_string(), period_ms: 5 }));
}

#[test]
fn lists_of_strings_round_trip() {
    for ids in [vec![], vec!["".to_string()], vec!["a".to_string(), "b".to_string()]] {
        let bytes = ids.encode();
        assert_eq!(Vec::<String>::decode(&bytes), Ok(ids));
    }
    assert_eq!(Vec::<String>::decode(&[2, 0, 0, 0, 0, 0, 0, 0]), Err(StoreError::Decode));
    assert_eq!(
        Vec::<String>::decode(&[0xff, 0xff, 0xff, 0xff, 0xff, 0xff, 0xff, 0xff]),
        Err(StoreError::Decode)
    );
}

#[test]
fn a_noop_spec_is_its_period_and_variant_zero() {
    let spec = JobSpec { period_ms: 3000, action: Action::Noop };
    assert_eq!(spec.encode(), vec![0xb8, 0x0b, 0, 0, 0, 0, 0, 0, 0, 0, 0, 0]);
}

#[test]
fn an_exec_spec_lists_its_fields_in_order() {
    let spec = JobSpec {
        period_ms: 1,
        action: Action::Exec {
            cmd: "ls".to_string(),
            args: vec!["-l".to_string()],
            timeout_ms: Some(2),
        },
    };
    let mut want = vec![1, 0, 0, 0, 0, 0, 0, 0];
    want.extend([1, 0, 0, 0]);
    want.extend([2, 0, 0, 0, 0, 0, 0, 0, b'l', b's']);
    want.extend([1, 0, 0, 0, 0, 0, 0, 0]);
    want.extend([2, 0, 0, 0, 0, 0, 0, 0, b'-', b'l']);
    want.extend([1, 2, 0, 0, 0, 0, 0, 0, 0]);
    assert_eq!(spec.encode(), want);
}

#[test]
fn every_spec_round_trips() {
    for spec in specs() {
        let bytes = spec.encode();
        assert_eq!(JobSpec::decode(&bytes), Ok(spec));
    }
}

#[test]
fn a_spec_with_bytes_left_over_is_refused() {
    for spec in specs() {
        let mut bytes = spec.encode();
        bytes.push(0);
        assert_eq!(JobSpec::decode(&bytes), Err(StoreError::Decode));
        bytes.pop();
        bytes.pop();
        assert_eq!(JobSpec::decode(&bytes), Err(StoreError::Decode));
    }
}

#[test]
fn unknown_variants_and_flags_are_refused() {
    assert_eq!(
        JobSpec::decode(&[1, 0, 0, 0, 0, 0, 0, 0, 5, 0, 0, 0]),
        Err(StoreError::Decode)
    );
    let mut bytes = vec![1, 0, 0, 0, 0, 0, 0, 0];
    bytes.extend([1, 0, 0, 0]);
    bytes.extend([0; 8]);
    bytes.extend([0; 8]);
    bytes.push(2);
    assert_eq!(JobSpec::decode(&bytes), Err(StoreError::Decode));
}

#[test]
fn state_round_trips() {
    let state = JobState { last_run_ms: u64::MAX, runs: 0, failures: 17, backoff_ms: 60_000 };
    assert_eq!(JobState::decode(&state.encode()), Ok(state));
    assert_eq!(JobState::default(), JobState { last_run_ms: 0, runs: 0, failures: 0, backoff_ms: 0 });
    assert_eq!(JobState::decode(&[0; 31]), Err(StoreError::Decode));
}

#[test]
fn typed_reads_and_writes() {
    let mut kv = MemKv::new();
    assert_eq!(kv.get_t::<u64>(b"n"), Ok(None));
    kv.put_t(b"n", &5u64).unwrap();
    assert_eq!(kv.get(b"n"), Some(vec![5, 0, 0, 0, 0, 0, 0, 0]));
    assert_eq!(kv.get_t::<u64>(b"n"), Ok(Some(5)));
    assert_eq!(kv.get_t::<u32>(b"n"), Ok(Some(5)));
    assert_eq!(kv.get_t::<String>(b"n"), Err(StoreError::Decode));
    kv.put(b"s", b"\x01").unwrap();
    assert_eq!(kv.get_t::<u32>(b"s"), Err(StoreError::Decode));
}
