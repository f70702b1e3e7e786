//! What the HTTP front-end answers: raw key reads, writes and deletes with
//! the decode vocabulary `raw`, `utf8`, `string`, `u32`, `u64`, and the job
//! operations. Serving the answers is the caller's part.

use vstd::prelude::*;
use vstd::slice::*;
use vstd::utf8::*;

use crate::codec::{typed, KvSerde, StoreError};
use crate::heartbeat::heartbeat_key_of;
use crate::job::{JobSpec, LegacySpec, Scalar, ScalarView};
use crate::jobs::{
    del_job, job_deleted, list_jobs, listed, listings, upsert_job, upsert_legacy_job, upserted,
    JobView,
};
use crate::keys::registry_at;
use crate::runner::{store_value, value_stored, ExecutionError};
use crate::store::{ns, str_eq, Kv};

verus! {

/// The text that bytes are shown as when they need not be UTF-8: what
/// `String::from_utf8_lossy` makes of them.
pub uninterp spec fn lossy_text(bytes: Seq<u8>) -> Seq<char>;

/// `String::from_utf8_lossy` of std: the bytes as text, each invalid
/// sequence replaced by U+FFFD; bytes that are UTF-8 come out as the text
/// they encode.
#[verifier::external_body]
fn utf8_lossy(bytes: &[u8]) -> (s: String)
    ensures
        s@ == lossy_text(bytes@),
        valid_utf8(bytes@) ==> s@ == decode_utf8(bytes@),
{
    String::from_utf8_lossy(bytes).into_owned()
}

/// `String::from_utf8` of std: the text that the bytes encode, nothing
/// where they are not UTF-8.
#[verifier::external_body]
fn utf8_text(bytes: Vec<u8>) -> (r: Option<String>)
    ensures
        match r {
            Some(s) => valid_utf8(bytes@) && s@ == decode_utf8(bytes@),
            None => !valid_utf8(bytes@),
        },
{
    String::from_utf8(bytes).ok()
}

/// Why a read was refused.
#[derive(Clone, Copy, Debug, PartialEq, Eq, Structural)]
pub enum GetError {
    /// The value was asked for as UTF-8 and is not.
    NonUtf8,
    /// The value is not of the type asked for.
    Store(StoreError),
    /// The decode mode is none of `raw`, `utf8`, `string`, `u32`, `u64`.
    UnknownDecode,
}

/// The answer to a read.
#[derive(Clone, Debug, PartialEq, Eq)]
pub enum KvReply {
    /// The key is present, with this value.
    Found(Scalar),
    /// The key is absent.
    NotFound,
    /// The read was refused.
    BadRequest(GetError),
}

/// The mathematical content of a [`KvReply`].
pub enum KvReplyView {
    Found(ScalarView),
    NotFound,
    BadRequest(GetError),
}

impl View for KvReply {
    type V = KvReplyView;

    open spec fn view(&self) -> KvReplyView {
        match self {
            KvReply::Found(v) => KvReplyView::Found(v@),
            KvReply::NotFound => KvReplyView::NotFound,
            KvReply::BadRequest(e) => KvReplyView::BadRequest(*e),
        }
    }
}

/// The answer to a typed read that found a value of type `T`.
pub open spec fn typed_reply(r: Result<Option<ScalarView>, StoreError>) -> KvReplyView {
    match r {
        Ok(Some(v)) => KvReplyView::Found(v),
        Ok(None) => KvReplyView::NotFound,
        Err(e) => KvReplyView::BadRequest(GetError::Store(e)),
    }
}

/// The answer to reading `key` under a decode mode.
pub open spec fn got(held: Map<Seq<u8>, Seq<u8>>, key: Seq<char>, decode: Seq<char>) -> KvReplyView {
    let k = encode_utf8(key);
    if decode == "raw"@ {
        if held.contains_key(k) {
            KvReplyView::Found(ScalarView::Text(lossy_text(held[k])))
        } else {
            KvReplyView::NotFound
        }
    } else if decode == "utf8"@ {
        if !held.contains_key(k) {
            KvReplyView::NotFound
        } else if valid_utf8(held[k]) {
            KvReplyView::Found(ScalarView::Text(decode_utf8(held[k])))
        } else {
            KvReplyView::BadRequest(GetError::NonUtf8)
        }
    } else if decode == "string"@ {
        typed_reply(
            match typed::<String>(held, k) {
                Ok(Some(s)) => Ok(Some(ScalarView::Text(s))),
                Ok(None) => Ok(None),
                Err(e) => Err(e),
            },
        )
    } else if decode == "u32"@ {
        typed_reply(
            match typed::<u32>(held, k) {
                Ok(Some(n)) => Ok(Some(ScalarView::Unsigned(n as u64))),
                Ok(None) => Ok(None),
                Err(e) => Err(e),
            },
        )
    } else if decode == "u64"@ {
        typed_reply(
            match typed::<u64>(held, k) {
                Ok(Some(n)) => Ok(Some(ScalarView::Unsigned(n))),
                Ok(None) => Ok(None),
                Err(e) => Err(e),
            },
        )
    } else {
        KvReplyView::BadRequest(GetError::UnknownDecode)
    }
}

/// Reads `key` under a decode mode, `raw` where none is given.
pub fn kv_get<K: Kv>(kv: &K, key: &str, decode: Option<&str>) -> (reply: KvReply)
    requires
        kv.valid(),
    ensures
        reply@ == got(
            kv.contents(),
            key@,
            match decode {
                Some(d) => d@,
                None => "raw"@,
            },
        ),
{
    let kb = key.as_bytes();
    let mode = match decode {
        Some(d) => d,
        None => "raw",
    };
    if str_eq(mode, "raw") {
        match kv.get(kb) {
            Some(v) => KvReply::Found(Scalar::Text(utf8_lossy(v.as_slice()))),
            None => KvReply::NotFound,
        }
    } else if str_eq(mode, "utf8") {
        match kv.get(kb) {
            Some(v) => match utf8_text(v) {
                Some(s) => KvReply::Found(Scalar::Text(s)),
                None => KvReply::BadRequest(GetError::NonUtf8),
            },
            None => KvReply::NotFound,
        }
    } else if str_eq(mode, "string") {
        match kv.get_t::<String>(kb) {
            Ok(Some(s)) => KvReply::Found(Scalar::Text(s)),
            Ok(None) => KvReply::NotFound,
            Err(e) => KvReply::BadRequest(GetError::Store(e)),
        }
    } else if str_eq(mode, "u32") {
        match kv.get_t::<u32>(kb) {
            Ok(Some(n)) => KvReply::Found(Scalar::Unsigned(n as u64)),
            Ok(None) => KvReply::NotFound,
            Err(e) => KvReply::BadRequest(GetError::Store(e)),
        }
    } else if str_eq(mode, "u64") {
        match kv.get_t::<u64>(kb) {
            Ok(Some(n)) => KvReply::Found(Scalar::Unsigned(n)),
            Ok(None) => KvReply::NotFound,
            Err(e) => KvReply::BadRequest(GetError::Store(e)),
        }
    } else {
        KvReply::BadRequest(GetError::UnknownDecode)
    }
}

/// Writes `value` under `key` as the decode mode says.
pub fn kv_put<K: Kv>(kv: &mut K, key: &str, decode: &str, value: &Scalar) -> (r: Result<
    (),
    ExecutionError,
>)
    requires
        old(kv).valid(),
    ensures
        final(kv).valid(),
        final(kv).reliable() == old(kv).reliable(),
        value_stored(
            old(kv).contents(),
            final(kv).contents(),
            old(kv).reliable(),
            key@,
            decode@,
            value@,
            r,
        ),
{
    store_value(kv, key, decode, value)
}

/// Deletes `key`; tells whether a value existed.
pub fn kv_del<K: Kv>(kv: &mut K, key: &str) -> (existed: bool)
    requires
        old(kv).valid(),
    ensures
        final(kv).valid(),
        final(kv).reliable() == old(kv).reliable(),
        existed == old(kv).contents().contains_key(encode_utf8(key@)),
        final(kv).contents() == old(kv).contents().remove(encode_utf8(key@)),
{
    kv.delete(key.as_bytes())
}

/// Lists the jobs of the registry whose specification resolves; none
/// where the registry cannot be read.
pub fn jobs_list<K: Kv>(kv: &K) -> (jobs: Vec<JobView>)
    requires
        kv.valid(),
    ensures
        match registry_at(kv.contents()) {
            Ok(ids) => listings(jobs@) == listed(kv.contents(), ids),
            Err(_) => jobs@.len() == 0,
        },
{
    match list_jobs(kv) {
        Ok(jobs) => jobs,
        Err(_) => Vec::new(),
    }
}

/// A request to add or replace a job.
#[derive(Clone, Debug, PartialEq, Eq)]
pub enum JobUpsert {
    /// A job in the legacy form: a command and a period.
    Legacy { id: String, cmd: String, period_ms: u64 },
    /// A job in the current form.
    New { id: String, spec: JobSpec },
}

/// What an upsert request asks for: the job's id and the bytes of its
/// specification.
pub open spec fn asked(payload: JobUpsert) -> (Seq<char>, Seq<u8>) {
    match payload {
        JobUpsert::Legacy { id, cmd, period_ms } => (
            id@,
            crate::format::legacy_wire(crate::job::LegacySpecView { cmd: cmd@, period_ms }),
        ),
        JobUpsert::New { id, spec } => (id@, crate::format::spec_wire(spec@)),
    }
}

/// Adds or replaces the job of a request: appends its id to the registry
/// if it is new, replaces its specification, and resets its run state. A
/// registry that cannot be read is reported and nothing is written, as in
/// [`upsert_job`]: to take it for empty would replace it, and with it the
/// ids of the jobs registered so far.
pub fn jobs_upsert<K: Kv>(kv: &mut K, payload: JobUpsert) -> (r: Result<(), StoreError>)
    requires
        old(kv).valid(),
    ensures
        final(kv).valid(),
        final(kv).reliable() == old(kv).reliable(),
        upserted(
            old(kv).contents(),
            final(kv).contents(),
            old(kv).reliable(),
            asked(payload).0,
            asked(payload).1,
            r,
        ),
{
    match payload {
        JobUpsert::Legacy { id, cmd, period_ms } => upsert_legacy_job(
            kv,
            id.as_str(),
            LegacySpec { cmd, period_ms },
        ),
        JobUpsert::New { id, spec } => upsert_job(kv, id.as_str(), spec),
    }
}

/// Deletes a job: its specification, its state, and its id in the
/// registry. A registry that cannot be read is reported and left as it
/// is, as in [`del_job`]: to take it for empty would replace it.
pub fn jobs_delete<K: Kv>(kv: &mut K, id: &str) -> (r: Result<(), StoreError>)
    requires
        old(kv).valid(),
    ensures
        final(kv).valid(),
        final(kv).reliable() == old(kv).reliable(),
        job_deleted(old(kv).contents(), final(kv).contents(), old(kv).reliable(), id@, r),
{
    del_job(kv, id)
}

/// The heartbeat count that the status page shows: 0 where none is kept or
/// what is kept is no count.
pub open spec fn shown_count(held: Map<Seq<u8>, Seq<u8>>) -> u64 {
    match typed::<u64>(held, heartbeat_key_of()) {
        Ok(Some(n)) => n,
        _ => 0,
    }
}

/// The heartbeat count for the status page.
pub fn status<K: Kv>(kv: &K) -> (count: u64)
    requires
        kv.valid(),
    ensures
        count == shown_count(kv.contents()),
{
    let key = ns("heartbeat", "count");
    match kv.get_t::<u64>(key.as_slice()) {
        Ok(Some(n)) => n,
        _ => 0,
    }
}

} // verus!
