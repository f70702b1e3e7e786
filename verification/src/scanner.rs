//! The scanner's commands against the store: baseline figures, raw key
//! access, and the job registry operations.

use vstd::prelude::*;
use vstd::utf8::*;

use crate::codec::StoreError;
use crate::coremem::stats;
use crate::job::{texts, Action, ActionView, JobSpec, JobSpecView, Scalar, ScalarView};
use crate::jobs::{
    del_job, job_deleted, list_jobs, listed, listings, upsert_job, upserted, JobView,
};
use crate::keys::registry_at;
use crate::store::{written, Kv};
use crate::web::{kv_get, lossy_text, KvReply};

verus! {

/// One command of the scanner.
#[derive(Clone, Debug, PartialEq, Eq)]
pub enum Request {
    /// Show the baseline figures.
    Baseline,
    /// Read a key as text.
    Get { key: String },
    /// Write text under a key.
    Put { key: String, value: String },
    /// Delete a key.
    Del { key: String },
    /// List all jobs.
    JobsList,
    /// Add or replace a job that writes a string into the store.
    JobsAddKvPut { id: String, key: String, value: String, decode: String, period_ms: u64 },
    /// Add or replace a job that runs a command.
    JobsAddExec {
        id: String,
        cmd: String,
        args: Vec<String>,
        timeout_ms: Option<u64>,
        period_ms: u64,
    },
    /// Delete a job.
    JobsDel { id: String },
}

/// What the scanner reports of a command.
#[derive(Clone, Debug, PartialEq, Eq)]
pub enum Report {
    /// The number of active objects and of chains.
    Baseline { objects: usize, chains: usize },
    /// The value of the key as text, nothing where the key is absent.
    Value(Option<String>),
    /// Whether a value existed under the deleted key.
    Deleted(bool),
    /// The jobs whose specification resolves.
    Jobs(Vec<JobView>),
    /// The command is done.
    Done,
}

/// The job that an add command describes.
pub open spec fn described(request: Request) -> JobSpecView {
    match request {
        Request::JobsAddKvPut { id, key, value, decode, period_ms } => JobSpecView {
            period_ms,
            action: ActionView::KvPut { key: key@, decode: decode@, value: ScalarView::Text(value@) },
        },
        Request::JobsAddExec { id, cmd, args, timeout_ms, period_ms } => JobSpecView {
            period_ms,
            action: ActionView::Exec { cmd: cmd@, args: texts(args@), timeout_ms },
        },
        _ => JobSpecView { period_ms: 0, action: ActionView::Noop },
    }
}

/// The outcome of a command that reports nothing but that it is done.
pub open spec fn outcome(r: Result<Report, StoreError>) -> Result<(), StoreError> {
    match r {
        Ok(_) => Ok(()),
        Err(e) => Err(e),
    }
}

/// Whether a command that went through reported that it is done.
pub open spec fn done_if_ok(r: Result<Report, StoreError>) -> bool {
    r matches Ok(report) ==> report == Report::Done
}

/// What a command does to the store, and what it reports.
pub open spec fn ran(
    before: Map<Seq<u8>, Seq<u8>>,
    after: Map<Seq<u8>, Seq<u8>>,
    reliable: bool,
    request: Request,
    r: Result<Report, StoreError>,
) -> bool {
    match request {
        Request::Baseline => {
            &&& after == before
            &&& r matches Ok(Report::Baseline { objects, chains })
            &&& objects == 42
            &&& chains == 1337
        },
        Request::Get { key } => {
            &&& after == before
            &&& r matches Ok(Report::Value(v))
            &&& match v {
                Some(s) => before.contains_key(encode_utf8(key@)) && s@ == lossy_text(
                    before[encode_utf8(key@)],
                ),
                None => !before.contains_key(encode_utf8(key@)),
            }
        },
        Request::Put { key, value } => done_if_ok(r) && written(
            before,
            after,
            reliable,
            encode_utf8(key@),
            encode_utf8(value@),
            outcome(r),
        ),
        Request::Del { key } => r matches Ok(Report::Deleted(existed)) && existed
            == before.contains_key(encode_utf8(key@)) && after == before.remove(
            encode_utf8(key@),
        ),
        Request::JobsList => {
            &&& after == before
            &&& match registry_at(before) {
                Ok(ids) => r matches Ok(Report::Jobs(jobs)) && listings(jobs@) == listed(
                    before,
                    ids,
                ),
                Err(e) => r matches Err(f) && f == e,
            }
        },
        Request::JobsAddKvPut { id, .. } => done_if_ok(r) && upserted(
            before,
            after,
            reliable,
            id@,
            crate::format::spec_wire(described(request)),
            outcome(r),
        ),
        Request::JobsAddExec { id, .. } => done_if_ok(r) && upserted(
            before,
            after,
            reliable,
            id@,
            crate::format::spec_wire(described(request)),
            outcome(r),
        ),
        Request::JobsDel { id } => done_if_ok(r) && job_deleted(
            before,
            after,
            reliable,
            id@,
            outcome(r),
        ),
    }
}

fn done(r: Result<(), StoreError>) -> (out: Result<Report, StoreError>)
    ensures
        done_if_ok(out),
        match r {
            Ok(_) => outcome(out) is Ok,
            Err(e) => outcome(out) == Err::<(), StoreError>(e),
        },
{
    match r {
        Ok(_) => Ok(Report::Done),
        Err(e) => Err(e),
    }
}

/// Runs one command against the store.
pub fn run<K: Kv>(kv: &mut K, request: Request) -> (r: Result<Report, StoreError>)
    requires
        old(kv).valid(),
    ensures
        final(kv).valid(),
        final(kv).reliable() == old(kv).reliable(),
        ran(old(kv).contents(), final(kv).contents(), old(kv).reliable(), request, r),
{
    match request {
        Request::Baseline => {
            let (objects, chains) = stats();
            Ok(Report::Baseline { objects, chains })
        },
        Request::Get { key } => {
            match kv_get(kv, key.as_str(), None) {
                KvReply::Found(Scalar::Text(s)) => Ok(Report::Value(Some(s))),
                _ => Ok(Report::Value(None)),
            }
        },
        Request::Put { key, value } => {
            done(kv.put(key.as_str().as_bytes(), value.as_str().as_bytes()))
        },
        Request::Del { key } => {
            let existed = kv.delete(key.as_str().as_bytes());
            Ok(Report::Deleted(existed))
        },
        Request::JobsList => {
            match list_jobs(kv) {
                Ok(jobs) => Ok(Report::Jobs(jobs)),
                Err(e) => Err(e),
            }
        },
        Request::JobsAddKvPut { id, key, value, decode, period_ms } => {
            let spec = JobSpec {
                period_ms,
                action: Action::KvPut { key, decode, value: Scalar::Text(value) },
            };
            done(upsert_job(kv, id.as_str(), spec))
        },
        Request::JobsAddExec { id, cmd, args, timeout_ms, period_ms } => {
            let spec = JobSpec { period_ms, action: Action::Exec { cmd, args, timeout_ms } };
            done(upsert_job(kv, id.as_str(), spec))
        },
        Request::JobsDel { id } => done(del_job(kv, id.as_str())),
    }
}

} // verus!
