//! Turns a stored blob into a current job specification. Three readings are
//! tried in order, and the first that succeeds is taken: the current
//! format, the legacy format, and a stored string that holds the
//! specification as JSON.

use vstd::prelude::*;

use crate::codec::{read_text, take_text, Stored};
use crate::format::{action_fits, legacy_wire, parse_legacy, parse_spec, spec_wire};
use crate::job::{migrated, JobSpec, JobSpecView, LegacySpec, LegacySpecView};
use crate::json::{json_spec, spec_from_json};
use crate::keys::{spec_key, spec_key_of};
use crate::store::Kv;

verus! {

/// The specification that a blob stands for once it is read as a stored
/// string of JSON.
pub open spec fn json_reading(blob: Seq<u8>) -> Option<JobSpecView> {
    match take_text(blob) {
        Some((text, _)) => json_spec(text),
        None => None,
    }
}

/// The specification that a blob resolves to, if it resolves.
pub open spec fn resolved(blob: Seq<u8>) -> Option<JobSpecView> {
    match parse_spec(blob) {
        Some(spec) => Some(spec),
        None => match parse_legacy(blob) {
            Some(old) => Some(migrated(old)),
            None => json_reading(blob),
        },
    }
}

/// The specification of job `id` in a store: none where nothing is kept
/// under its key, or where what is kept does not resolve.
pub open spec fn resolved_at(held: Map<Seq<u8>, Seq<u8>>, id: Seq<char>) -> Option<JobSpecView> {
    if held.contains_key(spec_key_of(id)) {
        resolved(held[spec_key_of(id)])
    } else {
        None
    }
}

/// Resolves a stored blob.
pub fn resolve(blob: &[u8]) -> (r: Option<JobSpec>)
    ensures
        match r {
            Some(spec) => resolved(blob@) == Some(spec@),
            None => resolved(blob@) is None,
        },
{
    match JobSpec::decode(blob) {
        Ok(spec) => {
            return Some(spec);
        },
        Err(_) => {},
    }
    match LegacySpec::decode(blob) {
        Ok(old) => {
            return Some(old.migrate());
        },
        Err(_) => {},
    }
    match read_text(blob) {
        Some((text, _)) => spec_from_json(text.as_str()),
        None => None,
    }
}

/// Resolves the specification of job `id`.
pub fn resolve_spec<K: Kv>(kv: &K, id: &str) -> (r: Option<JobSpec>)
    requires
        kv.valid(),
    ensures
        match r {
            Some(spec) => resolved_at(kv.contents(), id@) == Some(spec@),
            None => resolved_at(kv.contents(), id@) is None,
        },
{
    let key = spec_key(id);
    match kv.get(key.as_slice()) {
        Some(blob) => resolve(blob.as_slice()),
        None => None,
    }
}

/// A specification written in the current format resolves to itself.
pub proof fn law_spec_round_trip(spec: JobSpecView)
    requires
        action_fits(spec.action),
    ensures
        resolved(spec_wire(spec)) == Some(spec),
{
    JobSpec::round_trip(spec);
}

/// Writing a specification and reading it back through the resolver gives
/// the same specification: once a store holds what was written under the
/// job's key, the job resolves to it.
pub proof fn law_written_spec_resolves(
    before: Map<Seq<u8>, Seq<u8>>,
    id: Seq<char>,
    spec: JobSpecView,
)
    requires
        action_fits(spec.action),
    ensures
        resolved_at(before.insert(spec_key_of(id), spec_wire(spec)), id) == Some(spec),
{
    law_spec_round_trip(spec);
}

/// A legacy specification resolves to the `Noop` job of its period, unless
/// its bytes also read as a current specification, which then wins.
pub proof fn law_legacy_resolves(old: LegacySpecView)
    requires
        crate::codec::text_fits(old.cmd),
        parse_spec(legacy_wire(old)) is None,
    ensures
        resolved(legacy_wire(old)) == Some(migrated(old)),
{
    LegacySpec::round_trip(old);
}

} // verus!
