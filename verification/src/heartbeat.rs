//! The heartbeat: a counter in the store that goes up by one on every beat.

use vstd::bytes::*;
use vstd::prelude::*;

use crate::codec::{typed, KvSerde, StoreError};
use crate::scheduler::bumped;
use crate::store::{ns, ns_bytes, written, Kv};

verus! {

/// A heartbeat that beats every so many milliseconds.
#[derive(Clone, Copy, Debug)]
pub struct Heartbeat {
    period_ms: u64,
}

/// The key under which the heartbeat count is kept.
pub open spec fn heartbeat_key_of() -> Seq<u8> {
    ns_bytes("heartbeat"@, "count"@)
}

/// The count from which a heartbeat starts: what is kept, 0 where nothing
/// is kept.
pub open spec fn started_from(held: Map<Seq<u8>, Seq<u8>>) -> Result<u64, StoreError> {
    match typed::<u64>(held, heartbeat_key_of()) {
        Ok(Some(n)) => Ok(n),
        Ok(None) => Ok(0),
        Err(e) => Err(e),
    }
}

impl Heartbeat {
    /// A heartbeat with the given period.
    pub fn new(period_ms: u64) -> (h: Heartbeat)
        ensures
            h.period_ms() == period_ms,
    {
        Heartbeat { period_ms }
    }

    /// Milliseconds between two beats.
    #[verifier::when_used_as_spec(spec_period_ms)]
    pub fn period_ms(&self) -> (ms: u64)
        ensures
            ms == self.period_ms(),
    {
        self.period_ms
    }

    pub closed spec fn spec_period_ms(&self) -> u64 {
        self.period_ms
    }

    /// The count to start from.
    pub fn start<K: Kv>(&self, kv: &K) -> (r: Result<u64, StoreError>)
        requires
            kv.valid(),
        ensures
            r == started_from(kv.contents()),
    {
        let key = ns("heartbeat", "count");
        match kv.get_t::<u64>(key.as_slice()) {
            Ok(Some(n)) => Ok(n),
            Ok(None) => Ok(0),
            Err(e) => Err(e),
        }
    }

    /// One beat: the count goes up by one, clamped to what 64 bits hold,
    /// and is written to the store. Hands back the new count and whether
    /// the store took it.
    pub fn beat<K: Kv>(&self, kv: &mut K, count: u64) -> (out: (u64, Result<(), StoreError>))
        requires
            old(kv).valid(),
        ensures
            final(kv).valid(),
            final(kv).reliable() == old(kv).reliable(),
            out.0 == bumped(count),
            written(
                old(kv).contents(),
                final(kv).contents(),
                old(kv).reliable(),
                heartbeat_key_of(),
                spec_u64_to_le_bytes(out.0),
                out.1,
            ),
    {
        let next = if count == u64::MAX {
            u64::MAX
        } else {
            count + 1
        };
        let key = ns("heartbeat", "count");
        let stored = kv.put_t(key.as_slice(), &next);
        (next, stored)
    }

    /// The last write of a heartbeat that stops: the count as it stands is
    /// handed to the store, and the store's answer is handed back.
    pub fn stop<K: Kv>(&self, kv: &mut K, count: u64) -> (r: Result<(), StoreError>)
        requires
            old(kv).valid(),
        ensures
            final(kv).valid(),
            final(kv).reliable() == old(kv).reliable(),
            written(
                old(kv).contents(),
                final(kv).contents(),
                old(kv).reliable(),
                heartbeat_key_of(),
                spec_u64_to_le_bytes(count),
                r,
            ),
    {
        let key = ns("heartbeat", "count");
        kv.put_t(key.as_slice(), &count)
    }
}

/// A heartbeat picks up where the last one left: once the store has taken
/// a count, the next start reads that count.
pub proof fn law_beat_kept(
    before: Map<Seq<u8>, Seq<u8>>,
    after: Map<Seq<u8>, Seq<u8>>,
    reliable: bool,
    count: u64,
    r: Result<(), StoreError>,
)
    requires
        written(before, after, reliable, heartbeat_key_of(), spec_u64_to_le_bytes(count), r),
    ensures
        reliable ==> r is Ok,
        r is Ok ==> started_from(after) == Ok::<u64, StoreError>(count),
        r is Err ==> started_from(after) == started_from(before),
{
    <u64 as crate::codec::Stored>::round_trip(count);
}

} // verus!
