//! The trainer's bookkeeping: the number of steps of its last run.

use vstd::bytes::*;
use vstd::prelude::*;

use crate::cfg::Config;
use crate::codec::{typed, KvSerde, StoreError};
use crate::store::{ns, ns_bytes, written, Kv};

verus! {

/// The key under which the steps of the last run are kept.
pub open spec fn last_steps_key_of() -> Seq<u8> {
    ns_bytes("trainer"@, "last_steps"@)
}

/// The log level of a run: the one given on the command line, else the
/// configured one.
pub fn log_level(conf: &Config, given: Option<String>) -> (level: String)
    ensures
        level@ == match given {
            Some(l) => l@,
            None => conf.log_level@,
        },
{
    match given {
        Some(l) => l,
        None => conf.log_level.clone(),
    }
}

/// What recording the steps of a run does. Steps that cannot be read stop
/// the run before anything is written. Otherwise the new steps are handed
/// to the store: where it takes them, the steps of the run before come
/// back; where it refuses them, its error does.
pub open spec fn steps_recorded(
    before: Map<Seq<u8>, Seq<u8>>,
    after: Map<Seq<u8>, Seq<u8>>,
    reliable: bool,
    steps: u32,
    r: Result<Option<u32>, StoreError>,
) -> bool {
    match typed::<u32>(before, last_steps_key_of()) {
        Err(e) => r == Err::<Option<u32>, StoreError>(e) && after == before,
        Ok(prev) => written(
            before,
            after,
            reliable,
            last_steps_key_of(),
            spec_u32_to_le_bytes(steps),
            match r {
                Ok(_) => Ok(()),
                Err(e) => Err(e),
            },
        ) && (r matches Ok(p) ==> p == prev),
    }
}

/// Records the steps of this run and hands back those of the run before,
/// if one was recorded.
pub fn record_steps<K: Kv>(kv: &mut K, steps: u32) -> (r: Result<Option<u32>, StoreError>)
    requires
        old(kv).valid(),
    ensures
        final(kv).valid(),
        final(kv).reliable() == old(kv).reliable(),
        steps_recorded(old(kv).contents(), final(kv).contents(), old(kv).reliable(), steps, r),
{
    let key = ns("trainer", "last_steps");
    let prev = match kv.get_t::<u32>(key.as_slice()) {
        Ok(prev) => prev,
        Err(e) => {
            return Err(e);
        },
    };
    match kv.put_t(key.as_slice(), &steps) {
        Ok(_) => Ok(prev),
        Err(e) => Err(e),
    }
}

} // verus!
