//! The keys under which jobs are kept: `jobs:registry` for the list of job
//! ids, `jobs:{id}:spec` and `jobs:{id}:state` for each job; and what a
//! store keeps under them.

use vstd::prelude::*;
use vstd::string::*;
use vstd::utf8::*;

use crate::codec::{typed, StoreError};
use crate::job::JobState;
use crate::store::{colon, ns, ns_bytes};

verus! {

/// The key of the registry.
pub open spec fn registry_key_of() -> Seq<u8> {
    ns_bytes("jobs"@, "registry"@)
}

/// The key of a job's specification.
pub open spec fn spec_key_of(id: Seq<char>) -> Seq<u8> {
    ns_bytes("jobs"@, id + ":spec"@)
}

/// The key of a job's run state.
pub open spec fn state_key_of(id: Seq<char>) -> Seq<u8> {
    ns_bytes("jobs"@, id + ":state"@)
}

/// The key of the registry.
pub fn registry_key() -> (key: Vec<u8>)
    ensures
        key@ == registry_key_of(),
{
    ns("jobs", "registry")
}

/// The key of the specification of job `id`.
pub fn spec_key(id: &str) -> (key: Vec<u8>)
    ensures
        key@ == spec_key_of(id@),
{
    let mut name = String::from_str(id);
    name.append(":spec");
    ns("jobs", name.as_str())
}

/// The key of the run state of job `id`.
pub fn state_key(id: &str) -> (key: Vec<u8>)
    ensures
        key@ == state_key_of(id@),
{
    let mut name = String::from_str(id);
    name.append(":state");
    ns("jobs", name.as_str())
}

/// Within one namespace, two names with the same key are the same name.
pub proof fn lemma_ns_injective(space: Seq<char>, a: Seq<char>, b: Seq<char>)
    requires
        ns_bytes(space, a) == ns_bytes(space, b),
    ensures
        a == b,
{
    let head = encode_utf8(space) + seq![colon()];
    assert(ns_bytes(space, a).skip(head.len() as int) =~= encode_utf8(a));
    assert(ns_bytes(space, b).skip(head.len() as int) =~= encode_utf8(b));
    encode_utf8_decode_utf8(a);
    encode_utf8_decode_utf8(b);
}

/// The three kinds of key never meet: no job's specification or state is
/// kept under the registry's key, and no specification under the key of a
/// state, whatever the ids.
pub proof fn lemma_keys_apart(a: Seq<char>, b: Seq<char>)
    ensures
        spec_key_of(a) != registry_key_of(),
        state_key_of(a) != registry_key_of(),
        spec_key_of(a) != state_key_of(b),
{
    reveal_strlit("registry");
    reveal_strlit(":spec");
    reveal_strlit(":state");
    let spec_name = a + ":spec"@;
    let state_name = b + ":state"@;
    let own_state = a + ":state"@;
    assert(spec_name.last() == 'c');
    assert(state_name.last() == 'e');
    assert(own_state.last() == 'e');
    assert("registry"@.last() == 'y');
    if spec_key_of(a) == registry_key_of() {
        lemma_ns_injective("jobs"@, spec_name, "registry"@);
    }
    if state_key_of(a) == registry_key_of() {
        lemma_ns_injective("jobs"@, own_state, "registry"@);
    }
    if spec_key_of(a) == state_key_of(b) {
        lemma_ns_injective("jobs"@, spec_name, state_name);
    }
}

/// Two jobs with the same specification key, or the same state key, are the
/// same job.
pub proof fn lemma_keys_injective(a: Seq<char>, b: Seq<char>)
    ensures
        spec_key_of(a) == spec_key_of(b) ==> a == b,
        state_key_of(a) == state_key_of(b) ==> a == b,
{
    reveal_strlit(":spec");
    reveal_strlit(":state");
    if spec_key_of(a) == spec_key_of(b) {
        lemma_ns_injective("jobs"@, a + ":spec"@, b + ":spec"@);
        assert((a + ":spec"@).subrange(0, a.len() as int) =~= a);
        assert((b + ":spec"@).subrange(0, b.len() as int) =~= b);
        assert((a + ":spec"@).len() == a.len() + 5);
        assert((b + ":spec"@).len() == b.len() + 5);
    }
    if state_key_of(a) == state_key_of(b) {
        lemma_ns_injective("jobs"@, a + ":state"@, b + ":state"@);
        assert((a + ":state"@).subrange(0, a.len() as int) =~= a);
        assert((b + ":state"@).subrange(0, b.len() as int) =~= b);
        assert((a + ":state"@).len() == a.len() + 6);
        assert((b + ":state"@).len() == b.len() + 6);
    }
}

/// The ids of the registry: none where no registry is kept.
pub open spec fn registry_at(held: Map<Seq<u8>, Seq<u8>>) -> Result<Seq<Seq<char>>, StoreError> {
    match typed::<Vec<String>>(held, registry_key_of()) {
        Ok(Some(ids)) => Ok(ids),
        Ok(None) => Ok(Seq::empty()),
        Err(e) => Err(e),
    }
}

/// The run state of a job as a tick reads it: the zero state where none is kept, a
/// fault where what is kept is no run state.
pub open spec fn state_at(held: Map<Seq<u8>, Seq<u8>>, id: Seq<char>) -> Result<
    JobState,
    StoreError,
> {
    match typed::<JobState>(held, state_key_of(id)) {
        Ok(Some(state)) => Ok(state),
        Ok(None) => Ok(JobState::zero()),
        Err(e) => Err(e),
    }
}

/// The state from which a finished run is counted: what is kept for the
/// job, the zero state where nothing is kept or what is kept is no state.
pub open spec fn prior_state(held: Map<Seq<u8>, Seq<u8>>, id: Seq<char>) -> JobState {
    match typed::<JobState>(held, state_key_of(id)) {
        Ok(Some(state)) => state,
        _ => JobState::zero(),
    }
}

} // verus!
