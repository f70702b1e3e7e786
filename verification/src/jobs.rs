//! The operations of the command surface on jobs: reading the registry,
//! listing, adding or replacing a job, deleting one, and seeding the demo
//! job.

use vstd::prelude::*;
use vstd::string::*;

use crate::codec::{KvSerde, StoreError, Stored};
use crate::format::{state_wire, texts_wire};
use crate::job::{texts, Action, ActionView, JobSpec, JobSpecView, JobState, LegacySpec};
use crate::keys::{
    lemma_keys_apart, prior_state, registry_at, registry_key, registry_key_of, spec_key,
    spec_key_of, state_key, state_key_of,
};
use crate::resolver::{resolve_spec, resolved_at};
use crate::store::{str_eq, written, Kv};

verus! {

/// A list of ids without every occurrence of `id`.
pub open spec fn without(ids: Seq<Seq<char>>, id: Seq<char>) -> Seq<Seq<char>>
    decreases ids.len(),
{
    if ids.len() == 0 {
        Seq::empty()
    } else if ids[0] == id {
        without(ids.drop_first(), id)
    } else {
        seq![ids[0]] + without(ids.drop_first(), id)
    }
}

/// Taking out an id that a list does not hold leaves the list as it was.
pub proof fn lemma_without_absent(ids: Seq<Seq<char>>, id: Seq<char>)
    requires
        !ids.contains(id),
    ensures
        without(ids, id) == ids,
    decreases ids.len(),
{
    if ids.len() > 0 {
        let tail = ids.drop_first();
        assert(ids[0] != id);
        assert forall|j: int| 0 <= j < tail.len() implies tail[j] != id by {
            assert(tail[j] == ids[j + 1]);
        }
        lemma_without_absent(tail, id);
        assert(seq![ids[0]] + tail =~= ids);
    }
}

/// Taking an id out of a list that can be written leaves a list that can
/// be written.
pub proof fn lemma_without_fits(ids: Seq<Seq<char>>, id: Seq<char>)
    requires
        crate::format::texts_fit(ids),
    ensures
        without(ids, id).len() <= ids.len(),
        crate::format::texts_fit(without(ids, id)),
    decreases ids.len(),
{
    if ids.len() > 0 {
        let tail = ids.drop_first();
        assert forall|j: int| 0 <= j < tail.len() implies crate::codec::text_fits(
            #[trigger] tail[j],
        ) by {
            assert(tail[j] == ids[j + 1]);
        }
        lemma_without_fits(tail, id);
        let kept = without(ids, id);
        assert forall|j: int| 0 <= j < kept.len() implies crate::codec::text_fits(
            #[trigger] kept[j],
        ) by {
            if ids[0] != id && j > 0 {
                assert(kept[j] == without(tail, id)[j - 1]);
            }
        }
    }
}

/// Reads the registry: the job ids in the order in which they were added,
/// none where no registry is kept.
pub fn registry<K: Kv>(kv: &K) -> (r: Result<Vec<String>, StoreError>)
    requires
        kv.valid(),
    ensures
        match r {
            Ok(ids) => registry_at(kv.contents()) == Ok::<Seq<Seq<char>>, StoreError>(
                texts(ids@),
            ),
            Err(e) => registry_at(kv.contents()) == Err::<Seq<Seq<char>>, StoreError>(e),
        },
{
    let key = registry_key();
    match kv.get_t::<Vec<String>>(key.as_slice()) {
        Ok(Some(ids)) => Ok(ids),
        Ok(None) => {
            let ids: Vec<String> = Vec::new();
            proof {
                assert(texts(ids@) =~= Seq::<Seq<char>>::empty());
            }
            Ok(ids)
        },
        Err(e) => Err(e),
    }
}

/// Whether a list of ids holds `id`.
pub fn holds(ids: &Vec<String>, id: &str) -> (found: bool)
    ensures
        found == texts(ids@).contains(id@),
{
    let mut i: usize = 0;
    while i < ids.len()
        invariant
            i <= ids.len(),
            forall|j: int| 0 <= j < i ==> texts(ids@)[j] != id@,
        decreases ids.len() - i,
    {
        if str_eq(ids[i].as_str(), id) {
            proof {
                assert(texts(ids@)[i as int] == id@);
            }
            return true;
        }
        i = i + 1;
    }
    false
}

/// A copy of a list of ids without every occurrence of `id`.
pub fn remove_id(ids: &Vec<String>, id: &str) -> (kept: Vec<String>)
    ensures
        texts(kept@) == without(texts(ids@), id@),
{
    let ghost all = texts(ids@);
    let mut kept: Vec<String> = Vec::new();
    let mut i: usize = 0;
    proof {
        assert(all.skip(0) =~= all);
        assert(texts(kept@) + without(all, id@) =~= without(all, id@));
    }
    while i < ids.len()
        invariant
            i <= ids.len(),
            all == texts(ids@),
            without(all, id@) == texts(kept@) + without(all.skip(i as int), id@),
        decreases ids.len() - i,
    {
        let ghost front = texts(kept@);
        let ghost here = all.skip(i as int);
        proof {
            assert(here[0] == ids@[i as int]@);
            assert(here.drop_first() =~= all.skip(i + 1));
        }
        if !str_eq(ids[i].as_str(), id) {
            kept.push(ids[i].clone());
            proof {
                let rest = without(all.skip(i + 1), id@);
                assert(texts(kept@) =~= front.push(here[0]));
                assert(front.push(here[0]) + rest =~= front + (seq![here[0]] + rest));
            }
        }
        i = i + 1;
    }
    proof {
        assert(all.skip(i as int) =~= Seq::<Seq<char>>::empty());
        assert(texts(kept@) + Seq::<Seq<char>>::empty() =~= texts(kept@));
    }
    kept
}

/// The store after the first `n` writes of an upsert. The writes are, in
/// order: the registry with the new id at its end, unless it holds the id
/// already; the specification; the zero state.
pub open spec fn upsert_after(
    before: Map<Seq<u8>, Seq<u8>>,
    ids: Seq<Seq<char>>,
    id: Seq<char>,
    spec_bytes: Seq<u8>,
    n: nat,
) -> Map<Seq<u8>, Seq<u8>> {
    let one = if n >= 1 && !ids.contains(id) {
        before.insert(registry_key_of(), texts_wire(ids.push(id)))
    } else {
        before
    };
    let two = if n >= 2 {
        one.insert(spec_key_of(id), spec_bytes)
    } else {
        one
    };
    if n >= 3 {
        two.insert(state_key_of(id), state_wire(JobState::zero()))
    } else {
        two
    }
}

/// What an upsert does. A registry that cannot be read stops it before
/// anything is written. Otherwise it succeeds where the store takes all
/// three writes; a write that the store refuses ends it with that error,
/// the writes before it done. A reliable store refuses none.
pub open spec fn upserted(
    before: Map<Seq<u8>, Seq<u8>>,
    after: Map<Seq<u8>, Seq<u8>>,
    reliable: bool,
    id: Seq<char>,
    spec_bytes: Seq<u8>,
    r: Result<(), StoreError>,
) -> bool {
    match registry_at(before) {
        Err(e) => r == Err::<(), StoreError>(e) && after == before,
        Ok(ids) => match r {
            Ok(_) => after == upsert_after(before, ids, id, spec_bytes, 3),
            Err(e) => {
                &&& e == StoreError::Io
                &&& !reliable
                &&& (after == upsert_after(before, ids, id, spec_bytes, 0) || after
                    == upsert_after(before, ids, id, spec_bytes, 1) || after == upsert_after(
                    before,
                    ids,
                    id,
                    spec_bytes,
                    2,
                ))
            },
        },
    }
}

/// Adds or replaces a job whose specification is kept in the form `T`:
/// appends the id to the registry if it is new, replaces the specification,
/// and resets the run state to zero.
pub fn upsert<K: Kv, T: Stored>(kv: &mut K, id: &str, spec: &T) -> (r: Result<(), StoreError>)
    requires
        old(kv).valid(),
    ensures
        final(kv).valid(),
        final(kv).reliable() == old(kv).reliable(),
        upserted(
            old(kv).contents(),
            final(kv).contents(),
            old(kv).reliable(),
            id@,
            T::wire(spec.model()),
            r,
        ),
{
    let mut ids = match registry(kv) {
        Ok(ids) => ids,
        Err(e) => {
            return Err(e);
        },
    };
    let ghost known = texts(ids@);
    if !holds(&ids, id) {
        ids.push(String::from_str(id));
        proof {
            assert(texts(ids@) =~= known.push(id@));
        }
        let key = registry_key();
        match kv.put_t(key.as_slice(), &ids) {
            Ok(_) => {},
            Err(e) => {
                return Err(e);
            },
        }
    }
    let skey = spec_key(id);
    match kv.put_t(skey.as_slice(), spec) {
        Ok(_) => {},
        Err(e) => {
            return Err(e);
        },
    }
    let tkey = state_key(id);
    let zero = JobState::default();
    kv.put_t(tkey.as_slice(), &zero)
}

/// After an upsert that succeeded the job is in the registry, at its end
/// if it is new and where it was otherwise, so that a registry without
/// duplicates stays without; it resolves to the new
/// specification and starts from the zero state, whatever state it had
/// before; and every other job keeps its specification and its state. On
/// a reliable store an upsert succeeds whenever the registry can be read.
pub proof fn law_upsert_resets(
    before: Map<Seq<u8>, Seq<u8>>,
    after: Map<Seq<u8>, Seq<u8>>,
    reliable: bool,
    id: Seq<char>,
    spec: JobSpecView,
    r: Result<(), StoreError>,
    other: Seq<char>,
)
    requires
        crate::format::action_fits(spec.action),
        upserted(before, after, reliable, id, crate::format::spec_wire(spec), r),
        registry_at(before) matches Ok(ids) ==> crate::format::texts_fit(ids.push(id)),
    ensures
        reliable ==> (r is Ok <==> registry_at(before) is Ok),
        r is Ok ==> {
            &&& registry_at(before) matches Ok(ids)
            &&& registry_at(after) == Ok::<Seq<Seq<char>>, StoreError>(
                if ids.contains(id) {
                    ids
                } else {
                    ids.push(id)
                },
            )
            &&& ids.no_duplicates() ==> (if ids.contains(id) {
                ids
            } else {
                ids.push(id)
            }).no_duplicates()
            &&& resolved_at(after, id) == Some(spec)
            &&& crate::keys::state_at(after, id) == Ok::<JobState, StoreError>(JobState::zero())
            &&& other != id ==> resolved_at(after, other) == resolved_at(before, other)
                && crate::keys::state_at(after, other) == crate::keys::state_at(before, other)
        },
{
    lemma_keys_apart(id, id);
    lemma_keys_apart(other, id);
    lemma_keys_apart(id, other);
    crate::keys::lemma_keys_injective(other, id);
    JobSpec::round_trip(spec);
    JobState::round_trip(JobState::zero());
    if let Ok(ids) = registry_at(before) {
        Vec::<String>::round_trip(ids.push(id));
    }
}

/// Adds or replaces a job: appends the id to the registry if it is new,
/// replaces the specification, and resets the run state to zero.
pub fn upsert_job<K: Kv>(kv: &mut K, id: &str, spec: JobSpec) -> (r: Result<(), StoreError>)
    requires
        old(kv).valid(),
    ensures
        final(kv).valid(),
        final(kv).reliable() == old(kv).reliable(),
        upserted(
            old(kv).contents(),
            final(kv).contents(),
            old(kv).reliable(),
            id@,
            crate::format::spec_wire(spec@),
            r,
        ),
{
    upsert(kv, id, &spec)
}

/// Adds or replaces a job given in the legacy form, which is kept as it
/// is and resolved when it is read.
pub fn upsert_legacy_job<K: Kv>(kv: &mut K, id: &str, spec: LegacySpec) -> (r: Result<
    (),
    StoreError,
>)
    requires
        old(kv).valid(),
    ensures
        final(kv).valid(),
        final(kv).reliable() == old(kv).reliable(),
        upserted(
            old(kv).contents(),
            final(kv).contents(),
            old(kv).reliable(),
            id@,
            crate::format::legacy_wire(spec@),
            r,
        ),
{
    upsert(kv, id, &spec)
}

/// What is left once the specification and the state of a job are deleted.
pub open spec fn stripped(held: Map<Seq<u8>, Seq<u8>>, id: Seq<char>) -> Map<Seq<u8>, Seq<u8>> {
    held.remove(spec_key_of(id)).remove(state_key_of(id))
}

/// What deleting a job does: its specification and state go; then the id
/// is taken out of the registry, which is written back only where it held
/// the id. A registry that cannot be read is left as it is, and reported;
/// so is a registry that the store refuses to write back.
pub open spec fn job_deleted(
    before: Map<Seq<u8>, Seq<u8>>,
    after: Map<Seq<u8>, Seq<u8>>,
    reliable: bool,
    id: Seq<char>,
    r: Result<(), StoreError>,
) -> bool {
    let bare = stripped(before, id);
    match registry_at(bare) {
        Err(e) => r == Err::<(), StoreError>(e) && after == bare,
        Ok(ids) => if ids.contains(id) {
            written(bare, after, reliable, registry_key_of(), texts_wire(without(ids, id)), r)
        } else {
            r is Ok && after == bare
        },
    }
}

/// Deletes a job: its specification, its state, and its id in the
/// registry. Deleting a job that does not exist changes nothing and is no
/// error.
pub fn del_job<K: Kv>(kv: &mut K, id: &str) -> (r: Result<(), StoreError>)
    requires
        old(kv).valid(),
    ensures
        final(kv).valid(),
        final(kv).reliable() == old(kv).reliable(),
        job_deleted(old(kv).contents(), final(kv).contents(), old(kv).reliable(), id@, r),
{
    let skey = spec_key(id);
    let _ = kv.delete(skey.as_slice());
    let tkey = state_key(id);
    let _ = kv.delete(tkey.as_slice());
    let ids = match registry(kv) {
        Ok(ids) => ids,
        Err(e) => {
            return Err(e);
        },
    };
    if holds(&ids, id) {
        let kept = remove_id(&ids, id);
        let key = registry_key();
        kv.put_t(key.as_slice(), &kept)
    } else {
        Ok(())
    }
}

/// After a delete that succeeded the job is gone: the registry reads
/// without its id, the order of the others kept, and neither its
/// specification nor its state is held; every other job keeps both. On a
/// reliable store a delete succeeds whenever the registry can be read.
pub proof fn law_delete_removes(
    before: Map<Seq<u8>, Seq<u8>>,
    after: Map<Seq<u8>, Seq<u8>>,
    reliable: bool,
    id: Seq<char>,
    r: Result<(), StoreError>,
    other: Seq<char>,
)
    requires
        job_deleted(before, after, reliable, id, r),
    ensures
        reliable ==> (r is Ok <==> registry_at(before) is Ok),
        !after.contains_key(spec_key_of(id)),
        !after.contains_key(state_key_of(id)),
        r is Ok ==> (registry_at(before) matches Ok(ids) && registry_at(after) == Ok::<
            Seq<Seq<char>>,
            StoreError,
        >(without(ids, id))),
        other != id ==> resolved_at(after, other) == resolved_at(before, other)
            && crate::keys::state_at(after, other) == crate::keys::state_at(before, other),
{
    lemma_keys_apart(id, id);
    lemma_keys_apart(other, id);
    lemma_keys_apart(id, other);
    crate::keys::lemma_keys_injective(other, id);
    let bare = stripped(before, id);
    assert(bare.contains_key(registry_key_of()) == before.contains_key(registry_key_of()));
    if let Ok(ids) = registry_at(bare) {
        if ids.contains(id) {
            crate::format::lemma_parsed_texts_fit(bare[registry_key_of()]);
            lemma_without_fits(ids, id);
            Vec::<String>::round_trip(without(ids, id));
        } else {
            lemma_without_absent(ids, id);
        }
    }
}

/// Deleting a job that does not exist is a no-op: it raises no error and
/// leaves the registry unchanged, and where the job has neither
/// specification nor state the whole store stays as it was.
pub proof fn law_delete_absent(
    before: Map<Seq<u8>, Seq<u8>>,
    after: Map<Seq<u8>, Seq<u8>>,
    reliable: bool,
    id: Seq<char>,
    r: Result<(), StoreError>,
)
    requires
        job_deleted(before, after, reliable, id, r),
        registry_at(before) matches Ok(ids) && !ids.contains(id),
    ensures
        r is Ok,
        registry_at(after) == registry_at(before),
        !before.contains_key(spec_key_of(id)) && !before.contains_key(state_key_of(id))
            ==> after == before,
{
    lemma_keys_apart(id, id);
    let bare = stripped(before, id);
    assert(bare.contains_key(registry_key_of()) == before.contains_key(registry_key_of()));
    if !before.contains_key(spec_key_of(id)) && !before.contains_key(state_key_of(id)) {
        assert(bare =~= before);
    }
}

/// One job of a listing.
#[derive(Clone, Debug, PartialEq, Eq)]
pub struct JobView {
    /// The job's id.
    pub id: String,
    /// Its specification, resolved.
    pub spec: JobSpec,
    /// Its run state, zero where none is kept.
    pub state: JobState,
}

/// The mathematical content of a [`JobView`].
pub struct JobListing {
    pub id: Seq<char>,
    pub spec: JobSpecView,
    pub state: JobState,
}

impl View for JobView {
    type V = JobListing;

    open spec fn view(&self) -> JobListing {
        JobListing { id: self.id@, spec: self.spec@, state: self.state }
    }
}

/// The content of each job of a list.
pub open spec fn listings(v: Seq<JobView>) -> Seq<JobListing> {
    Seq::new(v.len(), |i: int| v[i]@)
}

/// The listing of the jobs `ids`: each job whose specification resolves,
/// in order, with its state; the others are passed over.
pub open spec fn listed(held: Map<Seq<u8>, Seq<u8>>, ids: Seq<Seq<char>>) -> Seq<JobListing>
    decreases ids.len(),
{
    if ids.len() == 0 {
        Seq::empty()
    } else {
        match resolved_at(held, ids[0]) {
            None => listed(held, ids.drop_first()),
            Some(spec) => seq![
                JobListing { id: ids[0], spec, state: prior_state(held, ids[0]) },
            ] + listed(held, ids.drop_first()),
        }
    }
}

/// Lists the jobs of the registry whose specification resolves, each with
/// its state.
pub fn list_jobs<K: Kv>(kv: &K) -> (r: Result<Vec<JobView>, StoreError>)
    requires
        kv.valid(),
    ensures
        match registry_at(kv.contents()) {
            Ok(ids) => r matches Ok(jobs) && listings(jobs@) == listed(kv.contents(), ids),
            Err(e) => r matches Err(f) && f == e,
        },
{
    let ids = match registry(kv) {
        Ok(ids) => ids,
        Err(e) => {
            return Err(e);
        },
    };
    let ghost held = kv.contents();
    let ghost all = texts(ids@);
    let mut out: Vec<JobView> = Vec::new();
    let mut i: usize = 0;
    proof {
        assert(all.skip(0) =~= all);
        assert(listings(out@) + listed(held, all) =~= listed(held, all));
    }
    while i < ids.len()
        invariant
            i <= ids.len(),
            kv.valid(),
            held == kv.contents(),
            all == texts(ids@),
            listed(held, all) == listings(out@) + listed(held, all.skip(i as int)),
        decreases ids.len() - i,
    {
        let id = &ids[i];
        let ghost front = listings(out@);
        let ghost here = all.skip(i as int);
        proof {
            assert(here[0] == id@);
            assert(here.drop_first() =~= all.skip(i + 1));
        }
        match resolve_spec(kv, id.as_str()) {
            Some(spec) => {
                let tkey = state_key(id.as_str());
                let state = match kv.get_t::<JobState>(tkey.as_slice()) {
                    Ok(Some(state)) => state,
                    _ => JobState::default(),
                };
                let job = JobView { id: id.clone(), spec, state };
                let ghost jv = job@;
                out.push(job);
                proof {
                    let rest = listed(held, all.skip(i + 1));
                    assert(listings(out@) =~= front.push(jv));
                    assert(front.push(jv) + rest =~= front + (seq![jv] + rest));
                }
            },
            None => {},
        }
        i = i + 1;
    }
    proof {
        assert(all.skip(i as int) =~= Seq::<Seq<char>>::empty());
        assert(listings(out@) + Seq::<JobListing>::empty() =~= listings(out@));
    }
    Ok(out)
}

/// The demo job: a `Noop` every three seconds.
pub open spec fn demo_spec() -> JobSpecView {
    JobSpecView { period_ms: 3000, action: ActionView::Noop }
}

/// What seeding does. A registry that cannot be read stops it, and one
/// that holds the demo job already leaves nothing to do. Otherwise the
/// registry gets the id, then the specification is written; a write that
/// the store refuses ends the seeding with that error.
pub open spec fn seeded(
    before: Map<Seq<u8>, Seq<u8>>,
    after: Map<Seq<u8>, Seq<u8>>,
    reliable: bool,
    r: Result<bool, StoreError>,
) -> bool {
    match registry_at(before) {
        Err(e) => r == Err::<bool, StoreError>(e) && after == before,
        Ok(ids) => if ids.contains("demo"@) {
            r == Ok::<bool, StoreError>(false) && after == before
        } else {
            let one = before.insert(registry_key_of(), texts_wire(ids.push("demo"@)));
            match r {
                Ok(did) => did && after == one.insert(
                    spec_key_of("demo"@),
                    crate::format::spec_wire(demo_spec()),
                ),
                Err(e) => e == StoreError::Io && !reliable && (after == before || after == one),
            }
        },
    }
}

/// Seeds the demo job `demo` unless the registry holds it already; tells
/// whether it did.
pub fn seed_demo_job<K: Kv>(kv: &mut K) -> (r: Result<bool, StoreError>)
    requires
        old(kv).valid(),
    ensures
        final(kv).valid(),
        final(kv).reliable() == old(kv).reliable(),
        seeded(old(kv).contents(), final(kv).contents(), old(kv).reliable(), r),
{
    let mut ids = match registry(kv) {
        Ok(ids) => ids,
        Err(e) => {
            return Err(e);
        },
    };
    let ghost known = texts(ids@);
    if holds(&ids, "demo") {
        return Ok(false);
    }
    ids.push(String::from_str("demo"));
    proof {
        assert(texts(ids@) =~= known.push("demo"@));
    }
    let key = registry_key();
    match kv.put_t(key.as_slice(), &ids) {
        Ok(_) => {},
        Err(e) => {
            return Err(e);
        },
    }
    let spec = JobSpec { period_ms: 3000, action: Action::Noop };
    let skey = spec_key("demo");
    match kv.put_t(skey.as_slice(), &spec) {
        Ok(_) => Ok(true),
        Err(e) => Err(e),
    }
}

/// Once the demo job was seeded it is registered, at the registry's end,
/// and resolves to a `Noop` every three seconds. On a reliable store
/// seeding fails only where the registry cannot be read.
pub proof fn law_seeded_resolves(
    before: Map<Seq<u8>, Seq<u8>>,
    after: Map<Seq<u8>, Seq<u8>>,
    reliable: bool,
    r: Result<bool, StoreError>,
)
    requires
        seeded(before, after, reliable, r),
        registry_at(before) matches Ok(ids) ==> crate::format::texts_fit(ids.push("demo"@)),
    ensures
        reliable ==> (r is Ok <==> registry_at(before) is Ok),
        r == Ok::<bool, StoreError>(true) ==> (registry_at(before) matches Ok(ids) && registry_at(
            after,
        ) == Ok::<Seq<Seq<char>>, StoreError>(ids.push("demo"@)) && resolved_at(after, "demo"@)
            == Some(demo_spec())),
{
    lemma_keys_apart("demo"@, "demo"@);
    JobSpec::round_trip(demo_spec());
    if let Ok(ids) = registry_at(before) {
        Vec::<String>::round_trip(ids.push("demo"@));
    }
}

} // verus!
