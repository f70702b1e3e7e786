//! The scheduler: due-ness, the concurrency gate, dispatch decisions and the
//! backoff state machine.

use vstd::prelude::*;

use crate::codec::{KvSerde, StoreError, Stored};
use crate::format::state_wire;
use crate::job::{texts, JobSpec, JobSpecView, JobState};
use crate::keys::{
    lemma_keys_apart, lemma_keys_injective, prior_state, registry_at, registry_key, state_at,
    state_key, state_key_of,
};
use crate::resolver::{resolve_spec, resolved_at};
use crate::runner::ExecutionError;
use crate::store::{written, Kv};

verus! {

/// The ceiling of every backoff unless another is asked for, in milliseconds.
pub const DEFAULT_MAX_BACKOFF_MS: u64 = 60_000;

/// A cooperative scheduler of the periodic jobs kept in the store.
#[derive(Clone, Copy, Debug)]
pub struct Scheduler {
    tick_ms: u64,
    max_concurrency: usize,
    max_backoff_ms: u64,
}

impl Scheduler {
    /// A scheduler that polls every `tick_ms` milliseconds and lets at most
    /// `max_concurrency` executions run at once; backoff is capped at one
    /// minute.
    pub fn new(tick_ms: u64, max_concurrency: usize) -> (s: Scheduler)
        ensures
            s.tick_ms() == tick_ms,
            s.max_concurrency() == max_concurrency,
            s.max_backoff_ms() == DEFAULT_MAX_BACKOFF_MS,
    {
        Scheduler { tick_ms, max_concurrency, max_backoff_ms: DEFAULT_MAX_BACKOFF_MS }
    }

    /// Milliseconds between two ticks.
    #[verifier::when_used_as_spec(spec_tick_ms)]
    pub fn tick_ms(&self) -> (ms: u64)
        ensures
            ms == self.tick_ms(),
    {
        self.tick_ms
    }

    pub closed spec fn spec_tick_ms(&self) -> u64 {
        self.tick_ms
    }

    /// The number of executions that may run at once.
    #[verifier::when_used_as_spec(spec_max_concurrency)]
    pub fn max_concurrency(&self) -> (n: usize)
        ensures
            n == self.max_concurrency(),
    {
        self.max_concurrency
    }

    pub closed spec fn spec_max_concurrency(&self) -> usize {
        self.max_concurrency
    }

    /// The ceiling of a job's backoff, in milliseconds.
    #[verifier::when_used_as_spec(spec_max_backoff_ms)]
    pub fn max_backoff_ms(&self) -> (ms: u64)
        ensures
            ms == self.max_backoff_ms(),
    {
        self.max_backoff_ms
    }

    pub closed spec fn spec_max_backoff_ms(&self) -> u64 {
        self.max_backoff_ms
    }
}

/// The period that counts for a job: its backoff while one is active, its
/// own period otherwise.
pub open spec fn effective_period(state: JobState, period_ms: u64) -> u64 {
    if state.backoff_ms > 0 {
        state.backoff_ms
    } else {
        period_ms
    }
}

/// The time since the last run; none where the clock seems to have moved
/// backward.
pub open spec fn elapsed(now: u64, last_run_ms: u64) -> u64 {
    if now >= last_run_ms {
        (now - last_run_ms) as u64
    } else {
        0
    }
}

/// Whether a job is due: the time since its last run has reached its
/// effective period.
pub open spec fn due(state: JobState, period_ms: u64, now: u64) -> bool {
    elapsed(now, state.last_run_ms) >= effective_period(state, period_ms)
}

/// Twice a number, clamped to what 64 bits hold.
pub open spec fn doubled(n: u64) -> u64 {
    if n > u64::MAX / 2 {
        u64::MAX
    } else {
        (n * 2) as u64
    }
}

/// One more than a number, clamped to what 64 bits hold.
pub open spec fn bumped(n: u64) -> u64 {
    if n == u64::MAX {
        u64::MAX
    } else {
        (n + 1) as u64
    }
}

/// The backoff after a failure: twice the larger of the current backoff and
/// the period, and never more than the ceiling.
pub open spec fn next_backoff(backoff_ms: u64, period_ms: u64, max_backoff_ms: u64) -> u64 {
    let base = if backoff_ms >= period_ms {
        backoff_ms
    } else {
        period_ms
    };
    if doubled(base) <= max_backoff_ms {
        doubled(base)
    } else {
        max_backoff_ms
    }
}

/// The state after a successful run that ended at `now`.
pub open spec fn after_success(state: JobState, now: u64) -> JobState {
    JobState { last_run_ms: now, runs: bumped(state.runs), failures: 0, backoff_ms: 0 }
}

/// The state after a failed run that ended at `now`.
pub open spec fn after_failure(
    state: JobState,
    period_ms: u64,
    max_backoff_ms: u64,
    now: u64,
) -> JobState {
    JobState {
        last_run_ms: now,
        runs: state.runs,
        failures: bumped(state.failures),
        backoff_ms: next_backoff(state.backoff_ms, period_ms, max_backoff_ms),
    }
}

/// The state after a run that ended at `now`.
pub open spec fn after_run(
    state: JobState,
    period_ms: u64,
    max_backoff_ms: u64,
    succeeded: bool,
    now: u64,
) -> JobState {
    if succeeded {
        after_success(state, now)
    } else {
        after_failure(state, period_ms, max_backoff_ms, now)
    }
}

/// Whether a job is due at `now`.
pub fn is_due(state: &JobState, period_ms: u64, now: u64) -> (r: bool)
    ensures
        r == due(*state, period_ms, now),
{
    let effective = if state.backoff_ms > 0 {
        state.backoff_ms
    } else {
        period_ms
    };
    let waited = if now >= state.last_run_ms {
        now - state.last_run_ms
    } else {
        0
    };
    waited >= effective
}

/// The state that follows a run. A success counts one more run and clears
/// failures and backoff together; a failure counts one more failure and
/// lengthens the backoff. Counters clamp instead of wrapping.
pub fn next_state(
    state: &JobState,
    period_ms: u64,
    max_backoff_ms: u64,
    succeeded: bool,
    now: u64,
) -> (next: JobState)
    ensures
        next == after_run(*state, period_ms, max_backoff_ms, succeeded, now),
        succeeded ==> next.failures == 0 && next.backoff_ms == 0,
        !succeeded ==> next.backoff_ms <= max_backoff_ms,
{
    if succeeded {
        let runs = if state.runs == u64::MAX {
            u64::MAX
        } else {
            state.runs + 1
        };
        JobState { last_run_ms: now, runs, failures: 0, backoff_ms: 0 }
    } else {
        let failures = if state.failures == u64::MAX {
            u64::MAX
        } else {
            state.failures + 1
        };
        let base = if state.backoff_ms >= period_ms {
            state.backoff_ms
        } else {
            period_ms
        };
        let twice = if base > u64::MAX / 2 {
            u64::MAX
        } else {
            base * 2
        };
        let backoff_ms = if twice <= max_backoff_ms {
            twice
        } else {
            max_backoff_ms
        };
        JobState { last_run_ms: now, runs: state.runs, failures, backoff_ms }
    }
}

/// A success clears failures and backoff in the same update.
pub proof fn law_success_resets(state: JobState, now: u64)
    ensures
        after_success(state, now).failures == 0,
        after_success(state, now).backoff_ms == 0,
        after_success(state, now).last_run_ms == now,
{
}

/// After a failure the backoff is
/// `min(max(backoff, period) * 2, max_backoff)`, the product clamped, and so
/// never above the ceiling.
pub proof fn law_failure_backoff(state: JobState, period_ms: u64, max_backoff_ms: u64, now: u64)
    ensures
        ({
            let base = vstd::math::max(state.backoff_ms as int, period_ms as int);
            let twice = vstd::math::min(base * 2, u64::MAX as int);
            after_failure(state, period_ms, max_backoff_ms, now).backoff_ms == vstd::math::min(
                twice,
                max_backoff_ms as int,
            )
        }),
        after_failure(state, period_ms, max_backoff_ms, now).backoff_ms <= max_backoff_ms,
{
}

/// A failure never shortens a backoff that is within the ceiling.
pub proof fn law_backoff_grows(backoff_ms: u64, period_ms: u64, max_backoff_ms: u64)
    requires
        backoff_ms <= max_backoff_ms,
    ensures
        next_backoff(backoff_ms, period_ms, max_backoff_ms) >= backoff_ms,
{
}

/// Across consecutive failures, with no success between them, the backoff
/// never decreases: what the second failure leaves is at least what the
/// first left, whatever the state before them.
pub proof fn law_consecutive_failures(
    state: JobState,
    period_ms: u64,
    max_backoff_ms: u64,
    first: u64,
    second: u64,
)
    ensures
        ({
            let one = after_failure(state, period_ms, max_backoff_ms, first);
            let two = after_failure(one, period_ms, max_backoff_ms, second);
            two.backoff_ms >= one.backoff_ms
        }),
{
}

/// The concurrency gate: so many executions may run at once, and so many
/// permits are left.
#[derive(Debug)]
pub struct Permits {
    capacity: usize,
    left: usize,
}

impl Permits {
    #[verifier::type_invariant]
    spec fn within(&self) -> bool {
        self.left <= self.capacity
    }

    /// How many executions may run at once.
    pub closed spec fn capacity(&self) -> nat {
        self.capacity as nat
    }

    /// How many executions are running: the permits that are not left.
    pub closed spec fn in_use(&self) -> nat {
        if self.left <= self.capacity {
            (self.capacity - self.left) as nat
        } else {
            0
        }
    }

    /// How many more executions may start.
    pub open spec fn available(&self) -> nat {
        (self.capacity() - self.in_use()) as nat
    }

    /// The number of executions running never exceeds the capacity.
    pub proof fn law_never_over_capacity(&self)
        ensures
            self.in_use() <= self.capacity(),
            self.in_use() + self.available() == self.capacity(),
    {
    }

    /// A gate for `capacity` executions, none of them running.
    pub fn new(capacity: usize) -> (p: Permits)
        ensures
            p.capacity() == capacity,
            p.in_use() == 0,
    {
        Permits { capacity, left: capacity }
    }

    /// How many more executions may start.
    pub fn free(&self) -> (n: usize)
        ensures
            n == self.available(),
    {
        proof {
            use_type_invariant(self);
        }
        self.left
    }

    /// How many executions are running.
    pub fn running(&self) -> (n: usize)
        ensures
            n == self.in_use(),
    {
        proof {
            use_type_invariant(self);
        }
        self.capacity - self.left
    }

    /// Takes one permit if one is left; never waits.
    pub fn try_acquire(&mut self) -> (taken: bool)
        ensures
            taken == (old(self).available() > 0),
            final(self).capacity() == old(self).capacity(),
            final(self).in_use() == old(self).in_use() + if taken { 1nat } else { 0nat },
    {
        proof {
            use_type_invariant(&*self);
        }
        if self.left > 0 {
            self.left = self.left - 1;
            true
        } else {
            false
        }
    }

    /// Gives one permit back; a gate with nothing running stays as it is.
    pub fn release(&mut self)
        ensures
            final(self).capacity() == old(self).capacity(),
            final(self).in_use() == if old(self).in_use() > 0 {
                (old(self).in_use() - 1) as nat
            } else {
                0nat
            },
    {
        proof {
            use_type_invariant(&*self);
        }
        if self.left < self.capacity {
            self.left = self.left + 1;
        }
    }
}

/// A job that a tick decided to run.
#[derive(Clone, Debug, PartialEq, Eq)]
pub struct Dispatch {
    /// The job's id.
    pub id: String,
    /// The job's specification, as resolved at the tick.
    pub spec: JobSpec,
}

/// The mathematical content of a [`Dispatch`].
pub struct DispatchView {
    pub id: Seq<char>,
    pub spec: JobSpecView,
}

impl View for Dispatch {
    type V = DispatchView;

    open spec fn view(&self) -> DispatchView {
        DispatchView { id: self.id@, spec: self.spec@ }
    }
}

/// The content of each dispatch of a list.
pub open spec fn dispatches(v: Seq<Dispatch>) -> Seq<DispatchView> {
    Seq::new(v.len(), |i: int| v[i]@)
}

/// What one tick did: the jobs to run, in registry order, and the fault
/// that stopped it, if one did.
#[derive(Debug)]
pub struct Tick {
    /// The jobs to run; each of them holds one permit.
    pub dispatched: Vec<Dispatch>,
    /// The fault that ended the tick before the registry was through.
    pub fault: Option<StoreError>,
}

/// What recording the end of a run gave: the job's new state, and the
/// store's answer to writing it.
#[derive(Clone, Copy, Debug, PartialEq, Eq)]
pub struct Completion {
    /// The state of the job after the run.
    pub state: JobState,
    /// Whether the store took the new state.
    pub stored: Result<(), StoreError>,
}

/// What a tick decides of one job.
pub enum Decision {
    /// Nothing: the job has no specification that resolves, is not due, or
    /// no permit is left.
    Skip,
    /// The job runs, with this specification.
    Run(JobSpecView),
    /// The tick stops on this fault.
    Fault(StoreError),
}

/// The decision of a tick on job `id`, with `free` permits left.
pub open spec fn decide(held: Map<Seq<u8>, Seq<u8>>, id: Seq<char>, now: u64, free: nat) -> Decision {
    match resolved_at(held, id) {
        None => Decision::Skip,
        Some(spec) => match state_at(held, id) {
            Err(e) => Decision::Fault(e),
            Ok(state) => if due(state, spec.period_ms, now) && free > 0 {
                Decision::Run(spec)
            } else {
                Decision::Skip
            },
        },
    }
}

/// Dispatches put in front of the outcome of the rest of a tick.
pub open spec fn ahead(
    front: Seq<DispatchView>,
    rest: (Seq<DispatchView>, Option<StoreError>),
) -> (Seq<DispatchView>, Option<StoreError>) {
    (front + rest.0, rest.1)
}

/// The outcome of a tick over the jobs `ids`, in order, with `free` permits
/// at its start: every job that resolves, is due and finds a permit is
/// dispatched; a fault ends the tick and keeps what was dispatched.
pub open spec fn plan(held: Map<Seq<u8>, Seq<u8>>, ids: Seq<Seq<char>>, now: u64, free: nat) -> (
    Seq<DispatchView>,
    Option<StoreError>,
)
    decreases ids.len(),
{
    if ids.len() == 0 {
        (Seq::empty(), None)
    } else {
        match decide(held, ids[0], now, free) {
            Decision::Skip => plan(held, ids.drop_first(), now, free),
            Decision::Fault(e) => (Seq::empty(), Some(e)),
            Decision::Run(spec) => ahead(
                seq![DispatchView { id: ids[0], spec }],
                plan(held, ids.drop_first(), now, (free - 1) as nat),
            ),
        }
    }
}

/// The outcome of a tick on a store.
pub open spec fn ticked(held: Map<Seq<u8>, Seq<u8>>, now: u64, free: nat) -> (
    Seq<DispatchView>,
    Option<StoreError>,
) {
    match registry_at(held) {
        Ok(ids) => plan(held, ids, now, free),
        Err(e) => (Seq::empty(), Some(e)),
    }
}

/// The ground on which a job was dispatched: its specification resolved,
/// its state could be read, and it was due.
pub open spec fn rightly_dispatched(held: Map<Seq<u8>, Seq<u8>>, d: DispatchView, now: u64) -> bool {
    &&& resolved_at(held, d.id) == Some(d.spec)
    &&& state_at(held, d.id) is Ok
    &&& due(state_at(held, d.id)->Ok_0, d.spec.period_ms, now)
}

/// A tick dispatches no more jobs than permits were free, and every job it
/// dispatches resolved and was due.
pub proof fn law_plan_sound(held: Map<Seq<u8>, Seq<u8>>, ids: Seq<Seq<char>>, now: u64, free: nat)
    ensures
        plan(held, ids, now, free).0.len() <= free,
        forall|i: int|
            0 <= i < plan(held, ids, now, free).0.len() ==> rightly_dispatched(
                held,
                #[trigger] plan(held, ids, now, free).0[i],
                now,
            ),
        forall|i: int|
            0 <= i < plan(held, ids, now, free).0.len() ==> ids.contains(
                (#[trigger] plan(held, ids, now, free).0[i]).id,
            ),
    decreases ids.len(),
{
    if ids.len() > 0 {
        let tail = ids.drop_first();
        match decide(held, ids[0], now, free) {
            Decision::Skip => {
                law_plan_sound(held, tail, now, free);
                assert forall|i: int| 0 <= i < plan(held, ids, now, free).0.len() implies ids.contains(
                    (#[trigger] plan(held, ids, now, free).0[i]).id,
                ) by {
                    let id = plan(held, tail, now, free).0[i].id;
                    let j = choose|j: int| 0 <= j < tail.len() && tail[j] == id;
                    assert(ids[j + 1] == id);
                }
            },
            Decision::Fault(e) => {},
            Decision::Run(spec) => {
                let less = (free - 1) as nat;
                law_plan_sound(held, tail, now, less);
                let rest = plan(held, tail, now, less).0;
                let all = plan(held, ids, now, free).0;
                assert(all == seq![DispatchView { id: ids[0], spec }] + rest);
                assert forall|i: int| 0 <= i < all.len() implies rightly_dispatched(
                    held,
                    #[trigger] all[i],
                    now,
                ) && ids.contains(all[i].id) by {
                    if i > 0 {
                        assert(all[i] == rest[i - 1]);
                        let id = rest[i - 1].id;
                        let j = choose|j: int| 0 <= j < tail.len() && tail[j] == id;
                        assert(ids[j + 1] == id);
                    } else {
                        assert(ids[0] == all[0].id);
                    }
                }
            },
        }
    }
}

/// A job whose specification does not resolve is passed over: it raises
/// no fault and is never dispatched, so that nothing is recorded for it.
pub proof fn law_unresolved_skipped(
    held: Map<Seq<u8>, Seq<u8>>,
    now: u64,
    free: nat,
    id: Seq<char>,
)
    requires
        resolved_at(held, id) is None,
    ensures
        decide(held, id, now, free) == Decision::Skip,
        forall|i: int|
            0 <= i < ticked(held, now, free).0.len() ==> (#[trigger] ticked(
                held,
                now,
                free,
            ).0[i]).id != id,
{
    match registry_at(held) {
        Ok(ids) => {
            law_plan_sound(held, ids, now, free);
        },
        Err(e) => {},
    }
}

/// The due check never fires early: a job for which less time has passed
/// than its effective period is not dispatched.
pub proof fn law_never_premature(
    held: Map<Seq<u8>, Seq<u8>>,
    now: u64,
    free: nat,
    id: Seq<char>,
    state: JobState,
    spec: JobSpecView,
)
    requires
        resolved_at(held, id) == Some(spec),
        state_at(held, id) == Ok::<JobState, StoreError>(state),
        elapsed(now, state.last_run_ms) < effective_period(state, spec.period_ms),
    ensures
        forall|i: int|
            0 <= i < ticked(held, now, free).0.len() ==> (#[trigger] ticked(
                held,
                now,
                free,
            ).0[i]).id != id,
{
    match registry_at(held) {
        Ok(ids) => {
            law_plan_sound(held, ids, now, free);
        },
        Err(e) => {},
    }
}

/// A tick starts no more executions than permits were free: a saturated
/// scheduler passes the remaining due jobs over.
pub proof fn law_dispatch_bounded(held: Map<Seq<u8>, Seq<u8>>, now: u64, free: nat)
    ensures
        ticked(held, now, free).0.len() <= free,
        free == 0 ==> ticked(held, now, free).0.len() == 0,
{
    match registry_at(held) {
        Ok(ids) => {
            law_plan_sound(held, ids, now, free);
        },
        Err(e) => {},
    }
}

/// The clock of a tick: the milliseconds since the epoch, as a 64-bit
/// number. A clock that stands before the epoch reads 0; of a count that
/// 64 bits do not hold, the low 64 bits are kept.
pub fn millis_since_epoch(elapsed: Option<u128>) -> (ms: u64)
    ensures
        ms == match elapsed {
            None => 0,
            Some(m) => m % 0x1_0000_0000_0000_0000,
        },
{
    match elapsed {
        None => 0,
        Some(m) => {
            let low: u128 = m % 0x1_0000_0000_0000_0000u128;
            low as u64
        },
    }
}

impl Scheduler {
    /// A gate for as many executions as this scheduler allows at once.
    pub fn permits(&self) -> (p: Permits)
        ensures
            p.capacity() == self.max_concurrency(),
            p.in_use() == 0,
    {
        Permits::new(self.max_concurrency)
    }

    /// One tick: reads the registry and decides, job by job in registry
    /// order, what runs now. A job runs if its specification resolves, it
    /// is due, and a permit is left; it then holds that permit. The store
    /// is only read.
    pub fn tick<K: Kv>(&self, kv: &K, now: u64, permits: &mut Permits) -> (out: Tick)
        requires
            kv.valid(),
        ensures
            (dispatches(out.dispatched@), out.fault) == ticked(
                kv.contents(),
                now,
                old(permits).available(),
            ),
            final(permits).capacity() == old(permits).capacity(),
            final(permits).in_use() == old(permits).in_use() + out.dispatched@.len(),
    {
        let ghost held = kv.contents();
        let ghost free0 = permits.available();
        let ghost used0 = permits.in_use();
        proof {
            permits.law_never_over_capacity();
        }
        let key = registry_key();
        let ids: Vec<String> = match kv.get_t::<Vec<String>>(key.as_slice()) {
            Ok(Some(v)) => v,
            Ok(None) => {
                let v: Vec<String> = Vec::new();
                proof {
                    assert(texts(v@) =~= Seq::<Seq<char>>::empty());
                }
                v
            },
            Err(e) => {
                let none: Vec<Dispatch> = Vec::new();
                proof {
                    assert(dispatches(none@) =~= Seq::<DispatchView>::empty());
                }
                return Tick { dispatched: none, fault: Some(e) };
            },
        };
        let ghost all = texts(ids@);
        let mut done: Vec<Dispatch> = Vec::new();
        let mut i: usize = 0;
        proof {
            assert(all.skip(0) =~= all);
            assert(dispatches(done@) =~= Seq::<DispatchView>::empty());
            let rest = plan(held, all, now, free0);
            assert(dispatches(done@) + rest.0 =~= rest.0);
        }
        while i < ids.len()
            invariant
                i <= ids.len(),
                kv.valid(),
                held == kv.contents(),
                all == texts(ids@),
                ticked(held, now, free0) == plan(held, all, now, free0),
                plan(held, all, now, free0) == ahead(
                    dispatches(done@),
                    plan(held, all.skip(i as int), now, permits.available()),
                ),
                permits.capacity() == old(permits).capacity(),
                free0 == old(permits).available(),
                used0 == old(permits).in_use(),
                permits.in_use() == used0 + done@.len(),
            decreases ids.len() - i,
        {
            let id = &ids[i];
            let ghost here = all.skip(i as int);
            let ghost front = dispatches(done@);
            let ghost free = permits.available();
            proof {
                assert(here[0] == id@);
                assert(here.drop_first() =~= all.skip(i + 1));
            }
            match resolve_spec(kv, id.as_str()) {
                None => {},
                Some(spec) => {
                    let skey = state_key(id.as_str());
                    match kv.get_t::<JobState>(skey.as_slice()) {
                        Err(e) => {
                            proof {
                                assert(front + Seq::<DispatchView>::empty() =~= front);
                            }
                            return Tick { dispatched: done, fault: Some(e) };
                        },
                        Ok(kept) => {
                            let state = match kept {
                                Some(s) => s,
                                None => JobState::default(),
                            };
                            if is_due(&state, spec.period_ms, now) && permits.try_acquire() {
                                let d = Dispatch { id: id.clone(), spec };
                                let ghost dv = d@;
                                done.push(d);
                                proof {
                                    let rest = plan(held, all.skip(i + 1), now, (free - 1) as nat);
                                    assert(dispatches(done@) =~= front.push(dv));
                                    assert(front.push(dv) + rest.0 =~= front + (seq![dv]
                                        + rest.0));
                                }
                            }
                        },
                    }
                },
            }
            i = i + 1;
        }
        proof {
            assert(all.skip(i as int) =~= Seq::<Seq<char>>::empty());
            assert(dispatches(done@) + Seq::<DispatchView>::empty() =~= dispatches(done@));
        }
        Tick { dispatched: done, fault: None }
    }

    /// Records the end of a run: counts it from the state kept for the job
    /// (the zero state where none can be read), writes the new state under
    /// the job's state key, and gives the permit back whatever the outcome.
    /// The write is best effort: a store that refuses it keeps the state
    /// it had, and the refusal is handed back beside the new state.
    pub fn complete<K: Kv>(
        &self,
        kv: &mut K,
        job: &Dispatch,
        outcome: &Result<(), ExecutionError>,
        now: u64,
        permits: &mut Permits,
    ) -> (out: Completion)
        requires
            old(kv).valid(),
        ensures
            final(kv).valid(),
            final(kv).reliable() == old(kv).reliable(),
            out.state == after_run(
                prior_state(old(kv).contents(), job.id@),
                job.spec.period_ms,
                self.max_backoff_ms(),
                *outcome is Ok,
                now,
            ),
            written(
                old(kv).contents(),
                final(kv).contents(),
                old(kv).reliable(),
                state_key_of(job.id@),
                state_wire(out.state),
                out.stored,
            ),
            final(permits).capacity() == old(permits).capacity(),
            final(permits).in_use() == if old(permits).in_use() > 0 {
                (old(permits).in_use() - 1) as nat
            } else {
                0nat
            },
    {
        let key = state_key(job.id.as_str());
        let prior = match kv.get_t::<JobState>(key.as_slice()) {
            Ok(Some(state)) => state,
            _ => JobState::default(),
        };
        let succeeded = outcome.is_ok();
        let next = next_state(&prior, job.spec.period_ms, self.max_backoff_ms, succeeded, now);
        let stored = kv.put_t(key.as_slice(), &next);
        permits.release();
        Completion { state: next, stored }
    }
}

/// Recording the end of a run touches the state of that job alone: the
/// registry, every specification and every other job's state stay as they
/// were. Where the store took the new state, the job's state key reads as
/// that state from then on, and a reliable store always takes it.
pub proof fn law_complete_is_local(
    before: Map<Seq<u8>, Seq<u8>>,
    after: Map<Seq<u8>, Seq<u8>>,
    reliable: bool,
    id: Seq<char>,
    next: JobState,
    stored: Result<(), StoreError>,
    other: Seq<char>,
)
    requires
        written(before, after, reliable, state_key_of(id), state_wire(next), stored),
    ensures
        reliable ==> stored is Ok,
        stored is Ok ==> state_at(after, id) == Ok::<JobState, StoreError>(next) && prior_state(
            after,
            id,
        ) == next,
        stored is Err ==> after == before,
        registry_at(after) == registry_at(before),
        resolved_at(after, other) == resolved_at(before, other),
        other != id ==> state_at(after, other) == state_at(before, other),
{
    lemma_keys_apart(id, id);
    lemma_keys_apart(other, id);
    lemma_keys_injective(other, id);
    <JobState as Stored>::round_trip(next);
}

} // verus!
