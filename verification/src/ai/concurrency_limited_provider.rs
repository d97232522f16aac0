//! A pass-through decorator that caps how many model calls run at once.
//!
//! A call first takes a permit from a semaphore, holds it while the inner
//! provider works, and gives it back with its answer.

use crate::ai::provider::AiProvider;
use std::sync::Arc;
use tokio::sync::Semaphore;
use vstd::prelude::*;

verus! {

/// The outside type `tokio::sync::Semaphore`.
#[verifier::external_type_specification]
#[verifier::external_body]
pub struct ExSemaphore(tokio::sync::Semaphore);

/// How many permits a semaphore was made with.
pub uninterp spec fn permits_made(semaphore: tokio::sync::Semaphore) -> nat;

/// The most permits that a semaphore can be made with.
pub open spec fn max_permits() -> nat {
    (usize::MAX / 8) as nat
}

/// `tokio::sync::Semaphore::new`: the semaphore is made with as many permits as
/// it is asked for. It panics above `Semaphore::MAX_PERMITS`, which is
/// `usize::MAX >> 3`.
pub assume_specification[ tokio::sync::Semaphore::new ](permits: usize) -> (semaphore:
    tokio::sync::Semaphore)
    requires
        permits <= max_permits(),
    ensures
        permits_made(semaphore) == permits,
;

/// The limit as it is applied: at least one.
pub open spec fn at_least_one(limit: usize) -> nat {
    if limit == 0 {
        1
    } else {
        limit as nat
    }
}

/// Limits concurrent model calls to a fixed number of permits.
#[derive(Debug)]
pub struct ConcurrencyLimitedProvider<P> {
    inner: P,
    semaphore: Arc<Semaphore>,
}

/// What to do next for a call that waited for a permit.
#[derive(Debug)]
pub enum LimitedAction {
    /// Call the inner provider and hand on its answer; then give the permit back.
    CallInner,
    /// Fail with the given message.
    ReturnError(String),
}

impl<P> ConcurrencyLimitedProvider<P> {
    /// The provider that the calls go to.
    pub closed spec fn decorated(&self) -> P {
        self.inner
    }

    /// The semaphore that the calls take their permits from.
    pub closed spec fn pool(&self) -> Arc<Semaphore> {
        self.semaphore
    }

    /// How many permits the semaphore was made with, which is how many calls can
    /// run at once unless permits are added to it or taken from it.
    pub open spec fn permits(&self) -> nat {
        permits_made(*self.pool())
    }

    /// Decorates `inner`. At most `limit` calls run at once; a limit of zero
    /// counts as one, so that a call can always run.
    pub fn new(inner: P, limit: usize) -> (provider: Self)
        requires
            limit <= max_permits(),
        ensures
            provider.decorated() == inner,
            provider.permits() == at_least_one(limit),
            limit >= 1 ==> permits_made(*provider.pool()) == limit,
            limit == 0 ==> permits_made(*provider.pool()) == 1,
    {
        let permits: usize = if limit < 1 {
            1
        } else {
            limit
        };
        ConcurrencyLimitedProvider { inner, semaphore: Arc::new(Semaphore::new(permits)) }
    }

    /// Decorates `inner` with a semaphore that the caller owns, so that several
    /// providers can share one cap.
    pub fn with_semaphore(inner: P, semaphore: Arc<Semaphore>) -> (provider: Self)
        ensures
            provider.decorated() == inner,
            provider.pool() == semaphore,
    {
        ConcurrencyLimitedProvider { inner, semaphore }
    }

    /// The semaphore that a call takes its permit from.
    pub fn semaphore(&self) -> (semaphore: &Arc<Semaphore>)
        ensures
            *semaphore == self.pool(),
    {
        &self.semaphore
    }

    /// The provider that the calls go to.
    pub fn inner(&self) -> (inner: &P)
        ensures
            *inner == self.decorated(),
    {
        &self.inner
    }
}

/// What to do for a call once the semaphore has answered: `Err` holds the words
/// of the semaphore's error.
pub fn after_acquire(acquired: Result<(), String>) -> (action: LimitedAction)
    ensures
        match acquired {
            Ok(_) => action is CallInner,
            Err(error) => action matches LimitedAction::ReturnError(message) && message@
                == "concurrency semaphore closed: "@ + error@,
        },
{
    match acquired {
        Ok(_) => LimitedAction::CallInner,
        Err(error) => {
            let mut message = "concurrency semaphore closed: ".to_owned();
            message.append(error.as_str());
            LimitedAction::ReturnError(message)
        },
    }
}

impl<P: AiProvider> AiProvider for ConcurrencyLimitedProvider<P> {
    type Request = P::Request;

    type Capabilities = P::Capabilities;

    type CacheStats = P::CacheStats;

    fn estimate_tokens(&self, request: &P::Request) -> (tokens: usize)
        ensures
            call_ensures(P::estimate_tokens, (&self.decorated(), request), tokens),
    {
        self.inner.estimate_tokens(request)
    }

    fn get_capabilities(&self) -> (capabilities: P::Capabilities)
        ensures
            call_ensures(P::get_capabilities, (&self.decorated(),), capabilities),
    {
        self.inner.get_capabilities()
    }

    fn cache_stats(&self) -> (stats: Option<P::CacheStats>)
        ensures
            call_ensures(P::cache_stats, (&self.decorated(),), stats),
    {
        self.inner.cache_stats()
    }
}

/// The calls under way, by number: those that wait for a permit and those that
/// hold one, which is to say those for which the inner provider works.
pub struct Traffic {
    pub waiting: Set<nat>,
    pub running: Set<nat>,
}

/// What can happen to the calls under way.
pub enum TrafficEvent {
    /// A new call starts to wait for a permit.
    Arrive(nat),
    /// A call that waits gets a permit.
    Acquire(nat),
    /// The inner provider has answered a call, with a response or an error. The
    /// call gives its permit back.
    Finish(nat),
    /// A call is dropped before it is answered. It leaves the queue, or gives its
    /// permit back if it has one.
    Abandon(nat),
}

impl Traffic {
    /// No call is under way.
    pub open spec fn idle() -> Traffic {
        Traffic { waiting: Set::empty(), running: Set::empty() }
    }

    /// Whether the event can happen with a semaphore of so many permits, which
    /// hands one out only while fewer than all of them are held.
    pub open spec fn allows(self, permits: nat, event: TrafficEvent) -> bool {
        match event {
            TrafficEvent::Arrive(id) => !self.waiting.contains(id) && !self.running.contains(id),
            TrafficEvent::Acquire(id) => self.waiting.contains(id) && self.running.len() < permits,
            TrafficEvent::Finish(id) => self.running.contains(id),
            TrafficEvent::Abandon(id) => self.waiting.contains(id) || self.running.contains(id),
        }
    }

    /// The calls under way after the event.
    pub open spec fn following(self, event: TrafficEvent) -> Traffic {
        match event {
            TrafficEvent::Arrive(id) => Traffic {
                waiting: self.waiting.insert(id),
                running: self.running,
            },
            TrafficEvent::Acquire(id) => Traffic {
                waiting: self.waiting.remove(id),
                running: self.running.insert(id),
            },
            TrafficEvent::Finish(id) => Traffic {
                waiting: self.waiting,
                running: self.running.remove(id),
            },
            TrafficEvent::Abandon(id) => Traffic {
                waiting: self.waiting.remove(id),
                running: self.running.remove(id),
            },
        }
    }

    /// How many of the permits no call holds.
    pub open spec fn free_permits(self, permits: nat) -> int {
        permits - self.running.len()
    }

    /// Whether the call neither waits for a permit nor holds one.
    pub open spec fn is_gone(self, id: nat) -> bool {
        !self.waiting.contains(id) && !self.running.contains(id)
    }
}

/// Whether the event ends the call, one way or the other.
pub open spec fn ends(event: TrafficEvent, id: nat) -> bool {
    event == TrafficEvent::Finish(id) || event == TrafficEvent::Abandon(id)
}

/// The calls under way after all of the events, from none.
pub open spec fn traffic(events: Seq<TrafficEvent>) -> Traffic
    decreases events.len(),
{
    if events.len() == 0 {
        Traffic::idle()
    } else {
        traffic(events.drop_last()).following(events.last())
    }
}

/// Whether the events can happen one after the other with a semaphore of so many
/// permits.
pub open spec fn possible(permits: nat, events: Seq<TrafficEvent>) -> bool
    decreases events.len(),
{
    events.len() == 0 || {
        &&& possible(permits, events.drop_last())
        &&& traffic(events.drop_last()).allows(permits, events.last())
    }
}

proof fn running_calls_hold_permits(permits: nat, events: Seq<TrafficEvent>)
    requires
        possible(permits, events),
    ensures
        traffic(events).running.finite(),
        traffic(events).running.len() <= permits,
        traffic(events).running.disjoint(traffic(events).waiting),
    decreases events.len(),
{
    if events.len() > 0 {
        running_calls_hold_permits(permits, events.drop_last());
    }
}

/// With the permits that `new` makes for `limit`, never do more calls run at once
/// than the limit says.
pub proof fn running_calls_are_capped(limit: usize, events: Seq<TrafficEvent>)
    requires
        possible(at_least_one(limit), events),
    ensures
        traffic(events).running.finite(),
        traffic(events).running.len() <= at_least_one(limit),
{
    running_calls_hold_permits(at_least_one(limit), events);
}

/// The permits of a provider are all those that its semaphore was made with.
pub proof fn permits_are_those_of_the_semaphore<P>(provider: ConcurrencyLimitedProvider<P>)
    ensures
        provider.permits() == permits_made(*provider.pool()),
{
}

/// A limit is applied as it is, and a limit of zero as one: that many calls can run
/// at once, and never one more.
pub proof fn limit_is_what_can_run_at_once(limit: usize, events: Seq<TrafficEvent>, id: nat)
    requires
        possible(at_least_one(limit), events),
    ensures
        limit >= 1 ==> at_least_one(limit) == limit && traffic(events).running.len() <= limit,
        limit == 0 ==> at_least_one(limit) == 1 && traffic(events).running.len() <= 1,
        traffic(events).waiting.contains(id) && traffic(events).running.len() < limit ==> possible(
            at_least_one(limit),
            events.push(TrafficEvent::Acquire(id)),
        ),
        traffic(events).waiting.contains(id) && traffic(events).running.len() == 0 ==> possible(
            at_least_one(limit),
            events.push(TrafficEvent::Acquire(id)),
        ),
{
    running_calls_hold_permits(at_least_one(limit), events);
    assert(events.push(TrafficEvent::Acquire(id)).drop_last() =~= events);
}

/// With the permits that `new` makes for `limit`, a call that waits never waits
/// in vain, even for a limit of zero: either it can get a permit, or some call
/// runs and will give one back.
pub proof fn waiting_calls_never_deadlock(limit: usize, events: Seq<TrafficEvent>, id: nat)
    requires
        possible(at_least_one(limit), events),
        traffic(events).waiting.contains(id),
    ensures
        possible(at_least_one(limit), events.push(TrafficEvent::Acquire(id))) || exists|other: nat|
            #[trigger]
            possible(at_least_one(limit), events.push(TrafficEvent::Finish(other))),
{
    let permits = at_least_one(limit);
    running_calls_hold_permits(permits, events);
    assert(events.push(TrafficEvent::Acquire(id)).drop_last() =~= events);
    let running = traffic(events).running;
    if running.len() >= permits {
        let other = running.choose();
        assert(running.contains(other));
        let finish = TrafficEvent::Finish(other);
        assert(events.push(finish).drop_last() =~= events);
        assert(possible(permits, events.push(finish)));
    }
}

/// A call that holds a permit gives it back however it ends: with a response, with
/// an error, or by being dropped.
pub proof fn permit_comes_back_however_a_call_ends(
    permits: nat,
    events: Seq<TrafficEvent>,
    id: nat,
    end: TrafficEvent,
)
    requires
        possible(permits, events),
        traffic(events).running.contains(id),
        ends(end, id),
    ensures
        possible(permits, events.push(end)),
        traffic(events.push(end)).free_permits(permits) == traffic(events).free_permits(permits)
            + 1,
        traffic(events.push(end)).is_gone(id),
{
    running_calls_hold_permits(permits, events);
    assert(events.push(end).drop_last() =~= events);
}

/// A call that is dropped while it waits leaves the queue and changes nothing for
/// the calls that hold permits.
pub proof fn dropped_call_leaves_the_queue(permits: nat, events: Seq<TrafficEvent>, id: nat)
    requires
        possible(permits, events),
        traffic(events).waiting.contains(id),
    ensures
        possible(permits, events.push(TrafficEvent::Abandon(id))),
        traffic(events.push(TrafficEvent::Abandon(id))).running == traffic(events).running,
        traffic(events.push(TrafficEvent::Abandon(id))).is_gone(id),
{
    running_calls_hold_permits(permits, events);
    let dropped = events.push(TrafficEvent::Abandon(id));
    assert(dropped.drop_last() =~= events);
    assert(traffic(dropped).running =~= traffic(events).running);
}

/// Where a permit is free and no call waits, a new call can have one at once. One
/// permit fewer is free while the inner provider works for it, and once it has
/// ended, however it did, everything is as it was before.
pub proof fn one_call_takes_one_permit(
    permits: nat,
    events: Seq<TrafficEvent>,
    id: nat,
    end: TrafficEvent,
)
    requires
        possible(permits, events),
        traffic(events).free_permits(permits) >= 1,
        traffic(events).waiting == Set::<nat>::empty(),
        traffic(events).is_gone(id),
        ends(end, id),
    ensures
        ({
            let running = events.push(TrafficEvent::Arrive(id)).push(TrafficEvent::Acquire(id));
            let free = traffic(events).free_permits(permits);
            &&& possible(permits, running.push(end))
            &&& traffic(running).free_permits(permits) == free - 1
            &&& traffic(running.push(end)).free_permits(permits) == free
            &&& traffic(running.push(end)) == traffic(events)
        }),
{
    running_calls_hold_permits(permits, events);
    let arrived = events.push(TrafficEvent::Arrive(id));
    let running = arrived.push(TrafficEvent::Acquire(id));
    let ended = running.push(end);
    assert(arrived.drop_last() =~= events);
    assert(running.drop_last() =~= arrived);
    assert(ended.drop_last() =~= running);
    assert(traffic(arrived) == traffic(events).following(TrafficEvent::Arrive(id)));
    assert(traffic(running) == traffic(arrived).following(TrafficEvent::Acquire(id)));
    assert(traffic(ended) == traffic(running).following(end));
    assert(possible(permits, arrived));
    assert(possible(permits, running));
    assert(traffic(ended).running =~= traffic(events).running);
    assert(traffic(ended).waiting =~= traffic(events).waiting);
}

/// Providers that share a semaphore share one cap: the calls of both, taken
/// together, never outnumber its permits. `of_a` holds the numbers of the calls
/// that go through the first provider; the others go through the second.
pub proof fn shared_semaphore_is_one_cap<P, Q>(
    a: ConcurrencyLimitedProvider<P>,
    b: ConcurrencyLimitedProvider<Q>,
    events: Seq<TrafficEvent>,
    of_a: Set<nat>,
)
    requires
        a.pool() == b.pool(),
        possible(a.permits(), events),
    ensures
        a.permits() == b.permits(),
        traffic(events).running.intersect(of_a).len() + traffic(events).running.difference(
            of_a,
        ).len() <= a.permits(),
{
    running_calls_hold_permits(a.permits(), events);
    let running = traffic(events).running;
    let through_a = running.intersect(of_a);
    let through_b = running.difference(of_a);
    vstd::set_lib::lemma_set_disjoint_lens(through_a, through_b);
    assert(through_a + through_b =~= running);
}

} // verus!
