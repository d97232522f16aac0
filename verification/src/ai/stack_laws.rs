//! What holds where the backoff decorator stands outside the concurrency limit.
//!
//! A call on the backoff decorator asks for a permit each time it is to go to the
//! inner provider, and gives it back with the reply, before it sleeps if it does.
//! Other calls can go to the limited provider directly.

use crate::ai::backoff_laws::new_call;
use crate::ai::backoff_provider::{after, ActionModel, CallEvent, CallModel, StepModel};
use crate::ai::concurrency_limited_provider::{at_least_one, Traffic, TrafficEvent};
use vstd::prelude::*;

verus! {

/// All calls under way.
pub struct Stack {
    /// The reading of the clock until which calls are blocked.
    pub block: Option<nat>,
    /// The calls on the backoff decorator, by number.
    pub calls: Map<nat, CallModel>,
    /// Those of them that wait out a block or back off.
    pub sleeping: Set<nat>,
    /// The calls on the limited provider itself.
    pub direct: Set<nat>,
    /// The calls that wait for a permit or hold one.
    pub traffic: Traffic,
}

/// What can happen to the calls under way.
pub enum StackEvent {
    /// A call on the backoff decorator is new, or its sleep is over.
    Ready { id: nat, now: nat },
    /// A call is made on the limited provider itself.
    Direct { id: nat },
    /// A call that waits gets a permit.
    Acquire { id: nat },
    /// The inner provider has replied to a call.
    Reply { id: nat, event: CallEvent, now: nat, draw: u64 },
    /// A call is dropped, wherever it stands.
    Abandon { id: nat },
}

impl Stack {
    /// No call is under way.
    pub open spec fn idle() -> Stack {
        Stack {
            block: None,
            calls: Map::empty(),
            sleeping: Set::empty(),
            direct: Set::empty(),
            traffic: Traffic::idle(),
        }
    }

    /// Whether the call is under way.
    pub open spec fn is_under_way(self, id: nat) -> bool {
        self.calls.contains_key(id) || self.direct.contains(id)
    }

    /// Whether the event can happen with a semaphore of so many permits.
    pub open spec fn allows(self, permits: nat, event: StackEvent) -> bool {
        match event {
            StackEvent::Ready { id, .. } => !self.is_under_way(id) || self.sleeping.contains(id),
            StackEvent::Direct { id } => !self.is_under_way(id),
            StackEvent::Acquire { id } => self.traffic.allows(permits, TrafficEvent::Acquire(id)),
            StackEvent::Reply { id, event, .. } => self.traffic.allows(
                permits,
                TrafficEvent::Finish(id),
            ) && !(event is Ready),
            StackEvent::Abandon { id } => self.is_under_way(id),
        }
    }

    /// What the backoff decorator makes of an event of its call.
    pub open spec fn step(
        self,
        base: nat,
        id: nat,
        event: CallEvent,
        now: nat,
        draw: u64,
    ) -> StepModel {
        let call = if self.calls.contains_key(id) {
            self.calls[id]
        } else {
            new_call()
        };
        after(base, self.block, call, event, now, draw)
    }

    /// The calls under way once the backoff decorator's call has been sent on.
    pub open spec fn sent_on(self, id: nat, step: StepModel) -> Stack {
        match step.action {
            ActionModel::Sleep(_) => Stack {
                block: step.block,
                calls: self.calls.insert(id, step.call),
                sleeping: self.sleeping.insert(id),
                ..self
            },
            ActionModel::CallInner => Stack {
                block: step.block,
                calls: self.calls.insert(id, step.call),
                sleeping: self.sleeping.remove(id),
                traffic: self.traffic.following(TrafficEvent::Arrive(id)),
                ..self
            },
            _ => Stack {
                block: step.block,
                calls: self.calls.remove(id),
                sleeping: self.sleeping.remove(id),
                ..self
            },
        }
    }

    /// The calls under way after the event.
    pub open spec fn following(self, base: nat, event: StackEvent) -> Stack {
        match event {
            StackEvent::Ready { id, now } => self.sent_on(
                id,
                self.step(base, id, CallEvent::Ready, now, 0),
            ),
            StackEvent::Direct { id } => Stack {
                direct: self.direct.insert(id),
                traffic: self.traffic.following(TrafficEvent::Arrive(id)),
                ..self
            },
            StackEvent::Acquire { id } => Stack {
                traffic: self.traffic.following(TrafficEvent::Acquire(id)),
                ..self
            },
            StackEvent::Reply { id, event, now, draw } => {
                let freed = Stack {
                    traffic: self.traffic.following(TrafficEvent::Finish(id)),
                    ..self
                };
                if self.direct.contains(id) {
                    Stack { direct: self.direct.remove(id), ..freed }
                } else {
                    freed.sent_on(id, self.step(base, id, event, now, draw))
                }
            },
            StackEvent::Abandon { id } => Stack {
                block: self.block,
                calls: self.calls.remove(id),
                sleeping: self.sleeping.remove(id),
                direct: self.direct.remove(id),
                traffic: self.traffic.following(TrafficEvent::Abandon(id)),
            },
        }
    }

    /// What holds of the calls under way at all times: each is in one place only,
    /// and those that hold a permit do not outnumber the permits.
    spec fn is_consistent(self, permits: nat) -> bool {
        &&& self.traffic.running.finite()
        &&& self.traffic.running.len() <= permits
        &&& forall|id: nat| #[trigger]
            self.sleeping.contains(id) ==> self.calls.contains_key(id)
                && !self.traffic.running.contains(id) && !self.traffic.waiting.contains(id)
        &&& forall|id: nat| #[trigger]
            self.traffic.running.contains(id) ==> self.is_under_way(id)
                && !self.traffic.waiting.contains(id)
        &&& forall|id: nat| #[trigger]
            self.traffic.waiting.contains(id) ==> self.is_under_way(id)
        &&& forall|id: nat| #[trigger]
            self.direct.contains(id) ==> !self.calls.contains_key(id)
    }
}

/// The calls under way after all of the events, from none.
pub open spec fn stack(base: nat, events: Seq<StackEvent>) -> Stack
    decreases events.len(),
{
    if events.len() == 0 {
        Stack::idle()
    } else {
        stack(base, events.drop_last()).following(base, events.last())
    }
}

/// Whether the events can happen one after the other with a semaphore of so many
/// permits.
pub open spec fn stack_possible(base: nat, permits: nat, events: Seq<StackEvent>) -> bool
    decreases events.len(),
{
    events.len() == 0 || {
        &&& stack_possible(base, permits, events.drop_last())
        &&& stack(base, events.drop_last()).allows(permits, events.last())
    }
}

proof fn stack_is_consistent(base: nat, permits: nat, events: Seq<StackEvent>)
    requires
        stack_possible(base, permits, events),
    ensures
        stack(base, events).is_consistent(permits),
    decreases events.len(),
{
    if events.len() > 0 {
        stack_is_consistent(base, permits, events.drop_last());
    }
}

/// A call that waits out a rate limit or backs off holds no permit, nor does it
/// wait for one.
pub proof fn sleeping_calls_hold_no_permit(
    base: nat,
    permits: nat,
    events: Seq<StackEvent>,
    id: nat,
)
    requires
        stack_possible(base, permits, events),
        stack(base, events).sleeping.contains(id),
    ensures
        !stack(base, events).traffic.running.contains(id),
        !stack(base, events).traffic.waiting.contains(id),
{
    stack_is_consistent(base, permits, events);
}

/// A call that is sent to sleep leaves a permit free: whichever call waits for
/// one, on either provider, can have it at once.
pub proof fn backing_off_frees_a_permit(
    base: nat,
    limit: usize,
    events: Seq<StackEvent>,
    reply: StackEvent,
    id: nat,
)
    requires
        stack_possible(base, at_least_one(limit), events.push(reply)),
        reply is Reply,
        stack(base, events.push(reply)).sleeping.contains(reply->Reply_id),
        stack(base, events.push(reply)).traffic.waiting.contains(id),
    ensures
        stack_possible(
            base,
            at_least_one(limit),
            events.push(reply).push(StackEvent::Acquire { id }),
        ),
{
    let permits = at_least_one(limit);
    let replied = events.push(reply);
    assert(replied.drop_last() =~= events);
    stack_is_consistent(base, permits, events);
    let acquire = StackEvent::Acquire { id };
    assert(replied.push(acquire).drop_last() =~= replied);
}

/// A call that is dropped leaves nothing behind, wherever it stood: it is not under
/// way any more, a permit that it held is free again, and nothing else changes.
pub proof fn dropped_call_leaves_nothing_behind(
    base: nat,
    permits: nat,
    events: Seq<StackEvent>,
    id: nat,
)
    requires
        stack_possible(base, permits, events),
        stack(base, events).is_under_way(id),
    ensures
        ({
            let before = stack(base, events);
            let now = stack(base, events.push(StackEvent::Abandon { id }));
            &&& stack_possible(base, permits, events.push(StackEvent::Abandon { id }))
            &&& !now.is_under_way(id) && !now.sleeping.contains(id) && now.traffic.is_gone(id)
            &&& now.block == before.block
            &&& now.calls == before.calls.remove(id) && now.direct == before.direct.remove(id)
            &&& now.traffic.running == before.traffic.running.remove(id)
            &&& now.traffic.waiting == before.traffic.waiting.remove(id)
            &&& now.traffic.free_permits(permits) == before.traffic.free_permits(permits)
                + if before.traffic.running.contains(id) {
                1int
            } else {
                0
            }
        }),
{
    stack_is_consistent(base, permits, events);
    assert(events.push(StackEvent::Abandon { id }).drop_last() =~= events);
}

/// Calls that sleep are in no one's way: a call that waits for a permit can have
/// it at once if all other calls under way sleep, even with a limit of one.
pub proof fn sleeping_calls_are_in_no_ones_way(
    base: nat,
    limit: usize,
    events: Seq<StackEvent>,
    id: nat,
)
    requires
        stack_possible(base, at_least_one(limit), events),
        stack(base, events).traffic.waiting.contains(id),
        forall|other: nat| #[trigger]
            stack(base, events).is_under_way(other) && other != id ==> stack(
                base,
                events,
            ).sleeping.contains(other),
    ensures
        stack_possible(base, at_least_one(limit), events.push(StackEvent::Acquire { id })),
{
    let permits = at_least_one(limit);
    stack_is_consistent(base, permits, events);
    let running = stack(base, events).traffic.running;
    assert forall|other: nat| !running.contains(other) by {
        if running.contains(other) {
            assert(stack(base, events).is_under_way(other));
        }
    }
    assert(running =~= Set::empty());
    assert(events.push(StackEvent::Acquire { id }).drop_last() =~= events);
}

} // verus!
