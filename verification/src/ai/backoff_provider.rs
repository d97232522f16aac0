//! A pass-through decorator that retries a model call with backoff on
//! rate-limit and transient errors.
//!
//! - A rate limit concerns the whole account: it blocks every concurrent
//!   call until its window is over, even where it ends the call that ran into it.
//! - A transient fault concerns one call: that call alone sleeps, exponentially
//!   longer from one fault to the next and with jitter, so that concurrent
//!   calls do not collide again.
//! - A fatal error is handed on at once.

use crate::ai::delay::{Delay, MAX_NANOS};
use crate::ai::error_class::AiErrorClass;
use crate::ai::provider::AiProvider;
use crate::ai::quota::{
    extended, remaining_wait, window_end, QuotaManager, MAX_RETRY_AFTER_NANOS,
};
use crate::ai::transient::{
    backoff, backoff_nanos, backoff_stays_between_its_bounds, jitter, jitter_is_at_most_a_quarter,
    jitter_is_largest_at_the_largest_draw, jitter_nanos, jittered,
};
use vstd::prelude::*;

verus! {

/// How often the inner provider is called, at most, for a single request.
pub const MAX_ATTEMPTS: u32 = 6;

/// A random word from the thread's `fastrand` generator, by `fastrand::u64` over
/// the full range. Any word can come back, so nothing is claimed of it.
#[verifier::external_body]
fn random_word() -> (word: u64)
{
    fastrand::u64(..)
}

/// Whether the word can have come from the random generator.
pub closed spec fn can_be_drawn(word: u64) -> bool {
    call_ensures(random_word, (), word)
}

/// A word that can be drawn is one that `random_word` can return.
proof fn drawn_words_come_from_the_generator(word: u64)
    ensures
        can_be_drawn(word) ==> call_ensures(random_word, (), word),
{
}

/// What a call has been through so far: how many attempts failed, and how many
/// of those with a transient fault.
pub struct CallModel {
    pub attempt: nat,
    pub transient_streak: nat,
}

/// What to do next for a call, with delays in nanoseconds.
pub enum ActionModel {
    Sleep(nat),
    CallInner,
    ReturnResponse,
    ReturnError,
}

/// The block, the call and what to do next once an event has been dealt with.
pub struct StepModel {
    pub block: Option<nat>,
    pub call: CallModel,
    pub action: ActionModel,
}

/// What a call that is ready does: wait out the block, or go ahead.
pub open spec fn when_ready(block: Option<nat>, now: nat) -> ActionModel {
    match remaining_wait(block, now) {
        Some(wait) => ActionModel::Sleep(wait),
        None => ActionModel::CallInner,
    }
}

/// How an event changes the block and the call, and what it leads to.
pub open spec fn after(
    base: nat,
    block: Option<nat>,
    call: CallModel,
    event: CallEvent,
    now: nat,
    draw: u64,
) -> StepModel {
    match event {
        CallEvent::Ready => StepModel { block, call, action: when_ready(block, now) },
        CallEvent::Succeeded => StepModel {
            block: None,
            call,
            action: ActionModel::ReturnResponse,
        },
        CallEvent::Failed { class } => {
            let attempt = call.attempt + 1;
            let failed = CallModel { attempt, transient_streak: call.transient_streak };
            let held = match class {
                AiErrorClass::RateLimit { retry_after } => extended(
                    block,
                    window_end(now, retry_after@),
                ),
                _ => block,
            };
            if attempt >= MAX_ATTEMPTS {
                StepModel { block: held, call: failed, action: ActionModel::ReturnError }
            } else {
                match class {
                    AiErrorClass::RateLimit { .. } => StepModel {
                        block: held,
                        call: failed,
                        action: when_ready(held, now),
                    },
                    AiErrorClass::Transient { retry_after } => {
                        let transient_streak = call.transient_streak + 1;
                        let wait = backoff(base, transient_streak, retry_after@);
                        StepModel {
                            block: held,
                            call: CallModel { attempt, transient_streak },
                            action: ActionModel::Sleep(wait + jitter(wait, draw)),
                        }
                    },
                    AiErrorClass::Fatal => StepModel {
                        block: held,
                        call: failed,
                        action: ActionModel::ReturnError,
                    },
                }
            }
        },
    }
}

/// Whether every span of time that the event leads to can be held: the end of
/// the window that a rate limit opens, and the sleep after a transient fault.
pub open spec fn in_range(
    base: nat,
    call: CallModel,
    event: CallEvent,
    now: nat,
    draw: u64,
) -> bool {
    event matches CallEvent::Failed { class } ==> match class {
        AiErrorClass::RateLimit { retry_after } => window_end(now, retry_after@) <= MAX_NANOS,
        AiErrorClass::Transient { retry_after } => call.attempt + 1 < MAX_ATTEMPTS ==> {
            let wait = backoff(base, call.transient_streak + 1, retry_after@);
            wait + jitter(wait, draw) <= MAX_NANOS
        },
        AiErrorClass::Fatal => true,
    }
}

/// Whether the event can be dealt with whatever word is drawn for the jitter.
pub open spec fn always_in_range(base: nat, call: CallModel, event: CallEvent, now: nat) -> bool {
    forall|draw: u64| #[trigger] in_range(base, call, event, now, draw)
}

/// Spans that are anything but immense can always be dealt with: a base delay of
/// up to a hundredth of the longest span, a wait of up to half of it, and a clock
/// that is five minutes or more from its end.
pub proof fn short_spans_are_in_range(base: nat, call: CallModel, event: CallEvent, now: nat)
    requires
        100 * base <= MAX_NANOS,
        event matches CallEvent::Failed { class } ==> class matches AiErrorClass::Transient {
            retry_after,
        } ==> 2 * retry_after@ <= MAX_NANOS,
        now + MAX_RETRY_AFTER_NANOS <= MAX_NANOS,
    ensures
        always_in_range(base, call, event, now),
{
    assert forall|draw: u64| #[trigger] in_range(base, call, event, now, draw) by {
        match event {
            CallEvent::Failed { class: AiErrorClass::Transient { retry_after } } => {
                let streak = call.transient_streak + 1;
                let wait = backoff(base, streak, retry_after@);
                backoff_stays_between_its_bounds(base, streak, retry_after@);
                jitter_is_at_most_a_quarter(wait, draw);
            },
            _ => {},
        }
    }
}

/// One request on its way through the decorator.
#[derive(Debug)]
pub struct BackoffCall {
    attempt: u32,
    transient_streak: u32,
}

impl View for BackoffCall {
    type V = CallModel;

    closed spec fn view(&self) -> CallModel {
        CallModel { attempt: self.attempt as nat, transient_streak: self.transient_streak as nat }
    }
}

impl BackoffCall {
    /// A request for which the inner provider has not been called yet.
    pub fn new() -> (call: BackoffCall)
        ensures
            call@ == (CallModel { attempt: 0, transient_streak: 0 }),
    {
        BackoffCall { attempt: 0, transient_streak: 0 }
    }

    /// How many attempts have failed.
    pub fn attempt(&self) -> (attempt: u32)
        ensures
            attempt == self@.attempt,
    {
        self.attempt
    }

    /// How many attempts have failed with a transient fault.
    pub fn transient_streak(&self) -> (streak: u32)
        ensures
            streak == self@.transient_streak,
    {
        self.transient_streak
    }
}

impl CallModel {
    /// Whether the call may still be answered: it has attempts left.
    pub open spec fn in_progress(self) -> bool {
        self.transient_streak <= self.attempt < MAX_ATTEMPTS
    }
}

/// What happened to a call.
#[derive(Debug, Clone, Copy, PartialEq, Eq)]
pub enum CallEvent {
    /// The call is new, or a sleep that it was told to take is over.
    Ready,
    /// The inner provider returned a response.
    Succeeded,
    /// The inner provider returned an error of the given class.
    Failed { class: AiErrorClass },
}

/// What to do next for a call.
#[derive(Debug, Clone, Copy, PartialEq, Eq)]
pub enum CallAction {
    /// Sleep for the given time, then report `Ready`.
    Sleep(Delay),
    /// Call the inner provider and report `Succeeded` or `Failed`.
    CallInner,
    /// Hand on the response that the inner provider returned.
    ReturnResponse,
    /// Hand on the error that the inner provider returned last.
    ReturnError,
}

impl View for CallAction {
    type V = ActionModel;

    open spec fn view(&self) -> ActionModel {
        match *self {
            CallAction::Sleep(delay) => ActionModel::Sleep(delay@),
            CallAction::CallInner => ActionModel::CallInner,
            CallAction::ReturnResponse => ActionModel::ReturnResponse,
            CallAction::ReturnError => ActionModel::ReturnError,
        }
    }
}

/// Adds retries with backoff around an inner provider. One value serves every
/// concurrent call, so that a single rate limit holds all of them back.
#[derive(Debug)]
pub struct BackoffProvider<P> {
    inner: P,
    quota: QuotaManager,
    base_delay: Delay,
}

impl<P> BackoffProvider<P> {
    /// The provider that the calls go to.
    pub closed spec fn decorated(&self) -> P {
        self.inner
    }

    /// The reading of the clock until which calls are blocked.
    pub closed spec fn blocked_until(&self) -> Option<nat> {
        self.quota@
    }

    /// The base unit of the transient backoff, in nanoseconds.
    pub closed spec fn base(&self) -> nat {
        self.base_delay@
    }

    /// Decorates `inner`. Nothing is blocked and the base delay is one second.
    pub fn new(inner: P) -> (provider: Self)
        ensures
            provider.decorated() == inner,
            provider.blocked_until() == None::<nat>,
            provider.base() == 1_000_000_000,
    {
        BackoffProvider { inner, quota: QuotaManager::new(), base_delay: Delay::from_secs(1) }
    }

    /// Decorates `inner` with a base delay other than one second.
    pub fn with_base_delay(inner: P, base_delay: Delay) -> (provider: Self)
        ensures
            provider.decorated() == inner,
            provider.blocked_until() == None::<nat>,
            provider.base() == base_delay@,
    {
        BackoffProvider { inner, quota: QuotaManager::new(), base_delay }
    }

    /// The provider that the calls go to.
    pub fn inner(&self) -> (inner: &P)
        ensures
            *inner == self.decorated(),
    {
        &self.inner
    }

    /// Deals with what happened to `call` and says what to do next for it, given
    /// the word that the jitter of a transient backoff is taken from.
    pub fn step_with_draw(
        &mut self,
        call: &mut BackoffCall,
        event: CallEvent,
        now: Delay,
        draw: u64,
    ) -> (action: CallAction)
        requires
            old(call)@.in_progress(),
            in_range(old(self).base(), old(call)@, event, now@, draw),
        ensures
            after(old(self).base(), old(self).blocked_until(), old(call)@, event, now@, draw) == (
            StepModel {
                block: final(self).blocked_until(),
                call: final(call)@,
                action: action@,
            }),
            final(self).decorated() == old(self).decorated(),
            final(self).base() == old(self).base(),
            !(action is ReturnError) ==> final(call)@.in_progress(),
    {
        match event {
            CallEvent::Ready => self.wait_or_call(now),
            CallEvent::Succeeded => {
                self.quota.report_success();
                CallAction::ReturnResponse
            },
            CallEvent::Failed { class } => {
                call.attempt = call.attempt + 1;
                if let AiErrorClass::RateLimit { retry_after } = class {
                    self.quota.report_quota_error(now, retry_after);
                }
                if call.attempt >= MAX_ATTEMPTS {
                    return CallAction::ReturnError;
                }
                match class {
                    AiErrorClass::RateLimit { .. } => self.wait_or_call(now),
                    AiErrorClass::Transient { retry_after } => {
                        call.transient_streak = call.transient_streak + 1;
                        let wait: u128 = backoff_nanos(
                            self.base_delay,
                            call.transient_streak,
                            retry_after,
                        );
                        CallAction::Sleep(jittered(Delay::from_nanos(wait), draw))
                    },
                    AiErrorClass::Fatal => CallAction::ReturnError,
                }
            },
        }
    }

    /// Deals with what happened to `call` and says what to do next for it. The
    /// jitter of a transient backoff is taken from a word that is drawn at random.
    pub fn step(&mut self, call: &mut BackoffCall, event: CallEvent, now: Delay) -> (action:
        CallAction)
        requires
            old(call)@.in_progress(),
            always_in_range(old(self).base(), old(call)@, event, now@),
        ensures
            exists|draw: u64|
                can_be_drawn(draw) && #[trigger] after(
                    old(self).base(),
                    old(self).blocked_until(),
                    old(call)@,
                    event,
                    now@,
                    draw,
                ) == (StepModel {
                    block: final(self).blocked_until(),
                    call: final(call)@,
                    action: action@,
                }),
            final(self).decorated() == old(self).decorated(),
            final(self).base() == old(self).base(),
            !(action is ReturnError) ==> final(call)@.in_progress(),
    {
        let draw: u64 = random_word();
        assert(in_range(self.base(), call@, event, now@, draw));
        self.step_with_draw(call, event, now, draw)
    }

    /// Whether `step` can deal with the event: no span of time that it leads to
    /// is too long to be held, whatever word is drawn.
    pub fn accepts(&self, call: &BackoffCall, event: CallEvent, now: Delay) -> (fits: bool)
        requires
            call@.in_progress(),
        ensures
            fits == always_in_range(self.base(), call@, event, now@),
    {
        let class = match event {
            CallEvent::Failed { class } => class,
            _ => return true,
        };
        assert(always_in_range(self.base(), call@, event, now@) ==> in_range(
            self.base(),
            call@,
            event,
            now@,
            u64::MAX,
        ));
        match class {
            AiErrorClass::RateLimit { retry_after } => {
                let asked: u128 = retry_after.as_nanos();
                let window: u128 = if asked <= MAX_RETRY_AFTER_NANOS {
                    asked
                } else {
                    MAX_RETRY_AFTER_NANOS
                };
                now.as_nanos() + window <= MAX_NANOS
            },
            AiErrorClass::Transient { retry_after } => {
                if call.attempt + 1 >= MAX_ATTEMPTS {
                    return true;
                }
                let wait: u128 = backoff_nanos(
                    self.base_delay,
                    call.transient_streak + 1,
                    retry_after,
                );
                let ghost streak = call@.transient_streak + 1;
                assert(wait == backoff(self.base(), streak, retry_after@));
                if wait > MAX_NANOS {
                    return false;
                }
                let extra: u128 = jitter_nanos(wait, u64::MAX);
                assert forall|draw: u64| wait + extra <= MAX_NANOS implies #[trigger] in_range(
                    self.base(),
                    call@,
                    event,
                    now@,
                    draw,
                ) by {
                    jitter_is_largest_at_the_largest_draw(wait as nat, draw);
                }
                wait + extra <= MAX_NANOS
            },
            AiErrorClass::Fatal => true,
        }
    }

    /// Sends a call that is ready to wait or to the inner provider.
    fn wait_or_call(&self, now: Delay) -> (action: CallAction)
        ensures
            action@ == when_ready(self.blocked_until(), now@),
            action is Sleep || action is CallInner,
    {
        match self.quota.wait_for_access(now) {
            Some(wait) => CallAction::Sleep(wait),
            None => CallAction::CallInner,
        }
    }
}

impl<P: AiProvider> AiProvider for BackoffProvider<P> {
    type Request = P::Request;

    type Capabilities = P::Capabilities;

    type CacheStats = P::CacheStats;

    fn estimate_tokens(&self, request: &P::Request) -> (tokens: usize)
        ensures
            call_ensures(P::estimate_tokens, (&self.decorated(), request), tokens),
    {
        self.inner.estimate_tokens(request)
    }

    fn get_capabilities(&self) -> (capabilities: P::Capabilities)
        ensures
            call_ensures(P::get_capabilities, (&self.decorated(),), capabilities),
    {
        self.inner.get_capabilities()
    }

    fn cache_stats(&self) -> (stats: Option<P::CacheStats>)
        ensures
            call_ensures(P::cache_stats, (&self.decorated(),), stats),
    {
        self.inner.cache_stats()
    }
}

} // verus!
