//! What holds of a call from its first attempt to its answer.

use crate::ai::backoff_provider::{
    after, when_ready, ActionModel, CallEvent, CallModel, StepModel, MAX_ATTEMPTS,
};
use crate::ai::error_class::AiErrorClass;
use crate::ai::quota::{remaining_wait, window_end, MAX_RETRY_AFTER_NANOS};
use crate::ai::transient::{backoff, jitter_is_at_most_a_quarter, multiplier};
use vstd::arithmetic::power2::{lemma2_to64, lemma_pow2_strictly_increases};
use vstd::prelude::*;

verus! {

/// What the inner provider returned for one attempt, when, with which block in
/// force and with which word drawn. Other calls may change the block between
/// two attempts, so each reply has its own.
pub struct Reply {
    pub event: CallEvent,
    pub block: Option<nat>,
    pub now: nat,
    pub draw: u64,
}

impl Reply {
    /// The inner provider answered, one way or the other.
    pub open spec fn is_answer(self) -> bool {
        !(self.event is Ready)
    }

    /// The inner provider failed in a way that is worth another attempt.
    pub open spec fn is_retryable(self) -> bool {
        self.event matches CallEvent::Failed { class } && class.retryable()
    }

    /// The inner provider failed in a way that no attempt will mend.
    pub open spec fn is_fatal(self) -> bool {
        self.event matches CallEvent::Failed { class } && class is Fatal
    }

    /// The inner provider failed with a transient fault.
    pub open spec fn is_transient(self) -> bool {
        self.event matches CallEvent::Failed { class } && class is Transient
    }

    /// The server asked for no longer a wait than `limit`, if it failed with a
    /// transient fault.
    pub open spec fn asks_at_most(self, limit: nat) -> bool {
        self.event matches CallEvent::Failed { class } ==> class matches AiErrorClass::Transient {
            retry_after,
        } ==> retry_after@ <= limit
    }
}

/// What the caller of a call got.
pub enum Answer {
    /// Nothing yet.
    Pending,
    /// The response of the inner provider.
    Response,
    /// The last error of the inner provider.
    Error,
}

/// A call as it went.
pub struct RunModel {
    /// How often the inner provider was called.
    pub calls: nat,
    /// What the caller got.
    pub answer: Answer,
    /// How long the call slept because of transient faults, in nanoseconds.
    pub backed_off: nat,
}

/// How a call goes on if the inner provider replies as in `replies`.
pub open spec fn run(base: nat, call: CallModel, replies: Seq<Reply>) -> RunModel
    decreases replies.len(),
{
    if replies.len() == 0 {
        RunModel { calls: 0, answer: Answer::Pending, backed_off: 0 }
    } else {
        let reply = replies[0];
        let step = after(base, reply.block, call, reply.event, reply.now, reply.draw);
        match step.action {
            ActionModel::ReturnResponse => RunModel {
                calls: 1,
                answer: Answer::Response,
                backed_off: 0,
            },
            ActionModel::ReturnError => RunModel { calls: 1, answer: Answer::Error, backed_off: 0 },
            ActionModel::Sleep(wait) => {
                let rest = run(base, step.call, replies.drop_first());
                RunModel {
                    calls: rest.calls + 1,
                    answer: rest.answer,
                    backed_off: rest.backed_off + if reply.is_transient() { wait } else { 0 },
                }
            },
            ActionModel::CallInner => {
                let rest = run(base, step.call, replies.drop_first());
                RunModel { calls: rest.calls + 1, answer: rest.answer, backed_off: rest.backed_off }
            },
        }
    }
}

/// A request for which the inner provider has not been called yet.
pub open spec fn new_call() -> CallModel {
    CallModel { attempt: 0, transient_streak: 0 }
}

proof fn attempts_left_bound_the_run(base: nat, call: CallModel, replies: Seq<Reply>)
    requires
        call.in_progress(),
        forall|i: int| 0 <= i < replies.len() ==> (#[trigger] replies[i]).is_answer(),
    ensures
        call.attempt + run(base, call, replies).calls <= MAX_ATTEMPTS,
        call.attempt + replies.len() >= MAX_ATTEMPTS ==> !(run(base, call, replies).answer
            is Pending),
    decreases replies.len(),
{
    if replies.len() > 0 {
        let reply = replies[0];
        let step = after(base, reply.block, call, reply.event, reply.now, reply.draw);
        assert(reply.is_answer());
        if step.action is Sleep || step.action is CallInner {
            attempts_left_bound_the_run(base, step.call, replies.drop_first());
        }
    }
}

/// However the inner provider replies, it is called six times at most for one
/// request, and six replies are enough for an answer: no outage, however long,
/// keeps a call waiting for ever.
pub proof fn attempts_are_bounded(base: nat, replies: Seq<Reply>)
    requires
        forall|i: int| 0 <= i < replies.len() ==> (#[trigger] replies[i]).is_answer(),
    ensures
        run(base, new_call(), replies).calls <= MAX_ATTEMPTS,
        replies.len() >= MAX_ATTEMPTS ==> !(run(base, new_call(), replies).answer is Pending),
{
    attempts_left_bound_the_run(base, new_call(), replies);
}

proof fn run_after_retryable_failures(
    base: nat,
    call: CallModel,
    replies: Seq<Reply>,
    failures: nat,
)
    requires
        call.in_progress(),
        call.attempt + failures < MAX_ATTEMPTS,
        failures < replies.len(),
        forall|i: int| 0 <= i < failures ==> (#[trigger] replies[i]).is_retryable(),
    ensures
        replies[failures as int].event is Succeeded ==> {
            &&& run(base, call, replies).answer is Response
            &&& run(base, call, replies).calls == failures + 1
        },
        replies[failures as int].is_fatal() || (call.attempt + failures + 1 == MAX_ATTEMPTS
            && replies[failures as int].is_retryable()) ==> {
            &&& run(base, call, replies).answer is Error
            &&& run(base, call, replies).calls == failures + 1
        },
    decreases failures,
{
    if failures > 0 {
        let reply = replies[0];
        let step = after(base, reply.block, call, reply.event, reply.now, reply.draw);
        assert(reply.is_retryable());
        let rest = replies.drop_first();
        assert forall|i: int| 0 <= i < failures - 1 implies (#[trigger] rest[i]).is_retryable() by {
            assert(rest[i] == replies[i + 1]);
        }
        run_after_retryable_failures(base, step.call, rest, (failures - 1) as nat);
    }
}

/// A call that succeeds after fewer than six retryable failures is answered with
/// the response, and the inner provider is not called again.
pub proof fn retryable_failures_are_overcome(base: nat, replies: Seq<Reply>, failures: nat)
    requires
        failures < MAX_ATTEMPTS,
        failures < replies.len(),
        forall|i: int| 0 <= i < failures ==> (#[trigger] replies[i]).is_retryable(),
        replies[failures as int].event is Succeeded,
    ensures
        run(base, new_call(), replies).answer is Response,
        run(base, new_call(), replies).calls == failures + 1,
{
    run_after_retryable_failures(base, new_call(), replies, failures);
}

/// A fatal error is handed on without another attempt, whether it comes first or
/// after retryable failures.
pub proof fn fatal_errors_are_not_retried(base: nat, replies: Seq<Reply>, failures: nat)
    requires
        failures < MAX_ATTEMPTS,
        failures < replies.len(),
        forall|i: int| 0 <= i < failures ==> (#[trigger] replies[i]).is_retryable(),
        replies[failures as int].is_fatal(),
    ensures
        run(base, new_call(), replies).answer is Error,
        run(base, new_call(), replies).calls == failures + 1,
{
    run_after_retryable_failures(base, new_call(), replies, failures);
}

/// Six retryable failures in a row end the call: the last of them is handed on.
pub proof fn persistent_failures_are_given_up_on(base: nat, replies: Seq<Reply>)
    requires
        replies.len() >= MAX_ATTEMPTS,
        forall|i: int| 0 <= i < MAX_ATTEMPTS ==> (#[trigger] replies[i]).is_retryable(),
    ensures
        run(base, new_call(), replies).answer is Error,
        run(base, new_call(), replies).calls == MAX_ATTEMPTS,
{
    assert(replies[MAX_ATTEMPTS - 1].is_retryable());
    run_after_retryable_failures(base, new_call(), replies, (MAX_ATTEMPTS - 1) as nat);
}

/// The longer of sixteen times the base delay and `limit`.
pub open spec fn longest_backoff(base: nat, limit: nat) -> nat {
    if 16 * base >= limit {
        16 * base
    } else {
        limit
    }
}

proof fn backoff_within_attempts(base: nat, streak: nat, retry_after: nat, limit: nat)
    requires
        1 <= streak < MAX_ATTEMPTS,
        retry_after <= limit,
    ensures
        backoff(base, streak, retry_after) <= longest_backoff(base, limit),
{
    lemma2_to64();
    if streak < 5 {
        lemma_pow2_strictly_increases((streak - 1) as nat, 4);
    }
    assert(multiplier(streak) <= 16);
    assert(base * multiplier(streak) <= 16 * base) by (nonlinear_arith)
        requires
            multiplier(streak) <= 16,
    ;
}

proof fn attempts_left_bound_the_backoff(
    base: nat,
    call: CallModel,
    replies: Seq<Reply>,
    limit: nat,
)
    requires
        call.in_progress(),
        forall|i: int| 0 <= i < replies.len() ==> (#[trigger] replies[i]).is_answer(),
        forall|i: int| 0 <= i < replies.len() ==> (#[trigger] replies[i]).asks_at_most(limit),
    ensures
        4 * run(base, call, replies).backed_off <= (MAX_ATTEMPTS - 1 - call.attempt) * (5
            * longest_backoff(base, limit) + 1),
    decreases replies.len(),
{
    let most = 5 * longest_backoff(base, limit) + 1;
    let left = MAX_ATTEMPTS - 1 - call.attempt;
    assert(0 <= left * most) by (nonlinear_arith)
        requires
            left >= 0,
            most >= 0,
    ;
    if replies.len() > 0 {
        let reply = replies[0];
        let step = after(base, reply.block, call, reply.event, reply.now, reply.draw);
        assert(reply.is_answer());
        assert(reply.asks_at_most(limit));
        if step.action is Sleep || step.action is CallInner {
            let rest = replies.drop_first();
            assert forall|i: int| 0 <= i < rest.len() implies (#[trigger] rest[i]).is_answer()
                && rest[i].asks_at_most(limit) by {
                assert(rest[i] == replies[i + 1]);
                assert(replies[i + 1].is_answer() && replies[i + 1].asks_at_most(limit));
            }
            attempts_left_bound_the_backoff(base, step.call, rest, limit);
            assert(left * most == (left - 1) * most + most) by (nonlinear_arith);
            match reply.event {
                CallEvent::Failed { class: AiErrorClass::Transient { retry_after } } => {
                    let wait = backoff(base, step.call.transient_streak, retry_after@);
                    backoff_within_attempts(base, step.call.transient_streak, retry_after@, limit);
                    jitter_is_at_most_a_quarter(wait, reply.draw);
                },
                _ => {},
            }
        }
    }
}

/// The backoffs of one call add up to no more than five, each of them the
/// longer of sixteen base delays and the longest wait that a server asked for,
/// with a quarter of jitter on top. The odd nanoseconds come from rounding.
pub proof fn time_backed_off_is_bounded(base: nat, replies: Seq<Reply>, limit: nat)
    requires
        forall|i: int| 0 <= i < replies.len() ==> (#[trigger] replies[i]).is_answer(),
        forall|i: int| 0 <= i < replies.len() ==> (#[trigger] replies[i]).asks_at_most(limit),
    ensures
        4 * run(base, new_call(), replies).backed_off <= 5 * (5 * longest_backoff(base, limit) + 1),
{
    attempts_left_bound_the_backoff(base, new_call(), replies, limit);
}

/// What the inner provider returned for one attempt of a call that is alone on
/// its decorator, how long it took for that, how much longer than asked for the
/// sleep after it lasted, if there was one, and which word was drawn.
pub struct LoneReply {
    pub event: CallEvent,
    pub took: nat,
    pub overslept: nat,
    pub draw: u64,
}

impl LoneReply {
    /// The inner provider answered, one way or the other, and the server asked for
    /// no longer a wait than `limit` if it failed with a transient fault.
    pub open spec fn is_answer_within(self, limit: nat) -> bool {
        &&& !(self.event is Ready)
        &&& self.event matches CallEvent::Failed { class } ==> {
            class matches AiErrorClass::Transient { retry_after } ==> retry_after@ <= limit
        }
    }
}

/// A call that is alone on its decorator, as it went.
pub struct LoneRunModel {
    /// What the caller got.
    pub answer: Answer,
    /// How long the call waited out blocks, in nanoseconds.
    pub held_back: nat,
    /// How long the call slept because of transient faults, in nanoseconds.
    pub backed_off: nat,
    /// The reading of the clock at the answer, or when the call goes to the inner
    /// provider again without one.
    pub ended: nat,
}

/// How a call goes on that is alone on its decorator, from the moment when it is
/// ready at `now`. It sleeps as it is told to, and is ready again afterwards.
pub open spec fn lone_run(
    base: nat,
    block: Option<nat>,
    call: CallModel,
    now: nat,
    replies: Seq<LoneReply>,
) -> LoneRunModel
    decreases replies.len(),
{
    let wait = match remaining_wait(block, now) {
        Some(wait) => wait,
        None => 0,
    };
    let begun = now + wait;
    if replies.len() == 0 {
        LoneRunModel { answer: Answer::Pending, held_back: wait, backed_off: 0, ended: begun }
    } else {
        let reply = replies[0];
        let replied = begun + reply.took;
        let step = after(base, block, call, reply.event, replied, reply.draw);
        match step.action {
            ActionModel::ReturnResponse => LoneRunModel {
                answer: Answer::Response,
                held_back: wait,
                backed_off: 0,
                ended: replied,
            },
            ActionModel::ReturnError => LoneRunModel {
                answer: Answer::Error,
                held_back: wait,
                backed_off: 0,
                ended: replied,
            },
            ActionModel::Sleep(sleep) => {
                let rest = lone_run(
                    base,
                    step.block,
                    step.call,
                    replied + sleep + reply.overslept,
                    replies.drop_first(),
                );
                let transient = reply.event matches CallEvent::Failed { class } && class
                    is Transient;
                LoneRunModel {
                    held_back: rest.held_back + wait + if transient {
                        0
                    } else {
                        sleep
                    },
                    backed_off: rest.backed_off + if transient {
                        sleep
                    } else {
                        0
                    },
                    ..rest
                }
            },
            ActionModel::CallInner => {
                let rest = lone_run(base, step.block, step.call, replied, replies.drop_first());
                LoneRunModel { held_back: rest.held_back + wait, ..rest }
            },
        }
    }
}

/// The time that the inner provider took for its replies, and that sleeps lasted
/// longer than asked for.
pub open spec fn time_of_others(replies: Seq<LoneReply>) -> nat
    decreases replies.len(),
{
    if replies.len() == 0 {
        0
    } else {
        replies[0].took + replies[0].overslept + time_of_others(replies.drop_first())
    }
}

/// Four times the longest sleep between two attempts of a call that is alone on
/// its decorator: five minutes for a rate limit, or the longest backoff with its
/// jitter, whichever is longer.
pub open spec fn four_longest_waits(base: nat, limit: nat) -> nat {
    let jittered = 5 * longest_backoff(base, limit) + 1;
    if jittered >= 4 * MAX_RETRY_AFTER_NANOS {
        jittered
    } else {
        4 * MAX_RETRY_AFTER_NANOS as nat
    }
}

proof fn attempts_left_bound_the_wait(
    base: nat,
    block: Option<nat>,
    call: CallModel,
    now: nat,
    replies: Seq<LoneReply>,
    limit: nat,
)
    requires
        call.in_progress(),
        remaining_wait(block, now) is None,
        forall|i: int| 0 <= i < replies.len() ==> (#[trigger] replies[i]).is_answer_within(limit),
    ensures
        ({
            let lone = lone_run(base, block, call, now, replies);
            let left = MAX_ATTEMPTS - 1 - call.attempt;
            let most = four_longest_waits(base, limit);
            &&& replies.len() > left ==> !(lone.answer is Pending)
            &&& lone.held_back <= left * MAX_RETRY_AFTER_NANOS
            &&& 4 * (lone.held_back + lone.backed_off) <= left * most
            &&& lone.ended <= now + lone.held_back + lone.backed_off + time_of_others(replies)
        }),
    decreases replies.len(),
{
    let most = four_longest_waits(base, limit) as int;
    let window = MAX_RETRY_AFTER_NANOS as int;
    let left = MAX_ATTEMPTS - 1 - call.attempt;
    assert(0 <= left * most && 0 <= left * window) by (nonlinear_arith)
        requires
            left >= 0,
            most >= 0,
            window >= 0,
    ;
    if replies.len() > 0 {
        let reply = replies[0];
        assert(reply.is_answer_within(limit));
        let replied = now + reply.took;
        let step = after(base, block, call, reply.event, replied, reply.draw);
        if step.action is Sleep || step.action is CallInner {
            let rest = replies.drop_first();
            assert forall|i: int| 0 <= i < rest.len() implies (
            #[trigger] rest[i]).is_answer_within(limit) by {
                assert(rest[i] == replies[i + 1]);
                assert(replies[i + 1].is_answer_within(limit));
            }
            let woken = match step.action {
                ActionModel::Sleep(sleep) => replied + sleep + reply.overslept,
                _ => replied,
            };
            attempts_left_bound_the_wait(base, step.block, step.call, woken, rest, limit);
            assert(left * most == (left - 1) * most + most) by (nonlinear_arith);
            assert(left * window == (left - 1) * window + window) by (nonlinear_arith);
            match reply.event {
                CallEvent::Failed { class: AiErrorClass::Transient { retry_after } } => {
                    let wait = backoff(base, step.call.transient_streak, retry_after@);
                    backoff_within_attempts(base, step.call.transient_streak, retry_after@, limit);
                    jitter_is_at_most_a_quarter(wait, reply.draw);
                },
                _ => {},
            }
        }
    }
}

/// A call that is alone on its decorator and finds nothing blocked has an end in
/// sight. Its caller has an answer after six replies at most. It waits for rate
/// limits as long as five windows of five minutes at most. All of its sleeps
/// together last no longer than five of the longest that there can be, a window or
/// a backoff with its jitter. Nothing else comes on top of the time that the inner
/// provider takes and that sleeps last longer than asked for.
pub proof fn time_of_a_lone_call_is_bounded(
    base: nat,
    block: Option<nat>,
    now: nat,
    replies: Seq<LoneReply>,
    limit: nat,
)
    requires
        remaining_wait(block, now) is None,
        forall|i: int| 0 <= i < replies.len() ==> (#[trigger] replies[i]).is_answer_within(limit),
    ensures
        ({
            let lone = lone_run(base, block, new_call(), now, replies);
            &&& replies.len() >= MAX_ATTEMPTS ==> !(lone.answer is Pending)
            &&& lone.held_back <= 5 * MAX_RETRY_AFTER_NANOS
            &&& 4 * (lone.held_back + lone.backed_off) <= 5 * four_longest_waits(base, limit)
            &&& lone.ended <= now + lone.held_back + lone.backed_off + time_of_others(replies)
        }),
{
    attempts_left_bound_the_wait(base, block, new_call(), now, replies, limit);
}

/// Waiting, for whatever reason, uses up no attempt and changes no block.
pub proof fn waiting_uses_no_attempt(
    base: nat,
    block: Option<nat>,
    call: CallModel,
    now: nat,
    draw: u64,
)
    ensures
        after(base, block, call, CallEvent::Ready, now, draw).call == call,
        after(base, block, call, CallEvent::Ready, now, draw).block == block,
{
}

/// A transient fault or a fatal error of one call holds no other call back.
pub proof fn only_rate_limits_block_other_calls(
    base: nat,
    block: Option<nat>,
    call: CallModel,
    event: CallEvent,
    now: nat,
    draw: u64,
)
    requires
        event matches CallEvent::Failed { class } ==> !(class is RateLimit),
    ensures
        after(base, block, call, event, now, draw).block == if event is Succeeded {
            None
        } else {
            block
        },
{
}

/// A rate limit that one call runs into, be it on its last attempt, holds every
/// call back: whichever is ready before the window is over sleeps until it is
/// over, at least. The window is as long as the server asked for, five minutes at
/// most.
pub proof fn rate_limits_hold_every_call_back(
    base: nat,
    block: Option<nat>,
    call: CallModel,
    class: AiErrorClass,
    now: nat,
    draw: u64,
    at: nat,
)
    requires
        class is RateLimit,
        at < now + class->RateLimit_retry_after@,
        at < now + 300_000_000_000,
    ensures
        when_ready(after(base, block, call, CallEvent::Failed { class }, now, draw).block, at)
            matches ActionModel::Sleep(wait) && (at + wait >= now + class->RateLimit_retry_after@
            || at + wait >= now + 300_000_000_000),
{
}

/// Something that happened to one of the concurrent calls, when, and with which
/// word drawn.
pub struct Happening {
    pub call: CallModel,
    pub event: CallEvent,
    pub now: nat,
    pub draw: u64,
}

impl Happening {
    /// What it leads to with the given block in force.
    pub open spec fn step(self, base: nat, block: Option<nat>) -> StepModel {
        after(base, block, self.call, self.event, self.now, self.draw)
    }
}

/// The block after all that happened, to whichever call.
pub open spec fn block_after(base: nat, block: Option<nat>, history: Seq<Happening>) -> Option<nat>
    decreases history.len(),
{
    if history.len() == 0 {
        block
    } else {
        history.last().step(base, block_after(base, block, history.drop_last())).block
    }
}

proof fn block_lasts(base: nat, block: Option<nat>, history: Seq<Happening>, end: nat)
    requires
        block matches Some(until) && until >= end,
        forall|i: int| 0 <= i < history.len() ==> !((#[trigger] history[i]).event is Succeeded),
    ensures
        block_after(base, block, history) matches Some(until) && until >= end,
    decreases history.len(),
{
    if history.len() > 0 {
        let earlier = history.drop_last();
        assert forall|i: int| 0 <= i < earlier.len() implies !((#[trigger] earlier[i]).event
            is Succeeded) by {
            assert(earlier[i] == history[i]);
        }
        block_lasts(base, block, earlier, end);
        assert(!(history[history.len() - 1].event is Succeeded));
    }
}

/// Once a call has run into a rate limit, the inner provider is called for no
/// request at all until the window is over, whatever else happens to the
/// concurrent calls, short of a success that lifts the block.
pub proof fn no_call_goes_ahead_before_the_window_is_over(
    base: nat,
    block: Option<nat>,
    limited: Happening,
    history: Seq<Happening>,
    next: Happening,
)
    requires
        limited.event matches CallEvent::Failed { class } && class is RateLimit,
        forall|i: int| 0 <= i < history.len() ==> !((#[trigger] history[i]).event is Succeeded),
        next.now < limited.now + limited.event->class->RateLimit_retry_after@,
        next.now < limited.now + 300_000_000_000,
    ensures
        !(next.step(base, block_after(base, limited.step(base, block).block, history)).action
            is CallInner),
{
    let end = window_end(limited.now, limited.event->class->RateLimit_retry_after@);
    block_lasts(base, limited.step(base, block).block, history, end);
}

/// After a success no call is held back, until the next rate limit.
pub proof fn success_lets_every_call_go_ahead(
    base: nat,
    block: Option<nat>,
    call: CallModel,
    now: nat,
    draw: u64,
    at: nat,
)
    ensures
        when_ready(after(base, block, call, CallEvent::Succeeded, now, draw).block, at)
            == ActionModel::CallInner,
{
}

} // verus!
