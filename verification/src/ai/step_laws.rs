//! What each event leads to, for the call that it happens to and for all others.

use crate::ai::backoff_provider::{
    after, always_in_range, in_range, ActionModel, CallAction, CallEvent, CallModel,
};
use crate::ai::delay::Delay;
use crate::ai::error_class::AiErrorClass;
use crate::ai::transient::{
    backoff, backoff_doubles_up_to_sixty_base_delays, jitter_grows_with_the_draw,
    jitter_is_at_most_a_quarter, jitter_is_the_drawn_part_of_a_quarter,
    jitter_takes_up_the_whole_quarter, multiplier,
};
use vstd::arithmetic::power2::pow2;
use vstd::prelude::*;

verus! {

/// A call that is ready sleeps exactly until the block ends, if it has not ended
/// yet; else it goes to the inner provider.
pub proof fn ready_calls_wait_or_go_ahead(
    base: nat,
    block: Option<nat>,
    call: CallModel,
    now: nat,
    draw: u64,
)
    ensures
        ({
            let step = after(base, block, call, CallEvent::Ready, now, draw);
            &&& step.call == call && step.block == block
            &&& step.action matches ActionModel::Sleep(wait) ==> wait > 0 && block == Some(
                now + wait,
            )
            &&& !(step.action is Sleep) ==> {
                &&& step.action is CallInner
                &&& block matches Some(until) ==> until <= now
            }
        }),
{
}

/// A success is handed on, and lifts the block for every call that is ready after
/// it, whenever that is.
pub proof fn successes_are_handed_on_and_lift_the_block(
    base: nat,
    block: Option<nat>,
    call: CallModel,
    now: nat,
    draw: u64,
    other: CallModel,
    at: nat,
)
    ensures
        ({
            let step = after(base, block, call, CallEvent::Succeeded, now, draw);
            &&& step.action is ReturnResponse
            &&& step.call == call
            &&& after(base, step.block, other, CallEvent::Ready, at, draw).action is CallInner
        }),
{
}

/// A fatal error is handed on at once, at whichever attempt, and no other call
/// notices it.
pub proof fn fatal_errors_are_handed_on_at_once(
    base: nat,
    block: Option<nat>,
    call: CallModel,
    now: nat,
    draw: u64,
)
    ensures
        ({
            let fatal = CallEvent::Failed { class: AiErrorClass::Fatal };
            let step = after(base, block, call, fatal, now, draw);
            &&& step.action is ReturnError
            &&& step.block == block
            &&& step.call.attempt == call.attempt + 1
            &&& step.call.transient_streak == call.transient_streak
        }),
{
}

/// Five failures that are worth another attempt do not end a call, and the sixth
/// does. Each counts as one attempt, and no call backs off after the sixth.
pub proof fn sixth_failure_ends_the_call(
    base: nat,
    block: Option<nat>,
    call: CallModel,
    class: AiErrorClass,
    now: nat,
    draw: u64,
)
    requires
        !(class is Fatal),
    ensures
        ({
            let step = after(base, block, call, CallEvent::Failed { class }, now, draw);
            &&& step.call.attempt == call.attempt + 1
            &&& call.attempt < 5 ==> step.action is Sleep || step.action is CallInner
            &&& call.attempt >= 5 ==> step.action is ReturnError && step.call.transient_streak
                == call.transient_streak
        }),
{
}

/// A rate limit received at `now`, be it at the last attempt of a call, sends every
/// call to sleep that is ready before the time that the server asked for is over,
/// until then at least. Of a longer time than five minutes, five minutes count.
pub proof fn rate_limits_send_every_call_to_sleep(
    base: nat,
    block: Option<nat>,
    call: CallModel,
    retry_after: Delay,
    now: nat,
    draw: u64,
    other: CallModel,
    at: nat,
)
    ensures
        ({
            let class = AiErrorClass::RateLimit { retry_after };
            let step = after(base, block, call, CallEvent::Failed { class }, now, draw);
            let next = after(base, step.block, other, CallEvent::Ready, at, draw).action;
            &&& retry_after@ <= 300_000_000_000 && at < now + retry_after@ ==> {
                next matches ActionModel::Sleep(wait) && at + wait >= now + retry_after@
            }
            &&& retry_after@ > 300_000_000_000 && at < now + 300_000_000_000 ==> {
                next matches ActionModel::Sleep(wait) && at + wait >= now + 300_000_000_000
            }
        }),
{
}

/// A rate limit never lets a call go ahead that would have slept without it, nor
/// sleep for less. A call that sleeps longer because of it sleeps no longer than
/// the server asked for, nor beyond five minutes.
pub proof fn rate_limits_only_add_to_a_sleep(
    base: nat,
    block: Option<nat>,
    call: CallModel,
    retry_after: Delay,
    now: nat,
    draw: u64,
    other: CallModel,
    at: nat,
)
    ensures
        ({
            let class = AiErrorClass::RateLimit { retry_after };
            let step = after(base, block, call, CallEvent::Failed { class }, now, draw);
            let without = after(base, block, other, CallEvent::Ready, at, draw).action;
            let with = after(base, step.block, other, CallEvent::Ready, at, draw).action;
            &&& without matches ActionModel::Sleep(wait) ==> {
                with matches ActionModel::Sleep(longer) && longer >= wait
            }
            &&& with matches ActionModel::Sleep(wait) ==> with == without || (at + wait <= now
                + retry_after@ && at + wait <= now + 300_000_000_000)
        }),
{
}

/// A call that runs into a rate limit with attempts left is treated as any call
/// that is ready at that moment: it gets no start over the others.
pub proof fn limited_calls_wait_like_all_others(
    base: nat,
    block: Option<nat>,
    call: CallModel,
    retry_after: Delay,
    now: nat,
    draw: u64,
    other: CallModel,
)
    requires
        call.attempt < 5,
    ensures
        ({
            let class = AiErrorClass::RateLimit { retry_after };
            let step = after(base, block, call, CallEvent::Failed { class }, now, draw);
            &&& step.action == after(base, step.block, other, CallEvent::Ready, now, draw).action
            &&& step.call.transient_streak == call.transient_streak
        }),
{
}

/// A transient fault sends its call alone to sleep. With the smallest draw the
/// sleep is the base delay, doubled for each transient fault before, sixty base
/// delays at most, or as long as the server asked for, whichever is longer.
pub proof fn transient_faults_send_one_call_to_sleep(
    base: nat,
    block: Option<nat>,
    call: CallModel,
    retry_after: Delay,
    now: nat,
    draw: u64,
)
    requires
        call.attempt < 5,
    ensures
        ({
            let class = AiErrorClass::Transient { retry_after };
            let step = after(base, block, call, CallEvent::Failed { class }, now, draw);
            let plain = after(base, block, call, CallEvent::Failed { class }, now, 0).action;
            let doubled = base * pow2(call.transient_streak);
            &&& step.block == block
            &&& step.call.transient_streak == call.transient_streak + 1
            &&& step.action is Sleep
            &&& plain matches ActionModel::Sleep(wait) && {
                &&& wait >= retry_after@
                &&& wait >= doubled || wait >= 60 * base
                &&& wait == retry_after@ || (wait <= doubled && wait <= 60 * base)
            }
        }),
{
    let streak = call.transient_streak + 1;
    let wait = backoff(base, streak, retry_after@);
    let doubles = pow2(call.transient_streak);
    jitter_grows_with_the_draw(wait, 0, 0);
    assert(multiplier(streak) == if doubles <= 60 { doubles } else { 60 });
    assert(base * multiplier(streak) <= base * doubles && base * multiplier(streak) <= 60 * base)
        by (nonlinear_arith)
        requires
            multiplier(streak) <= doubles,
            multiplier(streak) <= 60,
    ;
    assert(base * 60 == 60 * base) by (nonlinear_arith);
}

/// After any transient fault of a call, the first or a later one, the draw adds to
/// the sleep the part of a quarter that its upper 53 bits stand for, to the nearest
/// nanosecond.
pub proof fn every_backoff_is_jittered(
    base: nat,
    block: Option<nat>,
    call: CallModel,
    retry_after: Delay,
    now: nat,
    draw: u64,
)
    requires
        call.attempt < 5,
    ensures
        ({
            let fault = CallEvent::Failed { class: AiErrorClass::Transient { retry_after } };
            let plain = after(base, block, call, fault, now, 0).action;
            let drawn = after(base, block, call, fault, now, draw).action;
            plain matches ActionModel::Sleep(wait) && drawn matches ActionModel::Sleep(sleep) && {
                let extra = sleep - wait;
                let exact = wait * (draw / 2_048);
                36_028_797_018_963_968 * (2 * extra - 1) <= 2 * exact < 36_028_797_018_963_968 * (2
                    * extra + 1)
            }
        }),
{
    let wait = backoff(base, call.transient_streak + 1, retry_after@);
    jitter_grows_with_the_draw(wait, 0, draw);
    jitter_is_the_drawn_part_of_a_quarter(wait, draw);
}

/// The draws spread calls that failed together over a whole quarter of the sleep,
/// after the first transient fault and after every later one. A larger draw makes
/// for no shorter a sleep. The middle one adds an eighth to the sleep of the
/// smallest, and the largest a quarter, but for a part in 2^53 and rounding.
pub proof fn calls_that_failed_together_are_spread_out(
    base: nat,
    block: Option<nat>,
    call: CallModel,
    retry_after: Delay,
    now: nat,
    draw: u64,
    larger: u64,
)
    requires
        call.attempt < 5,
        draw <= larger,
    ensures
        ({
            let fault = CallEvent::Failed { class: AiErrorClass::Transient { retry_after } };
            let wait = after(base, block, call, fault, now, 0).action->Sleep_0;
            let half: u64 = 0x8000_0000_0000_0000;
            let middle = after(base, block, call, fault, now, half).action->Sleep_0;
            let most = after(base, block, call, fault, now, u64::MAX).action->Sleep_0;
            &&& after(base, block, call, fault, now, draw).action->Sleep_0 <= after(
                base,
                block,
                call,
                fault,
                now,
                larger,
            ).action->Sleep_0
            &&& 9 * wait <= 8 * middle + 4 && 8 * middle <= 9 * wait + 4
            &&& 4 * most <= 5 * wait + 1
            &&& wait <= 18_014_398_509_481_984 ==> 5 * wait <= 4 * most + 4
            &&& 9_007_199_254_740_992 * (5 * wait) <= 9_007_199_254_740_992 * (4 * most + 2) + wait
        }),
{
    let wait = backoff(base, call.transient_streak + 1, retry_after@);
    jitter_grows_with_the_draw(wait, draw, larger);
    jitter_is_at_most_a_quarter(wait, u64::MAX);
    jitter_takes_up_the_whole_quarter(wait);
}

/// From one transient fault of a call to the next, the smallest sleep doubles, up
/// to sixty base delays, as long as the server asks for nothing.
pub proof fn sleeps_double_from_fault_to_fault(
    base: nat,
    block: Option<nat>,
    call: CallModel,
    retry_after: Delay,
    now: nat,
    draw: u64,
    later: nat,
)
    requires
        call.attempt < 4,
        retry_after@ == 0,
    ensures
        ({
            let fault = CallEvent::Failed { class: AiErrorClass::Transient { retry_after } };
            let first = after(base, block, call, fault, now, 0).action->Sleep_0;
            let called = after(base, block, call, fault, now, draw).call;
            let second = after(base, block, called, fault, later, 0).action->Sleep_0;
            &&& call.transient_streak == 0 ==> first == base
            &&& 2 * first <= 60 * base ==> second == 2 * first
            &&& 2 * first >= 60 * base ==> second == 60 * base
        }),
{
    let streak = call.transient_streak + 1;
    backoff_doubles_up_to_sixty_base_delays(base, streak);
    jitter_grows_with_the_draw(backoff(base, streak, 0), 0, 0);
    jitter_grows_with_the_draw(backoff(base, streak + 1, 0), 0, 0);
}

/// An event can be dealt with exactly if what it leads to is no longer than the
/// longest span: the reading of the clock at the end of the time that a rate limit
/// asks for, cut to five minutes, or the sleep after a transient fault.
pub proof fn events_are_refused_for_immense_spans_only(
    base: nat,
    call: CallModel,
    event: CallEvent,
    now: nat,
    draw: u64,
)
    ensures
        in_range(base, call, event, now, draw) <==> match event {
            CallEvent::Failed { class: AiErrorClass::RateLimit { retry_after } } => now
                + retry_after@ <= 18_446_744_073_709_551_615_999_999_999 || now + 300_000_000_000
                <= 18_446_744_073_709_551_615_999_999_999,
            _ => after(base, None, call, event, now, draw).action matches ActionModel::Sleep(sleep)
                ==> sleep <= 18_446_744_073_709_551_615_999_999_999,
        },
        always_in_range(base, call, event, now) <==> in_range(base, call, event, now, u64::MAX),
{
    assert forall|word: u64| in_range(base, call, event, now, u64::MAX) implies #[trigger] in_range(
        base,
        call,
        event,
        now,
        word,
    ) by {
        if let CallEvent::Failed { class: AiErrorClass::Transient { retry_after } } = event {
            let wait = backoff(base, call.transient_streak + 1, retry_after@);
            jitter_grows_with_the_draw(wait, word, u64::MAX);
        }
    }
}

/// What to do next for a call reads the same in contracts as in the program.
pub proof fn actions_are_what_they_say(action: CallAction)
    ensures
        match action {
            CallAction::Sleep(delay) => action@ == ActionModel::Sleep(delay@),
            CallAction::CallInner => action@ is CallInner,
            CallAction::ReturnResponse => action@ is ReturnResponse,
            CallAction::ReturnError => action@ is ReturnError,
        },
{
}

} // verus!
