//! The account-wide rate-limit block.

use crate::ai::delay::{Delay, MAX_NANOS};
use vstd::prelude::*;

verus! {

/// The longest wait, in nanoseconds, that a single rate-limit reply can ask
/// for: five minutes.
pub const MAX_RETRY_AFTER_NANOS: u128 = 300_000_000_000;

/// The end of the window that a rate-limit reply received at `now` opens.
pub open spec fn window_end(now: nat, retry_after: nat) -> nat {
    now + if retry_after <= MAX_RETRY_AFTER_NANOS {
        retry_after
    } else {
        MAX_RETRY_AFTER_NANOS as nat
    }
}

/// The block once it also has to last until `end`.
pub open spec fn extended(block: Option<nat>, end: nat) -> Option<nat> {
    match block {
        Some(until) if until >= end => Some(until),
        _ => Some(end),
    }
}

/// How long a call that arrives at `now` has to wait; `None` if it
/// may go ahead.
pub open spec fn remaining_wait(block: Option<nat>, now: nat) -> Option<nat> {
    match block {
        Some(until) if until > now => Some((until - now) as nat),
        _ => None,
    }
}

/// The block shared by every concurrent call of one account. Its view is the
/// reading of the clock until which calls are blocked, if they are at all.
#[derive(Debug)]
pub struct QuotaManager {
    blocked_until: Option<Delay>,
}

impl View for QuotaManager {
    type V = Option<nat>;

    closed spec fn view(&self) -> Option<nat> {
        match self.blocked_until {
            Some(until) => Some(until@),
            None => None,
        }
    }
}

impl QuotaManager {
    /// No block.
    pub fn new() -> (quota: QuotaManager)
        ensures
            quota@ == None::<nat>,
    {
        QuotaManager { blocked_until: None }
    }

    /// How long a call has to wait before it may be tried; `None` if it may be
    /// tried at once. A caller that waited asks again, since calls may have been
    /// blocked anew in the meantime.
    pub fn wait_for_access(&self, now: Delay) -> (wait: Option<Delay>)
        ensures
            match wait {
                Some(delay) => remaining_wait(self@, now@) == Some(delay@),
                None => remaining_wait(self@, now@) == None::<nat>,
            },
            match wait {
                Some(delay) => delay@ > 0 && self@ == Some(now@ + delay@),
                None => self@ matches Some(until) ==> until <= now@,
            },
    {
        match self.blocked_until {
            Some(until) => {
                let until_nanos: u128 = until.as_nanos();
                let now_nanos: u128 = now.as_nanos();
                if until_nanos > now_nanos {
                    Some(Delay::from_nanos(until_nanos - now_nanos))
                } else {
                    None
                }
            },
            None => None,
        }
    }

    /// Blocks calls for the window that a rate-limit reply asked for. The window
    /// is cut to five minutes, and a block that lasts longer already stays.
    pub fn report_quota_error(&mut self, now: Delay, retry_after: Delay)
        requires
            window_end(now@, retry_after@) <= MAX_NANOS,
        ensures
            final(self)@ == extended(old(self)@, window_end(now@, retry_after@)),
            final(self)@ matches Some(until) && {
                &&& until >= now@ + retry_after@ || until >= now@ + 300_000_000_000
                &&& old(self)@ matches Some(before) ==> until >= before
                &&& old(self)@ == Some(until) || (until <= now@ + retry_after@ && until <= now@
                    + 300_000_000_000)
            },
    {
        let asked: u128 = retry_after.as_nanos();
        let window: u128 = if asked <= MAX_RETRY_AFTER_NANOS {
            asked
        } else {
            MAX_RETRY_AFTER_NANOS
        };
        let end: u128 = now.as_nanos() + window;
        let blocked_for_longer = match self.blocked_until {
            Some(until) => until.as_nanos() >= end,
            None => false,
        };
        if !blocked_for_longer {
            self.blocked_until = Some(Delay::from_nanos(end));
        }
    }

    /// Lifts the block: a call that succeeded shows that the account is within
    /// its quota again.
    pub fn report_success(&mut self)
        ensures
            final(self)@ == None::<nat>,
    {
        self.blocked_until = None;
    }
}

/// A call is told to wait exactly if calls are blocked beyond its arrival, and then
/// until the block ends: neither longer nor shorter.
pub proof fn calls_wait_until_the_block_ends(block: Option<nat>, at: nat)
    ensures
        remaining_wait(block, at) matches Some(wait) ==> wait > 0 && block == Some(at + wait),
        remaining_wait(block, at) is None ==> (block matches Some(until) ==> until <= at),
{
}

/// A rate limit received at `now` holds every call back that is ready before the
/// time that the server asked for is over: it is told to wait until then at least.
/// Of a longer time than five minutes, five minutes count.
pub proof fn rate_limits_hold_calls_back_as_long_as_asked(
    block: Option<nat>,
    now: nat,
    retry_after: nat,
    at: nat,
)
    ensures
        ({
            let waits = remaining_wait(extended(block, window_end(now, retry_after)), at);
            &&& retry_after <= 300_000_000_000 && at < now + retry_after ==> {
                waits matches Some(wait) && at + wait >= now + retry_after
            }
            &&& retry_after > 300_000_000_000 && at < now + 300_000_000_000 ==> {
                waits matches Some(wait) && at + wait >= now + 300_000_000_000
            }
        }),
{
}

/// A rate limit holds no call back for longer than the server asked for, nor for
/// longer than five minutes: a call that waits beyond either would have had to wait
/// just as long without it.
pub proof fn rate_limits_hold_no_call_back_for_longer(
    block: Option<nat>,
    now: nat,
    retry_after: nat,
    at: nat,
)
    ensures
        remaining_wait(extended(block, window_end(now, retry_after)), at) matches Some(wait)
            ==> remaining_wait(block, at) == Some(wait) || (at + wait <= now + retry_after && at
            + wait <= now + 300_000_000_000),
{
}

/// Where calls are blocked by rate limits alone, it does not matter in which order
/// two of them came in.
pub proof fn order_of_rate_limits_does_not_matter(
    block: Option<nat>,
    now: nat,
    retry_after: nat,
    other_now: nat,
    other_retry_after: nat,
)
    ensures
        extended(
            extended(block, window_end(now, retry_after)),
            window_end(other_now, other_retry_after),
        ) == extended(
            extended(block, window_end(other_now, other_retry_after)),
            window_end(now, retry_after),
        ),
{
}

/// A rate limit never shortens a block: a call that had to wait before has to
/// wait at least as long after it.
pub proof fn block_is_never_shortened(block: Option<nat>, end: nat, at: nat)
    requires
        remaining_wait(block, at) is Some,
    ensures
        remaining_wait(extended(block, end), at) is Some,
        remaining_wait(extended(block, end), at)->0 >= remaining_wait(block, at)->0,
{
}

/// Whatever wait the server asks for, a rate limit blocks calls for five minutes
/// at most, unless they were blocked for longer before.
pub proof fn block_is_cut_to_five_minutes(block: Option<nat>, now: nat, retry_after: nat)
    ensures
        extended(block, window_end(now, retry_after)) matches Some(until) && (until <= now
            + MAX_RETRY_AFTER_NANOS || block == Some(until)),
{
}

/// Every call that arrives while the window of a rate limit is open waits until
/// the window is over.
pub proof fn every_call_waits_out_the_window(block: Option<nat>, end: nat, at: nat)
    requires
        at < end,
    ensures
        remaining_wait(extended(block, end), at) matches Some(wait) && at + wait >= end,
{
}

/// A call that waited as long as it was told to may go ahead, if calls were not
/// blocked anew in the meantime.
pub proof fn waiting_ends_the_block(block: Option<nat>, now: nat, later: nat)
    requires
        remaining_wait(block, now) matches Some(wait) && later >= now + wait,
    ensures
        remaining_wait(block, later) is None,
{
}

} // verus!
