use sashiko::ai::backoff_provider::{
    BackoffCall, BackoffProvider, CallAction, CallEvent, MAX_ATTEMPTS,
};
use sashiko::ai::delay::{Delay, MAX_NANOS};
use sashiko::ai::error_class::AiErrorClass;
use sashiko::ai::provider::AiProvider;
use std::cell::Cell;

const MILLI: u128 = 1_000_000;
const SEC: u128 = 1_000_000_000;

enum Behaviour {
    Transient,
    RateLimit,
    Fatal,
}

struct MockProvider {
    calls: Cell<u32>,
    fail_times: u32,
    behaviour: Behaviour,
    rate_limit_after: Delay,
}

impl MockProvider {
    fn generate_content(&self) -> Result<&'static str, AiErrorClass> {
        let n = self.calls.get();
        self.calls.set(n + 1);
        if n < self.fail_times {
            return Err(match self.behaviour {
                Behaviour::Transient => AiErrorClass::Transient {
                    retry_after: Delay::from_secs(0),
                },
                Behaviour::RateLimit => AiErrorClass::RateLimit {
                    retry_after: self.rate_limit_after,
                },
                Behaviour::Fatal => AiErrorClass::Fatal,
            });
        }
        Ok("ok")
    }
}

impl AiProvider for MockProvider {
    type Request = Vec<String>;
    type Capabilities = (String, usize);
    type CacheStats = (u64, u64);

    fn estimate_tokens(&self, request: &Vec<String>) -> usize {
        7 * request.len()
    }

    fn get_capabilities(&self) -> (String, usize) {
        ("mock".to_string(), 1000)
    }

    fn cache_stats(&self) -> Option<(u64, u64)> {
        Some((self.fail_times as u64, 2))
    }
}

fn mock(behaviour: Behaviour, fail_times: u32, rate_limit_after: Delay) -> MockProvider {
    MockProvider {
        calls: Cell::new(0),
        fail_times,
        behaviour,
        rate_limit_after,
    }
}

fn fast(inner: MockProvider) -> BackoffProvider<MockProvider> {
    BackoffProvider::with_base_delay(inner, Delay::from_nanos(MILLI))
}

/// Runs one call against a clock that a sleep moves on, and returns the answer
/// with the sleeps that were taken.
fn drive(
    provider: &mut BackoffProvider<MockProvider>,
    clock: &mut u128,
) -> (Result<&'static str, AiErrorClass>, Vec<u128>) {
    let mut call = BackoffCall::new();
    let mut event = CallEvent::Ready;
    let mut reply = Err(AiErrorClass::Fatal);
    let mut sleeps = Vec::new();
    loop {
        let now = Delay::from_nanos(*clock);
        assert!(provider.accepts(&call, event, now));
        event = match provider.step(&mut call, event, now) {
            CallAction::Sleep(delay) => {
                sleeps.push(delay.as_nanos());
                *clock += delay.as_nanos();
                CallEvent::Ready
            }
            CallAction::CallInner => {
                reply = provider.inner().generate_content();
                match reply {
                    Ok(_) => CallEvent::Succeeded,
                    Err(class) => CallEvent::Failed { class },
                }
            }
            CallAction::ReturnResponse | CallAction::ReturnError => return (reply, sleeps),
        };
    }
}

#[test]
fn transient_backs_off_then_succeeds() {
    let mut p = fast(mock(Behaviour::Transient, 3, Delay::from_secs(0)));
    let (resp, sleeps) = drive(&mut p, &mut 0);
    assert_eq!(resp.unwrap(), "ok");
    assert_eq!(p.inner().calls.get(), 4); // 3 transient failures + success
    assert_eq!(sleeps.len(), 3);
}

#[test]
fn transient_gives_up_after_max_attempts() {
    let mut p = fast(mock(Behaviour::Transient, u32::MAX, Delay::from_secs(0)));
    let (err, _) = drive(&mut p, &mut 0);
    assert!(err.is_err());
    assert_eq!(p.inner().calls.get(), MAX_ATTEMPTS); // bounded, no infinite retry
}

#[test]
fn fatal_propagates_without_retry() {
    let mut p = fast(mock(Behaviour::Fatal, u32::MAX, Delay::from_secs(0)));
    let (err, _) = drive(&mut p, &mut 0);
    assert!(err.is_err());
    assert_eq!(p.inner().calls.get(), 1); // no retry on fatal
}

#[test]
fn rate_limit_waits_then_succeeds() {
    let mut p = fast(mock(Behaviour::RateLimit, 2, Delay::from_nanos(5 * MILLI)));
    let mut clock = 0;
    let (resp, sleeps) = drive(&mut p, &mut clock);
    assert_eq!(resp.unwrap(), "ok");
    assert_eq!(p.inner().calls.get(), 3); // 2 rate-limit failures + success
    assert_eq!(sleeps, vec![5 * MILLI, 5 * MILLI]);
    assert_eq!(clock, 10 * MILLI);
}

#[test]
fn a_lone_call_waits_out_five_windows_at_most() {
    let mut p = fast(mock(Behaviour::RateLimit, 5, Delay::from_secs(600)));
    let mut clock = 7 * SEC;
    let (resp, sleeps) = drive(&mut p, &mut clock);
    assert_eq!(resp.unwrap(), "ok");
    assert_eq!(sleeps, vec![300 * SEC; 5]);
    assert_eq!(clock, 1507 * SEC);
    let mut p = fast(mock(Behaviour::RateLimit, u32::MAX, Delay::from_secs(600)));
    let (resp, sleeps) = drive(&mut p, &mut 0);
    assert!(resp.is_err());
    assert_eq!(sleeps, vec![300 * SEC; 5]);
}

#[test]
fn six_attempts_are_made_and_no_more() {
    assert_eq!(MAX_ATTEMPTS, 6);
    let mut p = fast(mock(Behaviour::Transient, 5, Delay::from_secs(0)));
    assert_eq!(drive(&mut p, &mut 0).0, Ok("ok"));
    assert_eq!(p.inner().calls.get(), 6);
    let mut p = fast(mock(Behaviour::Transient, 6, Delay::from_secs(0)));
    assert_eq!(
        drive(&mut p, &mut 0).0,
        Err(AiErrorClass::Transient {
            retry_after: Delay::from_secs(0)
        })
    );
    assert_eq!(p.inner().calls.get(), 6);
}

#[test]
fn sleeps_double_from_the_base_delay() {
    let mut p = BackoffProvider::new(mock(Behaviour::Transient, 5, Delay::from_secs(0)));
    let (resp, sleeps) = drive(&mut p, &mut 0);
    assert!(resp.is_ok());
    assert_eq!(sleeps.len(), 5);
    for (i, slept) in sleeps.iter().enumerate() {
        let base = SEC << i;
        assert!(base <= *slept && 4 * *slept <= 5 * base + 1, "{slept}");
    }
    assert!(4 * sleeps.iter().sum::<u128>() <= 5 * (5 * 16 * SEC + 1));
}

#[test]
fn jitter_is_drawn_anew_each_time() {
    let mut seen = Vec::new();
    for _ in 0..50 {
        let mut p = BackoffProvider::new(());
        let mut call = BackoffCall::new();
        let class = AiErrorClass::Transient {
            retry_after: Delay::from_secs(0),
        };
        match p.step(&mut call, CallEvent::Failed { class }, Delay::from_secs(0)) {
            CallAction::Sleep(delay) => seen.push(delay.as_nanos()),
            other => panic!("{other:?}"),
        }
    }
    seen.sort();
    seen.dedup();
    assert!(seen.len() > 10);
}

#[test]
fn the_draw_decides_the_sleep() {
    let step = |draw: u64, retry_after: Delay| {
        let mut p = BackoffProvider::new(());
        let mut call = BackoffCall::new();
        let class = AiErrorClass::Transient { retry_after };
        p.step_with_draw(&mut call, CallEvent::Failed { class }, Delay::from_secs(9), draw)
    };
    let zero = Delay::from_secs(0);
    assert_eq!(step(0, zero), CallAction::Sleep(Delay::from_nanos(SEC)));
    assert_eq!(step(1 << 63, zero), CallAction::Sleep(Delay::from_nanos(1_125_000_000)));
    assert_eq!(step(u64::MAX, zero), CallAction::Sleep(Delay::from_nanos(1_250_000_000)));
    // The server asked for longer than the exponential part.
    assert_eq!(step(1 << 63, Delay::from_secs(80)), CallAction::Sleep(Delay::from_secs(90)));
}

#[test]
fn transient_faults_leave_other_calls_alone() {
    let mut p = BackoffProvider::new(());
    let mut call = BackoffCall::new();
    let now = Delay::from_secs(100);
    let class = AiErrorClass::Transient {
        retry_after: Delay::from_secs(60),
    };
    assert!(matches!(
        p.step(&mut call, CallEvent::Failed { class }, now),
        CallAction::Sleep(_)
    ));
    assert_eq!((call.attempt(), call.transient_streak()), (1, 1));
    let mut other = BackoffCall::new();
    assert_eq!(p.step(&mut other, CallEvent::Ready, now), CallAction::CallInner);
}

#[test]
fn rate_limits_hold_every_call_back() {
    let mut p = BackoffProvider::new(());
    let mut call = BackoffCall::new();
    let class = AiErrorClass::RateLimit {
        retry_after: Delay::from_secs(20),
    };
    let now = Delay::from_secs(100);
    assert_eq!(
        p.step(&mut call, CallEvent::Failed { class }, now),
        CallAction::Sleep(Delay::from_secs(20))
    );
    assert_eq!((call.attempt(), call.transient_streak()), (1, 0));
    let mut other = BackoffCall::new();
    let later = Delay::from_secs(105);
    assert_eq!(
        p.step(&mut other, CallEvent::Ready, later),
        CallAction::Sleep(Delay::from_secs(15))
    );
    let over = Delay::from_secs(120);
    assert_eq!(p.step(&mut other, CallEvent::Ready, over), CallAction::CallInner);
}

#[test]
fn a_success_lifts_the_block() {
    let mut p = BackoffProvider::new(());
    let mut call = BackoffCall::new();
    let class = AiErrorClass::RateLimit {
        retry_after: Delay::from_secs(20),
    };
    let now = Delay::from_secs(100);
    p.step(&mut call, CallEvent::Failed { class }, now);
    let mut other = BackoffCall::new();
    assert_eq!(p.step(&mut other, CallEvent::Succeeded, now), CallAction::ReturnResponse);
    assert_eq!(p.step(&mut call, CallEvent::Ready, now), CallAction::CallInner);
}

#[test]
fn a_rate_limit_on_the_last_attempt_blocks_other_calls() {
    let mut p = BackoffProvider::new(());
    let mut call = BackoffCall::new();
    let now = Delay::from_secs(0);
    let transient = AiErrorClass::Transient { retry_after: now };
    for _ in 0..5 {
        p.step(&mut call, CallEvent::Failed { class: transient }, now);
    }
    let class = AiErrorClass::RateLimit {
        retry_after: Delay::from_secs(20),
    };
    assert_eq!(p.step(&mut call, CallEvent::Failed { class }, now), CallAction::ReturnError);
    assert_eq!(call.attempt(), 6);
    let mut other = BackoffCall::new();
    assert_eq!(
        p.step(&mut other, CallEvent::Ready, Delay::from_secs(5)),
        CallAction::Sleep(Delay::from_secs(15))
    );
    let over = Delay::from_secs(20);
    assert_eq!(p.step(&mut other, CallEvent::Ready, over), CallAction::CallInner);
}

#[test]
fn spans_that_cannot_be_held_are_not_accepted() {
    let p = BackoffProvider::new(());
    let call = BackoffCall::new();
    let longest = Delay::from_nanos(MAX_NANOS);
    let zero = Delay::from_secs(0);
    let transient = |retry_after| CallEvent::Failed {
        class: AiErrorClass::Transient { retry_after },
    };
    let limited = |retry_after| CallEvent::Failed {
        class: AiErrorClass::RateLimit { retry_after },
    };
    assert!(!p.accepts(&call, transient(longest), zero));
    assert!(p.accepts(&call, transient(Delay::from_nanos(MAX_NANOS / 2)), zero));
    assert!(p.accepts(&call, limited(longest), zero));
    assert!(!p.accepts(&call, limited(longest), longest));
    assert!(p.accepts(&call, limited(zero), longest));
    let slow = BackoffProvider::with_base_delay((), longest);
    assert!(!slow.accepts(&call, transient(zero), zero));
    assert!(slow.accepts(&call, CallEvent::Failed { class: AiErrorClass::Fatal }, longest));
    assert!(slow.accepts(&call, CallEvent::Ready, longest));
}

#[test]
fn everything_else_passes_through_the_backoff() {
    let p = BackoffProvider::new(mock(Behaviour::Fatal, 4, Delay::from_secs(0)));
    assert_eq!(p.estimate_tokens(&vec!["hi".to_string(), "there".to_string()]), 14);
    assert_eq!(p.get_capabilities(), ("mock".to_string(), 1000));
    assert_eq!(p.cache_stats(), Some((4, 2)));
}
