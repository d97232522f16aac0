use sashiko::ai::backoff_provider::{BackoffCall, BackoffProvider, CallAction, CallEvent};
use sashiko::ai::concurrency_limited_provider::{
    after_acquire, ConcurrencyLimitedProvider, LimitedAction,
};
use sashiko::ai::delay::Delay;
use sashiko::ai::error_class::AiErrorClass;
use sashiko::ai::provider::AiProvider;
use std::future::{pending, Future};
use std::pin::Pin;
use std::sync::Arc;
use std::task::{Context, Poll, Wake, Waker};
use tokio::sync::Semaphore;

struct Fixed;

impl AiProvider for Fixed {
    type Request = String;
    type Capabilities = &'static str;
    type CacheStats = u32;

    fn estimate_tokens(&self, request: &String) -> usize {
        request.len()
    }

    fn get_capabilities(&self) -> &'static str {
        "fixed"
    }

    fn cache_stats(&self) -> Option<u32> {
        Some(3)
    }
}

struct Uncached;

impl AiProvider for Uncached {
    type Request = String;
    type Capabilities = &'static str;
    type CacheStats = u32;

    fn estimate_tokens(&self, _request: &String) -> usize {
        0
    }

    fn get_capabilities(&self) -> &'static str {
        "uncached"
    }
}

#[test]
fn a_provider_has_no_cache_unless_it_says_so() {
    assert_eq!(ConcurrencyLimitedProvider::new(Uncached, 1).cache_stats(), None);
}

#[test]
fn the_largest_semaphore_is_an_eighth_of_the_address_space() {
    assert_eq!(Semaphore::MAX_PERMITS, usize::MAX / 8);
    let p = ConcurrencyLimitedProvider::new((), usize::MAX / 8);
    assert_eq!(p.semaphore().available_permits(), usize::MAX / 8);
}

#[test]
fn the_limit_is_the_number_of_permits() {
    let p = ConcurrencyLimitedProvider::new((), 3);
    assert_eq!(p.semaphore().available_permits(), 3);
}

#[test]
fn a_limit_of_zero_counts_as_one() {
    assert_eq!(ConcurrencyLimitedProvider::new((), 0).semaphore().available_permits(), 1);
    assert_eq!(ConcurrencyLimitedProvider::new((), 1).semaphore().available_permits(), 1);
}

#[test]
fn no_more_calls_than_permits_run_at_once() {
    let p = ConcurrencyLimitedProvider::new((), 2);
    let first = p.semaphore().try_acquire().unwrap();
    let _second = p.semaphore().try_acquire().unwrap();
    assert!(p.semaphore().try_acquire().is_err());
    drop(first);
    assert!(p.semaphore().try_acquire().is_ok());
}

struct Idle;

impl Wake for Idle {
    fn wake(self: Arc<Self>) {}
}

fn poll_once<F: Future>(future: &mut Pin<Box<F>>) -> Poll<F::Output> {
    let waker = Waker::from(Arc::new(Idle));
    future.as_mut().poll(&mut Context::from_waker(&waker))
}

#[test]
fn a_permit_comes_back_however_the_call_ends() {
    let p = ConcurrencyLimitedProvider::new((), 2);
    for reply in [Ok("ok"), Err("down")] {
        let mut call = Box::pin(async {
            let _permit = p.semaphore().acquire().await.unwrap();
            assert_eq!(p.semaphore().available_permits(), 1);
            reply
        });
        assert_eq!(poll_once(&mut call), Poll::Ready(reply));
        assert_eq!(p.semaphore().available_permits(), 2);
    }
    let mut call = Box::pin(async {
        let _permit = p.semaphore().acquire().await.unwrap();
        pending::<()>().await
    });
    assert_eq!(poll_once(&mut call), Poll::Pending);
    assert_eq!(p.semaphore().available_permits(), 1);
    drop(call);
    assert_eq!(p.semaphore().available_permits(), 2);
}

#[test]
fn a_call_that_is_dropped_while_it_waits_leaves_the_queue() {
    let p = ConcurrencyLimitedProvider::new((), 1);
    let permit = p.semaphore().try_acquire().unwrap();
    let mut first = Box::pin(p.semaphore().acquire());
    let mut second = Box::pin(p.semaphore().acquire());
    assert!(poll_once(&mut first).is_pending());
    assert!(poll_once(&mut second).is_pending());
    drop(first);
    assert_eq!(p.semaphore().available_permits(), 0);
    drop(permit);
    assert!(poll_once(&mut second).is_ready());
    assert_eq!(p.semaphore().available_permits(), 1);
}

#[test]
fn providers_can_share_a_semaphore() {
    let semaphore = Arc::new(Semaphore::new(1));
    let one = ConcurrencyLimitedProvider::with_semaphore((), semaphore.clone());
    let other = ConcurrencyLimitedProvider::with_semaphore((), semaphore);
    let _permit = one.semaphore().try_acquire().unwrap();
    assert!(other.semaphore().try_acquire().is_err());
}

#[test]
fn a_call_that_backs_off_holds_no_permit() {
    let wait = Delay::from_secs(30);
    for class in [
        AiErrorClass::Transient { retry_after: wait },
        AiErrorClass::RateLimit { retry_after: wait },
    ] {
        let limited = Arc::new(ConcurrencyLimitedProvider::new((), 1));
        let mut backoff = BackoffProvider::new(limited.clone());
        let mut call = BackoffCall::new();
        let now = Delay::from_secs(0);
        assert_eq!(backoff.step(&mut call, CallEvent::Ready, now), CallAction::CallInner);
        let permit = backoff.inner().semaphore().try_acquire().unwrap();
        assert!(limited.semaphore().try_acquire().is_err());
        drop(permit);
        let action = backoff.step(&mut call, CallEvent::Failed { class }, now);
        assert!(matches!(action, CallAction::Sleep(_)));
        assert!(limited.semaphore().try_acquire().is_ok());
    }
}

#[test]
fn a_call_with_a_permit_goes_to_the_inner_provider() {
    assert!(matches!(after_acquire(Ok(())), LimitedAction::CallInner));
}

#[test]
fn a_closed_semaphore_is_an_error() {
    let p = ConcurrencyLimitedProvider::new((), 1);
    p.semaphore().close();
    let error = p.semaphore().try_acquire().unwrap_err();
    match after_acquire(Err(error.to_string())) {
        LimitedAction::ReturnError(message) => {
            assert_eq!(message, format!("concurrency semaphore closed: {error}"))
        }
        other => panic!("{other:?}"),
    }
}

#[test]
fn everything_else_passes_through_the_limit() {
    let p = ConcurrencyLimitedProvider::new(Fixed, 2);
    assert_eq!(p.estimate_tokens(&"four".to_string()), 4);
    assert_eq!(p.get_capabilities(), "fixed");
    assert_eq!(p.cache_stats(), Some(3));
    assert_eq!(p.inner().get_capabilities(), "fixed");
}
