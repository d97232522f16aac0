# sashiko

Provider decorators that keep model calls inside rate and concurrency limits,
and the bundle of prompts that the calls are made with. The library is written
in Verus: what each function returns, and what holds of calls and installations
as a whole, is stated in its contracts and proved.

- `src/ai/delay.rs`, `transient.rs`, `quota.rs`: spans of time, the backoff
  after a transient fault, and the block that a rate limit puts on an account.
- `src/ai/backoff_provider.rs`: what to do next for a call, event by event;
  `backoff_laws.rs`: what holds of a call from its first attempt to its answer.
- `src/ai/concurrency_limited_provider.rs`: the cap on concurrent calls;
  `stack_laws.rs`: what holds with the backoff outside the cap.
- `src/paths.rs`, `src/prompt_bundle.rs`: the prompt bundle and the steps that
  install it; `src/install_laws.rs`: what holds of the file system meanwhile.
- `app/`: the clock, the sleeps, the model calls and the disk.
