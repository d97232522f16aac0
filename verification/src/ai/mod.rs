//! Decorators around a model provider.

pub mod backoff_laws;
pub mod backoff_provider;
pub mod concurrency_limited_provider;
pub mod delay;
pub mod error_class;
pub mod provider;
pub mod quota;
pub mod stack_laws;
pub mod step_laws;
pub mod transient;
