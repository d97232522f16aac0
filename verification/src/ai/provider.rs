//! What a model provider offers besides the model call itself.

use vstd::prelude::*;

verus! {

/// The part of a provider that answers at once. The model call itself is
/// asynchronous; a decorator steers it event by event.
pub trait AiProvider {
    /// A request to the model.
    type Request;

    /// What the provider can do.
    type Capabilities;

    /// Counters of a cache, where the provider has one.
    type CacheStats;

    /// An estimate of how many tokens the request takes.
    fn estimate_tokens(&self, request: &Self::Request) -> usize;

    /// What the provider can do.
    fn get_capabilities(&self) -> Self::Capabilities;

    /// The counters of the provider's cache; none, for a provider without one.
    fn cache_stats(&self) -> (stats: Option<Self::CacheStats>)
        default_ensures
            stats is None,
    {
        None
    }
}

} // verus!
