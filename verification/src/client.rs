//! The handle of a provider on the market interface.

use std::sync::Arc;
use vstd::prelude::*;

verus! {

/// Where the market interface is reached.
pub struct ApiConfiguration {
    /// The address under which the interface answers.
    pub api_url: String,
}

/// The provider's side of the market interface. It is made once and shared;
/// every request is sent with the configuration that it holds.
pub struct ProviderApi {
    configuration: Arc<ApiConfiguration>,
}

impl ProviderApi {
    /// The configuration that the handle was made with.
    pub closed spec fn settings(&self) -> ApiConfiguration {
        *self.configuration
    }

    /// A handle that sends its requests as `configuration` says.
    pub fn new(configuration: Arc<ApiConfiguration>) -> (api: Self)
        ensures
            api.settings() == *configuration,
    {
        ProviderApi { configuration }
    }

    /// The configuration that the handle was made with.
    pub fn configuration(&self) -> (c: &ApiConfiguration)
        ensures
            *c == self.settings(),
    {
        &self.configuration
    }
}

} // verus!
