use vstd::prelude::*;

verus! {

broadcast use vstd::string::group_string_axioms;

/// Where the trace agent listens unless configured otherwise.
pub const DEFAULT_AGENT_URL: &'static str = "http://localhost:8126/v0.3/traces";

/// Static settings of the exporter.
#[derive(Clone)]
pub struct DogConfig {
    /// Name of the service being traced.
    pub service: String,
    /// URL of the trace agent's API.
    pub url: String,
}

impl DogConfig {
    /// Settings for `service`, shipping to the default agent URL.
    pub fn with_service(service: &str) -> (r: DogConfig)
        ensures
            r.service@ == service@,
            r.url@ == DEFAULT_AGENT_URL@,
    {
        DogConfig { service: service.to_string(), url: DEFAULT_AGENT_URL.to_string() }
    }
}

} // verus!
