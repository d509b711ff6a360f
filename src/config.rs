//! Host-supplied configuration.
use vstd::prelude::*;

verus! {

/// Optional settings a host passes in.
#[derive(Debug)]
pub struct Config {
    /// Base URL of the remote settings server.
    pub server_url: Option<String>,
    /// Name of the bucket holding the experiments.
    pub bucket_name: Option<String>,
    /// Name of the collection holding the experiments.
    pub collection_name: Option<String>,
    /// A fixed installation identifier, for deterministic testing.
    pub uuid: Option<String>,
}

} // verus!
