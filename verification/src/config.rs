//! Runtime configuration.  Loading and saving the configuration file, and
//! reading token environment variables, belong to the surrounding
//! application; the library holds the plain values.

use vstd::prelude::*;

verus! {

/// Tool configuration.
#[derive(Clone, Debug)]
pub struct Config {
    pub max_concurrent_downloads: usize,
    pub retry_attempts: u32,
    pub timeout_seconds: u64,
    pub s3_region: Option<String>,
    pub s3_endpoint: Option<String>,
    pub github_token: Option<String>,
    pub azure_devops_token: Option<String>,
}

impl Default for Config {
    /// The default configuration: five concurrent downloads, three retry
    /// attempts, a five-minute timeout, and no endpoints or tokens.  The
    /// application may fill the tokens from its environment.
    fn default() -> (r: Self)
        ensures
            r.max_concurrent_downloads == 5,
            r.retry_attempts == 3,
            r.timeout_seconds == 300,
            r.s3_region is None,
            r.s3_endpoint is None,
            r.github_token is None,
            r.azure_devops_token is None,
    {
        Config {
            max_concurrent_downloads: 5,
            retry_attempts: 3,
            timeout_seconds: 300,
            s3_region: None,
            s3_endpoint: None,
            github_token: None,
            azure_devops_token: None,
        }
    }
}

} // verus!
