//! The `init` command: what it is given.

use vstd::prelude::*;

verus! {

/// The arguments of the `init` command.
#[derive(Debug)]
pub struct InitArgs {
    /// Trace service URL (e.g. https://pulse.example.com)
    pub api_url: Option<String>,
    /// API key for authentication
    pub api_key: Option<String>,
    /// Project ID
    pub project_id: Option<String>,
    /// Skip health check validation
    pub no_validate: bool,
}

} // verus!
