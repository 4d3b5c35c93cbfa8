use vstd::prelude::*;

verus! {

/// What the proxy needs at startup: where to listen and the raw rule
/// strings the access policy is compiled from. Either may be absent.
#[derive(Debug, Clone)]
pub struct Config {
    pub bind: Option<String>,
    pub whitelist: Option<Vec<String>>,
}

impl Default for Config {
    /// The empty configuration: no bind address and no rules.
    fn default() -> (r: Self)
        ensures
            r.bind is None,
            r.whitelist is None,
    {
        Config { bind: None, whitelist: None }
    }
}

} // verus!
