use vstd::prelude::*;

verus! {

/// Credentials kept between runs.
#[derive(Clone, Debug, Default)]
pub struct StoredConfig {
    pub url: Option<String>,
    pub token: Option<String>,
}

} // verus!
