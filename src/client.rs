use vstd::prelude::*;

use crate::text::owned;

pub use crate::urls::{IssueSearchParams, RuleSearchParams};

verus! {

/// Relies on Duration::from_secs, which builds a duration of whole seconds.
pub assume_specification[ core::time::Duration::from_secs ](secs: u64) -> core::time::Duration;

/// Relies on Clone for Duration, a plain copy of the value.
pub assume_specification[ <core::time::Duration as Clone>::clone ](d: &core::time::Duration) -> (r:
    core::time::Duration)
    ensures
        r == *d,
;

/// Errors of the client.
#[derive(Clone, Debug)]
pub enum SonarQubeError {
    /// The server could not be reached.
    Http(String),
    /// The server answered with a status outside the success range.
    Api { status: u16, message: String },
    /// The body did not have the expected shape.
    Deserialize(String),
    /// The wait for an analysis passed its deadline.
    Timeout,
    /// The server's analysis failed or was canceled.
    Analysis(String),
}

/// Connection settings of the client.
#[derive(Clone, Debug)]
pub struct SonarQubeConfig {
    /// Base URL of the server.
    pub url: String,
    /// Authentication token.
    pub token: Option<String>,
    /// Request timeout.
    pub timeout: core::time::Duration,
    /// Project key.
    pub project_key: Option<String>,
    /// Branch for branch-aware queries.
    pub branch: Option<String>,
}

/// URL of a server on this machine, used where none is configured.
pub const DEFAULT_URL: &'static str = "http://localhost:9000";

/// Request timeout in seconds where none is configured.
pub const DEFAULT_TIMEOUT_SECS: u64 = 30;

impl Default for SonarQubeConfig {
    fn default() -> (r: Self)
        ensures
            r.url@ == DEFAULT_URL@,
            r.token is None,
            r.project_key is None,
            r.branch is None,
    {
        SonarQubeConfig {
            url: owned(DEFAULT_URL),
            token: None,
            timeout: core::time::Duration::from_secs(DEFAULT_TIMEOUT_SECS),
            project_key: None,
            branch: None,
        }
    }
}

impl SonarQubeConfig {
    /// Settings for the server at `url`, with the defaults otherwise.
    pub fn new(url: &str) -> (r: Self)
        ensures
            r.url@ == url@,
            r.token is None,
            r.project_key is None,
            r.branch is None,
    {
        let mut c = Self::default();
        c.url = owned(url);
        c
    }

    /// The same settings with a token.
    pub fn with_token(self, token: &str) -> (r: Self)
        ensures
            r.token matches Some(t) && t@ == token@,
            r.url == self.url,
            r.timeout == self.timeout,
            r.project_key == self.project_key,
            r.branch == self.branch,
    {
        let mut c = self;
        c.token = Some(owned(token));
        c
    }

    /// The same settings with a request timeout.
    pub fn with_timeout(self, timeout: core::time::Duration) -> (r: Self)
        ensures
            r.timeout == timeout,
            r.url == self.url,
            r.token == self.token,
            r.project_key == self.project_key,
            r.branch == self.branch,
    {
        let mut c = self;
        c.timeout = timeout;
        c
    }

    /// The same settings with a project key.
    pub fn with_project(self, key: &str) -> (r: Self)
        ensures
            r.project_key matches Some(k) && k@ == key@,
            r.url == self.url,
            r.token == self.token,
            r.timeout == self.timeout,
            r.branch == self.branch,
    {
        let mut c = self;
        c.project_key = Some(owned(key));
        c
    }

    /// The same settings with a branch.
    pub fn with_branch(self, branch: &str) -> (r: Self)
        ensures
            r.branch matches Some(b) && b@ == branch@,
            r.url == self.url,
            r.token == self.token,
            r.timeout == self.timeout,
            r.project_key == self.project_key,
    {
        let mut c = self;
        c.branch = Some(owned(branch));
        c
    }
}

} // verus!
