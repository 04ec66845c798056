//! The application's configuration.
use vstd::prelude::*;

verus! {

/// Settings of the application, as stored in its configuration file.
#[derive(Debug)]
pub struct GlimConfig {
    /// The URL of the GitLab instance
    pub gitlab_url: String,
    /// The Personal Access Token to authenticate with GitLab
    pub gitlab_token: String,
    /// Filter applied to the projects list
    pub search_filter: Option<String>,
    /// Logging level: Off, Error, Warn, Info, Debug, Trace
    pub log_level: Option<String>,
}

fn clone_opt(s: &Option<String>) -> (r: Option<String>)
    ensures
        r == *s,
{
    match s {
        Some(x) => Some(x.clone()),
        None => None,
    }
}

impl Clone for GlimConfig {
    fn clone(&self) -> (r: GlimConfig)
        ensures
            r == *self,
    {
        GlimConfig {
            gitlab_url: self.gitlab_url.clone(),
            gitlab_token: self.gitlab_token.clone(),
            search_filter: clone_opt(&self.search_filter),
            log_level: clone_opt(&self.log_level),
        }
    }
}

impl Default for GlimConfig {
    fn default() -> (r: GlimConfig)
        ensures
            r.gitlab_url@ == Seq::<char>::empty(),
            r.gitlab_token@ == Seq::<char>::empty(),
            r.search_filter is None,
            r.log_level is None,
    {
        GlimConfig {
            gitlab_url: String::new(),
            gitlab_token: String::new(),
            search_filter: None,
            log_level: None,
        }
    }
}

} // verus!
