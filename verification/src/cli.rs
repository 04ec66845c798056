//! The command line of the application.
use vstd::prelude::*;

verus! {

/// A TUI for monitoring GitLab CI/CD pipelines and projects: its options.
#[derive(Clone, Debug)]
pub struct Args {
    /// Alternate path to the configuration file.
    pub config: Option<String>,
    /// Print the path to the configuration file and exit.
    pub print_config_path: bool,
}

impl Args {
    /// The configuration file to use: the one given, else the default.
    pub fn config_path(&self, default_path: String) -> (r: String)
        ensures
            r == match self.config {
                Some(c) => c,
                None => default_path,
            },
    {
        match &self.config {
            Some(c) => c.clone(),
            None => default_path,
        }
    }
}

} // verus!
