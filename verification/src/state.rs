//! What the request handlers share.

use vstd::prelude::*;
use crate::configuration::{views_of_repositories, Configuration};
use crate::repository::Repository;

verus! {

/// The state that every request handler reads: the configuration that the
/// service was started with. It is never changed while the service runs.
#[derive(Debug)]
pub struct SharedState {
    pub config: Configuration,
}

impl SharedState {
    /// The state of a service started with this configuration.
    pub fn new(config: Configuration) -> (state: SharedState)
        ensures
            state.config == config,
    {
        SharedState { config }
    }

    /// What a request for the configuration is answered with: the
    /// configuration that the service was started with.
    pub fn configuration(&self) -> (configuration: Configuration)
        ensures
            configuration@ == self.config@,
    {
        self.config.clone()
    }

    /// What a request for the repositories is answered with: every configured
    /// repository, in the order of the configuration.
    pub fn repositories(&self) -> (list: Vec<Repository>)
        ensures
            views_of_repositories(list@) == self.config@.repositories,
    {
        self.config.all()
    }
}

} // verus!
