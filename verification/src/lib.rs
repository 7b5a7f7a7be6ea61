//! Repository definitions, configuration and publication planning for an
//! archive of Debian package repositories.

pub mod adapter;
pub mod configuration;
pub mod error;
pub mod exclusion;
pub mod locks;
pub mod publicate;
pub mod repository;
pub mod state;

pub use crate::configuration::Configuration;
pub use crate::error::RepoError;
pub use crate::repository::Repository;
pub use crate::state::SharedState;
