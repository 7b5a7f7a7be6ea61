//! What can go wrong while loading the configuration or serving a request.

use vstd::prelude::*;
use vstd::string::*;

verus! {

/// The mathematical value of a [`RepoError`].
pub enum RepoErrorView {
    CouldNotReadConfigFile(Seq<char>),
    CouldNotWriteConfigToFile(Seq<char>),
    CouldNotParseConfigFile(Seq<char>),
    CouldNotSerializeConfigFile(Seq<char>),
    EmptyArchitecture(Seq<char>),
    EmptyComponent(Seq<char>),
    RepositoryNotPresentInConfiguration(Seq<char>),
    DebianError(Seq<char>),
    Internal(Seq<char>),
}

impl RepoErrorView {
    /// Whether the error rejects a request because of what the request holds.
    pub open spec fn is_validation(self) -> bool {
        self is EmptyArchitecture || self is EmptyComponent
            || self is RepositoryNotPresentInConfiguration
    }

    /// The HTTP status that answers a request which ended in this error.
    pub open spec fn status_code(self) -> u16 {
        if self.is_validation() {
            400
        } else {
            500
        }
    }

    /// The machine-readable kind of the error.
    pub open spec fn kind(self) -> Seq<char> {
        match self {
            RepoErrorView::CouldNotReadConfigFile(_) => "ConfigIOError"@,
            RepoErrorView::CouldNotWriteConfigToFile(_) => "ConfigIOError"@,
            RepoErrorView::CouldNotParseConfigFile(_) => "ConfigParseError"@,
            RepoErrorView::CouldNotSerializeConfigFile(_) => "ConfigParseError"@,
            RepoErrorView::EmptyArchitecture(_) => "EmptyArchitectures"@,
            RepoErrorView::EmptyComponent(_) => "EmptyComponents"@,
            RepoErrorView::RepositoryNotPresentInConfiguration(_) => "UnknownRepository"@,
            RepoErrorView::DebianError(_) => "BuildError"@,
            RepoErrorView::Internal(_) => "InternalError"@,
        }
    }

    /// The name of the repository that a validation error speaks of.
    pub open spec fn repository(self) -> Option<Seq<char>> {
        match self {
            RepoErrorView::EmptyArchitecture(name) => Some(name),
            RepoErrorView::EmptyComponent(name) => Some(name),
            RepoErrorView::RepositoryNotPresentInConfiguration(name) => Some(name),
            _ => None,
        }
    }

    /// The human-readable message of the error.
    pub open spec fn message(self) -> Seq<char> {
        match self {
            RepoErrorView::CouldNotReadConfigFile(cause) => "Could not read config file, error:"@
                + cause,
            RepoErrorView::CouldNotWriteConfigToFile(cause) =>
                "Could not write config to file, error:"@ + cause,
            RepoErrorView::CouldNotParseConfigFile(cause) => "Could not parse config file, error:"@
                + cause,
            RepoErrorView::CouldNotSerializeConfigFile(cause) =>
                "Could not serialize config, error:"@ + cause,
            RepoErrorView::EmptyArchitecture(name) => "Empty architecture for repo: "@ + name,
            RepoErrorView::EmptyComponent(name) => "Empty component for repo: "@ + name,
            RepoErrorView::RepositoryNotPresentInConfiguration(name) => "Repository:"@ + name
                + " not present in config"@,
            RepoErrorView::DebianError(cause) => "Debian error: "@ + cause,
            RepoErrorView::Internal(cause) => "Internal error: "@ + cause,
        }
    }
}

/// An error of the archive service. The variants that reject a request name
/// the repository at fault; the others carry the text of their cause.
#[derive(Debug)]
pub enum RepoError {
    /// The configuration file exists but could not be read.
    CouldNotReadConfigFile(String),
    /// The configuration file could not be written.
    CouldNotWriteConfigToFile(String),
    /// The configuration file does not hold a configuration.
    CouldNotParseConfigFile(String),
    /// The configuration could not be turned into text.
    CouldNotSerializeConfigFile(String),
    /// The named repository was requested without architectures.
    EmptyArchitecture(String),
    /// The named repository was requested without components.
    EmptyComponent(String),
    /// The named repository is not part of the configuration.
    RepositoryNotPresentInConfiguration(String),
    /// Building or writing a repository's index files failed.
    DebianError(String),
    /// An unexpected failure inside the service.
    Internal(String),
}

impl View for RepoError {
    type V = RepoErrorView;

    open spec fn view(&self) -> RepoErrorView {
        match self {
            RepoError::CouldNotReadConfigFile(cause) => RepoErrorView::CouldNotReadConfigFile(
                cause@,
            ),
            RepoError::CouldNotWriteConfigToFile(cause) => RepoErrorView::CouldNotWriteConfigToFile(
                cause@,
            ),
            RepoError::CouldNotParseConfigFile(cause) => RepoErrorView::CouldNotParseConfigFile(
                cause@,
            ),
            RepoError::CouldNotSerializeConfigFile(cause) =>
                RepoErrorView::CouldNotSerializeConfigFile(cause@),
            RepoError::EmptyArchitecture(name) => RepoErrorView::EmptyArchitecture(name@),
            RepoError::EmptyComponent(name) => RepoErrorView::EmptyComponent(name@),
            RepoError::RepositoryNotPresentInConfiguration(name) =>
                RepoErrorView::RepositoryNotPresentInConfiguration(name@),
            RepoError::DebianError(cause) => RepoErrorView::DebianError(cause@),
            RepoError::Internal(cause) => RepoErrorView::Internal(cause@),
        }
    }
}

/// The text `prefix` followed by `rest`.
fn joined(prefix: &str, rest: &String) -> (text: String)
    ensures
        text@ == prefix@ + rest@,
{
    let mut text = prefix.to_owned();
    text.append(rest.as_str());
    text
}

impl RepoError {
    /// Whether the error rejects a request because of what the request holds.
    pub fn is_validation(&self) -> (validation: bool)
        ensures
            validation == self@.is_validation(),
    {
        match self {
            RepoError::EmptyArchitecture(_) => true,
            RepoError::EmptyComponent(_) => true,
            RepoError::RepositoryNotPresentInConfiguration(_) => true,
            _ => false,
        }
    }

    /// The HTTP status that answers a request which ended in this error: 400
    /// for a rejected request, 500 for every other failure.
    pub fn status_code(&self) -> (code: u16)
        ensures
            code == self@.status_code(),
            code == 400 <==> self@.is_validation(),
            code == 500 <==> !self@.is_validation(),
    {
        if self.is_validation() {
            400
        } else {
            500
        }
    }

    /// The machine-readable kind of the error.
    pub fn kind(&self) -> (kind: &'static str)
        ensures
            kind@ == self@.kind(),
    {
        match self {
            RepoError::CouldNotReadConfigFile(_) => "ConfigIOError",
            RepoError::CouldNotWriteConfigToFile(_) => "ConfigIOError",
            RepoError::CouldNotParseConfigFile(_) => "ConfigParseError",
            RepoError::CouldNotSerializeConfigFile(_) => "ConfigParseError",
            RepoError::EmptyArchitecture(_) => "EmptyArchitectures",
            RepoError::EmptyComponent(_) => "EmptyComponents",
            RepoError::RepositoryNotPresentInConfiguration(_) => "UnknownRepository",
            RepoError::DebianError(_) => "BuildError",
            RepoError::Internal(_) => "InternalError",
        }
    }

    /// The name of the repository that a validation error speaks of.
    pub fn repository(&self) -> (name: Option<String>)
        ensures
            name is Some <==> self@.is_validation(),
            name is Some ==> Some(name->Some_0@) == self@.repository(),
            name is None ==> self@.repository() is None,
    {
        match self {
            RepoError::EmptyArchitecture(name) => Some(name.clone()),
            RepoError::EmptyComponent(name) => Some(name.clone()),
            RepoError::RepositoryNotPresentInConfiguration(name) => Some(name.clone()),
            _ => None,
        }
    }

    /// The human-readable message of the error.
    pub fn message(&self) -> (text: String)
        ensures
            text@ == self@.message(),
    {
        match self {
            RepoError::CouldNotReadConfigFile(cause) => joined(
                "Could not read config file, error:",
                cause,
            ),
            RepoError::CouldNotWriteConfigToFile(cause) => joined(
                "Could not write config to file, error:",
                cause,
            ),
            RepoError::CouldNotParseConfigFile(cause) => joined(
                "Could not parse config file, error:",
                cause,
            ),
            RepoError::CouldNotSerializeConfigFile(cause) => joined(
                "Could not serialize config, error:",
                cause,
            ),
            RepoError::EmptyArchitecture(name) => joined("Empty architecture for repo: ", name),
            RepoError::EmptyComponent(name) => joined("Empty component for repo: ", name),
            RepoError::RepositoryNotPresentInConfiguration(name) => {
                let mut text = joined("Repository:", name);
                text.append(" not present in config");
                text
            },
            RepoError::DebianError(cause) => joined("Debian error: ", cause),
            RepoError::Internal(cause) => joined("Internal error: ", cause),
        }
    }
}

} // verus!
