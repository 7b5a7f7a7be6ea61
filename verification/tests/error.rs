use apt_archive::error::RepoError;

#[test]
fn validation_errors_answer_with_400() {
    assert_eq!(RepoError::EmptyArchitecture("a".to_owned()).status_code(), 400);
    assert_eq!(RepoError::EmptyComponent("a".to_owned()).status_code(), 400);
    assert_eq!(RepoError::RepositoryNotPresentInConfiguration("a".to_owned()).status_code(), 400);
    assert!(RepoError::EmptyArchitecture("a".to_owned()).is_validation());
    assert!(RepoError::EmptyComponent("a".to_owned()).is_validation());
    assert!(RepoError::RepositoryNotPresentInConfiguration("a".to_owned()).is_validation());
}

#[test]
fn other_errors_answer_with_500() {
    assert_eq!(RepoError::CouldNotReadConfigFile("x".to_owned()).status_code(), 500);
    assert_eq!(RepoError::CouldNotWriteConfigToFile("x".to_owned()).status_code(), 500);
    assert_eq!(RepoError::CouldNotParseConfigFile("x".to_owned()).status_code(), 500);
    assert_eq!(RepoError::CouldNotSerializeConfigFile("x".to_owned()).status_code(), 500);
    assert_eq!(RepoError::DebianError("x".to_owned()).status_code(), 500);
    assert_eq!(RepoError::Internal("x".to_owned()).status_code(), 500);
    assert!(!RepoError::DebianError("x".to_owned()).is_validation());
    assert!(!RepoError::Internal("x".to_owned()).is_validation());
}

#[test]
fn kinds_are_machine_readable() {
    assert_eq!(RepoError::CouldNotReadConfigFile("x".to_owned()).kind(), "ConfigIOError");
    assert_eq!(RepoError::CouldNotWriteConfigToFile("x".to_owned()).kind(), "ConfigIOError");
    assert_eq!(RepoError::CouldNotParseConfigFile("x".to_owned()).kind(), "ConfigParseError");
    assert_eq!(RepoError::CouldNotSerializeConfigFile("x".to_owned()).kind(), "ConfigParseError");
    assert_eq!(RepoError::EmptyArchitecture("x".to_owned()).kind(), "EmptyArchitectures");
    assert_eq!(RepoError::EmptyComponent("x".to_owned()).kind(), "EmptyComponents");
    assert_eq!(
        RepoError::RepositoryNotPresentInConfiguration("x".to_owned()).kind(),
        "UnknownRepository"
    );
    assert_eq!(RepoError::DebianError("x".to_owned()).kind(), "BuildError");
    assert_eq!(RepoError::Internal("x".to_owned()).kind(), "InternalError");
}

#[test]
fn validation_errors_name_their_repository() {
    assert_eq!(RepoError::EmptyArchitecture("a".to_owned()).repository(), Some("a".to_owned()));
    assert_eq!(RepoError::EmptyComponent("b".to_owned()).repository(), Some("b".to_owned()));
    assert_eq!(
        RepoError::RepositoryNotPresentInConfiguration("ghost".to_owned()).repository(),
        Some("ghost".to_owned())
    );
    assert_eq!(RepoError::DebianError("a".to_owned()).repository(), None);
    assert_eq!(RepoError::Internal("a".to_owned()).repository(), None);
    assert_eq!(RepoError::CouldNotReadConfigFile("a".to_owned()).repository(), None);
}

#[test]
fn messages_are_human_readable() {
    assert_eq!(
        RepoError::CouldNotReadConfigFile("denied".to_owned()).message(),
        "Could not read config file, error:denied"
    );
    assert_eq!(
        RepoError::CouldNotWriteConfigToFile("disk full".to_owned()).message(),
        "Could not write config to file, error:disk full"
    );
    assert_eq!(
        RepoError::CouldNotParseConfigFile("line 1".to_owned()).message(),
        "Could not parse config file, error:line 1"
    );
    assert_eq!(
        RepoError::CouldNotSerializeConfigFile("no".to_owned()).message(),
        "Could not serialize config, error:no"
    );
    assert_eq!(
        RepoError::EmptyArchitecture("repo1".to_owned()).message(),
        "Empty architecture for repo: repo1"
    );
    assert_eq!(
        RepoError::EmptyComponent("repo1".to_owned()).message(),
        "Empty component for repo: repo1"
    );
    assert_eq!(
        RepoError::RepositoryNotPresentInConfiguration("ghost".to_owned()).message(),
        "Repository:ghost not present in config"
    );
    assert_eq!(RepoError::DebianError("boom".to_owned()).message(), "Debian error: boom");
    assert_eq!(RepoError::Internal("boom".to_owned()).message(), "Internal error: boom");
    assert_eq!(RepoError::Internal("".to_owned()).message(), "Internal error: ");
}
