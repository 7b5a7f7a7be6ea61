use apt_archive::configuration::{Configuration, LoadStep, ReadOutcome};
use apt_archive::error::RepoError;
use apt_archive::repository::Repository;

fn repository(name: &str, architectures: &[&str], components: &[&str]) -> Repository {
    Repository {
        name: name.to_owned(),
        architectures: architectures.iter().map(|a| a.to_string()).collect(),
        components: components.iter().map(|c| c.to_string()).collect(),
        suite: "stable".to_owned(),
        codename: "buster".to_owned(),
    }
}

fn configuration(repositories: Vec<Repository>) -> Configuration {
    Configuration {
        repositories,
        server_ip: "0.0.0.0".to_owned(),
        server_port: 3000,
        repo_root_path: "".to_owned(),
    }
}

#[test]
fn configuration_test_default_repository() {
    let repository = Repository::default();
    assert_eq!(repository.name, "stable");
    assert_eq!(repository.architectures, vec!["amd64", "arm64"]);
    assert_eq!(repository.components, vec!["main", "contrib"]);
    assert_eq!(repository.suite, "stable");
    assert_eq!(repository.codename, "buster");
}

#[test]
fn configuration_test_default_repositories() {
    let config = Configuration::default();
    let default_repo = Repository::default();
    assert_eq!(config.repositories.len(), 1);
    let repository = &config.repositories[0];
    assert_eq!(repository, &default_repo);
}

#[test]
fn test_validate_repositories_exists_valid() {
    let repo1 = Repository {
        name: "repo1".to_owned(),
        architectures: vec!["amd64".to_owned()],
        components: vec!["main".to_owned()],
        suite: "stable".to_owned(),
        codename: "buster".to_owned(),
    };
    let repo2 = Repository {
        name: "repo2".to_owned(),
        architectures: vec!["arm64".to_owned()],
        components: vec!["contrib".to_owned()],
        suite: "unstable".to_owned(),
        codename: "bullseye".to_owned(),
    };
    let config = Configuration {
        repositories: vec![repo1.clone(), repo2.clone()],
        server_ip: "0.0.0.0".to_owned(),
        server_port: 3000,
        repo_root_path: "".to_owned(),
    };
    let repos = vec![repo1, repo2];
    let result = config.validate_repositories_exists(&repos);
    assert!(result.is_ok());
}

#[test]
fn test_validate_repositories_exists_empty_architecture() {
    let repo1 = Repository {
        name: "repo1".to_owned(),
        architectures: vec![],
        components: vec!["main".to_owned()],
        suite: "stable".to_owned(),
        codename: "buster".to_owned(),
    };
    let config = Configuration {
        repositories: vec![repo1.clone()],
        server_ip: "0.0.0.0".to_owned(),
        server_port: 3000,
        repo_root_path: "".to_owned(),
    };
    let repos = vec![repo1];
    let result = config.validate_repositories_exists(&repos);
    assert!(result.is_err());
}

#[test]
fn test_validate_repositories_exists_empty_component() {
    let repo1 = Repository {
        name: "repo1".to_owned(),
        architectures: vec!["amd64".to_owned()],
        components: vec![],
        suite: "stable".to_owned(),
        codename: "buster".to_owned(),
    };
    let config = Configuration {
        repositories: vec![repo1.clone()],
        server_ip: "0.0.0.0".to_owned(),
        server_port: 3000,
        repo_root_path: "".to_owned(),
    };
    let repos = vec![repo1];
    let result = config.validate_repositories_exists(&repos);
    assert!(result.is_err());
}

#[test]
fn test_validate_repositories_exists_repository_not_present() {
    let repo1 = Repository {
        name: "repo1".to_owned(),
        architectures: vec!["amd64".to_owned()],
        components: vec!["main".to_owned()],
        suite: "stable".to_owned(),
        codename: "buster".to_owned(),
    };
    let repo2 = Repository {
        name: "repo2".to_owned(),
        architectures: vec!["arm64".to_owned()],
        components: vec!["contrib".to_owned()],
        suite: "unstable".to_owned(),
        codename: "bullseye".to_owned(),
    };
    let config = Configuration {
        repositories: vec![repo1.clone()],
        server_ip: "0.0.0.0".to_owned(),
        server_port: 3000,
        repo_root_path: "".to_owned(),
    };
    let repos = vec![repo2];
    let result = config.validate_repositories_exists(&repos);
    assert!(result.is_err());
}

#[test]
fn mod_test_default_repository() {
    let repository = Repository::default();
    assert_eq!(repository.name, "stable");
    assert_eq!(repository.architectures, vec!["amd64", "arm64"]);
    assert_eq!(repository.components, vec!["main", "contrib"]);
    assert_eq!(repository.suite, "stable");
    assert_eq!(repository.codename, "buster");
}

#[test]
fn mod_test_default_repositories() {
    let config = Configuration::default();
    let default_repo = Repository::default();
    assert_eq!(config.repositories.len(), 1);
    let repository = &config.repositories[0];
    assert_eq!(repository, &default_repo);
}

#[test]
fn default_configuration_listens_on_every_address() {
    let config = Configuration::default();
    assert_eq!(config.server_ip, "0.0.0.0");
    assert_eq!(config.server_port, 3000);
    assert_eq!(config.repo_root_path, "");
}

#[test]
fn empty_request_is_valid() {
    let config = Configuration::default();
    assert!(config.validate_repositories_exists(&vec![]).is_ok());
}

#[test]
fn empty_architectures_are_named_in_the_answer() {
    let config = configuration(vec![repository("repo1", &["amd64"], &["main"])]);
    let result = config.validate_repositories_exists(&vec![repository("repo1", &[], &["main"])]);
    match result {
        Err(RepoError::EmptyArchitecture(name)) => assert_eq!(name, "repo1"),
        other => panic!("unexpected answer: {:?}", other),
    }
}

#[test]
fn empty_architectures_are_checked_before_empty_components() {
    let config = configuration(vec![]);
    let result = config.validate_repositories_exists(&vec![repository("nowhere", &[], &[])]);
    match result {
        Err(RepoError::EmptyArchitecture(name)) => assert_eq!(name, "nowhere"),
        other => panic!("unexpected answer: {:?}", other),
    }
}

#[test]
fn empty_components_are_named_in_the_answer() {
    let config = configuration(vec![repository("repo1", &["amd64"], &["main"])]);
    let result = config.validate_repositories_exists(&vec![repository("repo1", &["amd64"], &[])]);
    match result {
        Err(RepoError::EmptyComponent(name)) => assert_eq!(name, "repo1"),
        other => panic!("unexpected answer: {:?}", other),
    }
}

#[test]
fn empty_components_are_checked_before_the_name() {
    let config = configuration(vec![]);
    let result = config.validate_repositories_exists(&vec![repository("nowhere", &["amd64"], &[])]);
    match result {
        Err(RepoError::EmptyComponent(name)) => assert_eq!(name, "nowhere"),
        other => panic!("unexpected answer: {:?}", other),
    }
}

#[test]
fn unknown_repository_rejects_the_whole_request() {
    let config = configuration(vec![
        repository("repo1", &["amd64"], &["main"]),
        repository("repo2", &["arm64"], &["contrib"]),
    ]);
    let repos = vec![
        repository("repo1", &["amd64"], &["main"]),
        repository("ghost", &["amd64"], &["main"]),
        repository("repo2", &["arm64"], &["contrib"]),
    ];
    match config.validate_repositories_exists(&repos) {
        Err(RepoError::RepositoryNotPresentInConfiguration(name)) => assert_eq!(name, "ghost"),
        other => panic!("unexpected answer: {:?}", other),
    }
}

#[test]
fn the_first_violation_in_request_order_wins() {
    let config = configuration(vec![repository("repo1", &["amd64"], &["main"])]);
    let repos = vec![
        repository("repo1", &["amd64"], &["main"]),
        repository("ghost", &["amd64"], &["main"]),
        repository("repo1", &[], &["main"]),
        repository("repo1", &["amd64"], &[]),
    ];
    match config.validate_repositories_exists(&repos) {
        Err(RepoError::RepositoryNotPresentInConfiguration(name)) => assert_eq!(name, "ghost"),
        other => panic!("unexpected answer: {:?}", other),
    }
    let repos = vec![
        repository("repo1", &["amd64"], &[]),
        repository("ghost", &["amd64"], &["main"]),
        repository("repo1", &[], &["main"]),
    ];
    match config.validate_repositories_exists(&repos) {
        Err(RepoError::EmptyComponent(name)) => assert_eq!(name, "repo1"),
        other => panic!("unexpected answer: {:?}", other),
    }
}

#[test]
fn requested_repository_is_found_by_name_alone() {
    let config = configuration(vec![repository("repo1", &["amd64"], &["main"])]);
    let repos = vec![repository("repo1", &["riscv64"], &["non-free"])];
    assert!(config.validate_repositories_exists(&repos).is_ok());
}

#[test]
fn resolve_answers_for_one_repository() {
    let config = configuration(vec![repository("repo1", &["amd64"], &["main"])]);
    let requested = repository("repo1", &["riscv64"], &["non-free"]);
    let configured = config.resolve(&requested).expect("repo1 is configured");
    assert_eq!(configured, &repository("repo1", &["amd64"], &["main"]));
    assert!(matches!(
        config.resolve(&repository("repo1", &[], &["main"])),
        Err(RepoError::EmptyArchitecture(_))
    ));
    assert!(matches!(
        config.resolve(&repository("repo1", &["amd64"], &[])),
        Err(RepoError::EmptyComponent(_))
    ));
    assert!(matches!(
        config.resolve(&repository("repo2", &["amd64"], &["main"])),
        Err(RepoError::RepositoryNotPresentInConfiguration(_))
    ));
}

#[test]
fn lookup_finds_the_first_of_a_name() {
    let mut second = repository("repo1", &["arm64"], &["contrib"]);
    second.suite = "unstable".to_owned();
    let config = configuration(vec![
        repository("repo0", &["amd64"], &["main"]),
        repository("repo1", &["amd64"], &["main"]),
        second,
    ]);
    let found = config.lookup(&"repo1".to_owned()).expect("repo1 is configured");
    assert_eq!(found, &repository("repo1", &["amd64"], &["main"]));
    assert!(config.lookup(&"repo2".to_owned()).is_none());
    assert!(config.lookup(&"".to_owned()).is_none());
    assert!(config.lookup(&"REPO1".to_owned()).is_none());
}

#[test]
fn all_lists_in_configuration_order() {
    let config = configuration(vec![
        repository("b", &["amd64"], &["main"]),
        repository("a", &["amd64"], &["main"]),
    ]);
    let all = config.all();
    assert_eq!(all.len(), 2);
    assert_eq!(all[0].name, "b");
    assert_eq!(all[1].name, "a");
    assert_eq!(all, config.repositories);
}

#[test]
fn configuration_copy_equals_the_original() {
    let mut config = configuration(vec![repository("repo1", &["amd64", "arm64"], &["main"])]);
    config.repo_root_path = "/srv/archive".to_owned();
    config.server_port = 8080;
    let copy = config.clone();
    assert_eq!(copy.repositories, config.repositories);
    assert_eq!(copy.repo_root_path, "/srv/archive");
    assert_eq!(copy.server_ip, "0.0.0.0");
    assert_eq!(copy.server_port, 8080);
}

#[test]
fn repositories_differ_in_any_field() {
    let base = repository("repo1", &["amd64", "arm64"], &["main"]);
    assert_eq!(base, base.clone());
    let mut other = base.clone();
    other.name = "repo2".to_owned();
    assert_ne!(base, other);
    let mut other = base.clone();
    other.architectures = vec!["arm64".to_owned(), "amd64".to_owned()];
    assert_ne!(base, other);
    let mut other = base.clone();
    other.architectures = vec!["amd64".to_owned()];
    assert_ne!(base, other);
    let mut other = base.clone();
    other.components = vec!["contrib".to_owned()];
    assert_ne!(base, other);
    let mut other = base.clone();
    other.suite = "unstable".to_owned();
    assert_ne!(base, other);
    let mut other = base.clone();
    other.codename = "bullseye".to_owned();
    assert_ne!(base, other);
}

#[test]
fn missing_file_gives_the_default_to_persist() {
    match Configuration::after_read(ReadOutcome::NotFound) {
        LoadStep::Persist(config) => {
            assert_eq!(config.repositories, vec![Repository::default()]);
            assert_eq!(config.server_ip, "0.0.0.0");
            assert_eq!(config.server_port, 3000);
            assert_eq!(config.repo_root_path, "");
        }
        other => panic!("unexpected step: {:?}", other),
    }
}

#[test]
fn found_file_is_parsed() {
    match Configuration::after_read(ReadOutcome::Found("server_port = 1".to_owned())) {
        LoadStep::Parse(text) => assert_eq!(text, "server_port = 1"),
        other => panic!("unexpected step: {:?}", other),
    }
}

#[test]
fn unreadable_file_ends_the_start() {
    match Configuration::after_read(ReadOutcome::Failed("permission denied".to_owned())) {
        LoadStep::Fail(RepoError::CouldNotReadConfigFile(cause)) => {
            assert_eq!(cause, "permission denied")
        }
        other => panic!("unexpected step: {:?}", other),
    }
}
