use apt_archive::adapter::{create_repositories, PublishJob};
use apt_archive::configuration::Configuration;
use apt_archive::error::RepoError;
use apt_archive::locks::LockRegistry;
use apt_archive::publicate::{Outcome, PublishBatch, Step};
use apt_archive::repository::Repository;
use debian_packaging::error::DebianError;

fn repository(name: &str) -> Repository {
    Repository {
        name: name.to_owned(),
        architectures: vec!["amd64".to_owned()],
        components: vec!["main".to_owned()],
        suite: "stable".to_owned(),
        codename: "buster".to_owned(),
    }
}

fn configuration(names: &[&str]) -> Configuration {
    Configuration {
        repositories: names.iter().map(|n| repository(n)).collect(),
        server_ip: "0.0.0.0".to_owned(),
        server_port: 3000,
        repo_root_path: "/srv/archive".to_owned(),
    }
}

#[test]
fn builder_failure_becomes_an_error_of_the_library() {
    let failure = RepoError::from_debian(&DebianError::ControlFileNotFound);
    assert!(matches!(failure, RepoError::DebianError(_)));
    assert_eq!(failure.message(), "Debian error: Control file not found");
    assert_eq!(failure.kind(), "BuildError");
    assert_eq!(failure.status_code(), 500);
    let failure = RepoError::from_debian(&DebianError::ControlParseError("line 3".to_owned()));
    assert_eq!(failure.message(), "Debian error: control file parse error: line 3");
}

#[test]
fn one_builder_for_each_configured_repository() {
    assert_eq!(create_repositories(&configuration(&[])).len(), 0);
    assert_eq!(create_repositories(&Configuration::default()).len(), 1);
    assert_eq!(create_repositories(&configuration(&["a", "b", "a"])).len(), 3);
}

#[test]
fn builder_is_told_what_the_repository_holds() {
    let repository = Repository {
        name: "nightly".to_owned(),
        architectures: vec!["riscv64".to_owned(), "amd64".to_owned(), "riscv64".to_owned()],
        components: vec!["non-free".to_owned()],
        suite: "unstable".to_owned(),
        codename: "sid".to_owned(),
    };
    let shown = format!("{:?}", repository.builder());
    assert!(shown.contains("architectures: {\"amd64\", \"riscv64\"}"));
    assert!(shown.contains("components: {\"non-free\"}"));
    assert!(shown.contains("suite: Some(\"unstable\")"));
    assert!(shown.contains("codename: Some(\"sid\")"));
    assert!(!shown.contains("nightly"));

    let shown = format!("{:?}", Repository::default().builder());
    assert!(shown.contains("architectures: {\"amd64\", \"arm64\"}"));
    assert!(shown.contains("components: {\"contrib\", \"main\"}"));
    assert!(shown.contains("suite: Some(\"stable\")"));
    assert!(shown.contains("codename: Some(\"buster\")"));
}

#[test]
fn builders_follow_the_configuration() {
    let mut config = configuration(&["a", "b"]);
    config.repositories[1].suite = "testing".to_owned();
    let builders = create_repositories(&config);
    assert_eq!(builders.len(), 2);
    assert!(format!("{:?}", builders[0]).contains("suite: Some(\"stable\")"));
    assert!(format!("{:?}", builders[1]).contains("suite: Some(\"testing\")"));
}

#[test]
fn job_builds_the_configured_definition() {
    let mut config = configuration(&["stable"]);
    config.repositories[0].codename = "bookworm".to_owned();
    let mut requested = repository("stable");
    requested.codename = "other".to_owned();
    let mut batch = PublishBatch::accept(&config, &vec![requested]).expect("the request is valid");
    let mut locks = LockRegistry::new();
    assert_eq!(batch.start_next(&mut locks), Step::Publish(0));
    let job = batch.current_job().expect("a publication is running");
    let shown = format!("{:?}", job.builder);
    assert!(shown.contains("codename: Some(\"bookworm\")"));
    assert!(!shown.contains("other"));
}

#[test]
fn fresh_builder_holds_no_package() {
    let builder = Repository::default().builder();
    assert_eq!(builder.binary_package_components().count(), 0);
}

#[test]
fn job_publishes_to_the_given_path_one_file_at_a_time() {
    let job = PublishJob::new(
        &repository("stable"),
        &"/srv/archive".to_owned(),
        &"/srv/archive/dists/stable".to_owned(),
    );
    assert_eq!(job.distribution_path, "/srv/archive/dists/stable");
    assert_eq!(job.threads, 1);
}

#[test]
fn only_a_running_publication_has_a_job() {
    let config = configuration(&["stable", "testing"]);
    let repos = vec![repository("stable"), repository("testing")];
    let mut batch = PublishBatch::accept(&config, &repos).expect("the request is valid");
    let mut locks = LockRegistry::new();
    assert!(batch.current_job().is_none());

    assert_eq!(batch.start_next(&mut locks), Step::Publish(0));
    let job = batch.current_job().expect("a publication is running");
    assert_eq!(job.distribution_path, "/srv/archive/dists/stable");
    assert_eq!(job.threads, 1);

    assert!(batch.complete(Ok(()), &mut locks));
    assert!(batch.current_job().is_none());

    assert_eq!(batch.start_next(&mut locks), Step::Publish(1));
    let job = batch.current_job().expect("a publication is running");
    assert_eq!(job.distribution_path, "/srv/archive/dists/testing");
    assert!(batch.complete(Ok(()), &mut locks));
    assert!(batch.current_job().is_none());
}

#[test]
fn blocked_publication_has_no_job() {
    let config = configuration(&["stable"]);
    let repos = vec![repository("stable")];
    let mut batch = PublishBatch::accept(&config, &repos).expect("the request is valid");
    let mut locks = LockRegistry::new();
    assert!(locks.try_acquire(&"stable".to_owned()));
    assert_eq!(batch.start_next(&mut locks), Step::Blocked(0));
    assert!(batch.current_job().is_none());
}

#[test]
fn builder_results_are_recorded_per_repository() {
    let config = configuration(&["a", "b"]);
    let repos = vec![repository("a"), repository("b")];
    let mut batch = PublishBatch::accept(&config, &repos).expect("the request is valid");
    let mut locks = LockRegistry::new();

    assert!(!batch.complete_published(Ok(()), &mut locks));
    assert_eq!(batch.start_next(&mut locks), Step::Publish(0));
    assert!(batch.complete_published(Err(DebianError::ControlFileNotFound), &mut locks));
    assert!(!locks.is_held(&"a".to_owned()));
    assert_eq!(batch.start_next(&mut locks), Step::Publish(1));
    assert!(batch.complete_published(Ok(()), &mut locks));
    assert!(batch.is_finished());

    let report = batch.outcomes();
    assert_eq!(report.len(), 2);
    assert_eq!(report[0].name, "a");
    assert_eq!(
        report[0].outcome,
        Outcome::Failed("Debian error: Control file not found".to_owned())
    );
    assert_eq!(report[1].name, "b");
    assert_eq!(report[1].outcome, Outcome::Succeeded);
}
