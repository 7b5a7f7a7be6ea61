//! The configuration of the service and the validation that every publish
//! request has to pass.

use vstd::prelude::*;
use crate::error::{RepoError, RepoErrorView};
use crate::repository::{default_repository, Repository, RepositoryView};

verus! {

/// The mathematical value of a [`Configuration`].
pub struct ConfigurationView {
    pub repositories: Seq<RepositoryView>,
    pub repo_root_path: Seq<char>,
    pub server_ip: Seq<char>,
    pub server_port: u16,
}

/// The views of the repositories of a list, in the list's order.
pub open spec fn views_of_repositories(list: Seq<Repository>) -> Seq<RepositoryView> {
    Seq::new(list.len(), |i: int| list[i]@)
}

impl ConfigurationView {
    /// Whether a repository of this name is configured.
    pub open spec fn knows(self, name: Seq<char>) -> bool {
        exists|i: int| 0 <= i < self.repositories.len() && self.repositories[i].name == name
    }

    /// Whether `i` is the place of the first repository of this name.
    pub open spec fn first_named(self, name: Seq<char>, i: int) -> bool {
        &&& 0 <= i < self.repositories.len()
        &&& self.repositories[i].name == name
        &&& forall|j: int| 0 <= j < i ==> self.repositories[j].name != name
    }

    /// The place of the first repository of this name.
    pub open spec fn place_of(self, name: Seq<char>) -> int
        recommends
            self.knows(name),
    {
        choose|i: int| self.first_named(name, i)
    }

    /// The definition that this name stands for: that of the first configured
    /// repository of the name.
    pub open spec fn resolve(self, name: Seq<char>) -> RepositoryView
        recommends
            self.knows(name),
    {
        self.repositories[self.place_of(name)]
    }

    /// Whether no two configured repositories share a name.
    pub open spec fn names_unique(self) -> bool {
        forall|i: int, j: int|
            0 <= i < j < self.repositories.len() ==> self.repositories[i].name
                != self.repositories[j].name
    }

    /// Why a requested repository cannot be published, if it cannot: it names
    /// no architecture, else no component, else it is not configured.
    pub open spec fn violation(self, requested: RepositoryView) -> Option<RepoErrorView> {
        if requested.architectures.len() == 0 {
            Some(RepoErrorView::EmptyArchitecture(requested.name))
        } else if requested.components.len() == 0 {
            Some(RepoErrorView::EmptyComponent(requested.name))
        } else if !self.knows(requested.name) {
            Some(RepoErrorView::RepositoryNotPresentInConfiguration(requested.name))
        } else {
            None
        }
    }

    /// Whether every requested repository can be published.
    pub open spec fn accepts(self, requested: Seq<RepositoryView>) -> bool {
        forall|i: int| 0 <= i < requested.len() ==> self.violation(#[trigger] requested[i]) is None
    }

    /// Whether `i` is the place of the first requested repository that cannot
    /// be published.
    pub open spec fn first_violation_at(self, requested: Seq<RepositoryView>, i: int) -> bool {
        &&& 0 <= i < requested.len()
        &&& self.violation(requested[i]) is Some
        &&& forall|j: int| 0 <= j < i ==> self.violation(#[trigger] requested[j]) is None
    }

    /// What validation answers to a request: nothing if every repository can be
    /// published, else the violation of the first that cannot.
    pub open spec fn verdict(self, requested: Seq<RepositoryView>) -> Option<RepoErrorView>
        decreases requested.len(),
    {
        if requested.len() == 0 {
            None
        } else {
            match self.violation(requested[0]) {
                Some(error) => Some(error),
                None => self.verdict(requested.drop_first()),
            }
        }
    }
}

/// The configuration that a fresh installation starts with.
pub open spec fn default_configuration() -> ConfigurationView {
    ConfigurationView {
        repositories: seq![default_repository()],
        repo_root_path: ""@,
        server_ip: "0.0.0.0"@,
        server_port: 3000,
    }
}

/// The repositories that can be published, where the archive lies and where
/// the service listens.
#[derive(Debug)]
pub struct Configuration {
    pub repositories: Vec<Repository>,
    pub repo_root_path: String,
    pub server_ip: String,
    pub server_port: u16,
}

impl View for Configuration {
    type V = ConfigurationView;

    open spec fn view(&self) -> ConfigurationView {
        ConfigurationView {
            repositories: views_of_repositories(self.repositories@),
            repo_root_path: self.repo_root_path@,
            server_ip: self.server_ip@,
            server_port: self.server_port,
        }
    }
}

/// What reading the configuration file gave.
#[derive(Debug)]
pub enum ReadOutcome {
    /// The file is there, with this text.
    Found(String),
    /// There is no such file.
    NotFound,
    /// The file could not be read, for this reason.
    Failed(String),
}

/// What has to be done once the configuration file was read.
#[derive(Debug)]
pub enum LoadStep {
    /// Turn this text into a configuration.
    Parse(String),
    /// Write this configuration to the file and start with it.
    Persist(Configuration),
    /// Do not start.
    Fail(RepoError),
}

/// A copy of a list of repositories.
pub fn copy_repositories(list: &Vec<Repository>) -> (copy: Vec<Repository>)
    ensures
        views_of_repositories(copy@) == views_of_repositories(list@),
{
    let mut copy: Vec<Repository> = Vec::new();
    let mut i: usize = 0;
    while i < list.len()
        invariant
            i <= list.len(),
            copy.len() == i,
            forall|k: int| 0 <= k < i ==> copy@[k]@ == list@[k]@,
        decreases list.len() - i,
    {
        copy.push(list[i].clone());
        i += 1;
    }
    assert(views_of_repositories(copy@) =~= views_of_repositories(list@));
    copy
}

impl Clone for Configuration {
    fn clone(&self) -> (copy: Configuration)
        ensures
            copy@ == self@,
    {
        Configuration {
            repositories: copy_repositories(&self.repositories),
            repo_root_path: self.repo_root_path.clone(),
            server_ip: self.server_ip.clone(),
            server_port: self.server_port,
        }
    }
}

impl Configuration {
    /// The configuration with the one repository `stable`, an empty archive
    /// root, listening on `0.0.0.0:3000`.
    pub fn default() -> (configuration: Configuration)
        ensures
            configuration@ == default_configuration(),
            configuration@.names_unique(),
    {
        let configuration = Configuration {
            repositories: vec![Repository::default()],
            server_ip: "0.0.0.0".to_owned(),
            server_port: 3000,
            repo_root_path: "".to_owned(),
        };
        assert(configuration@.repositories =~= default_configuration().repositories);
        configuration
    }

    /// Decides what to do once the configuration file was read: a file that
    /// is there is parsed; where there is none, the default configuration is
    /// written and used; any other failure to read ends the start.
    pub fn after_read(read: ReadOutcome) -> (step: LoadStep)
        ensures
            match read {
                ReadOutcome::Found(text) => step == LoadStep::Parse(text),
                ReadOutcome::NotFound => step is Persist && step->Persist_0@
                    == default_configuration(),
                ReadOutcome::Failed(cause) => step == LoadStep::Fail(
                    RepoError::CouldNotReadConfigFile(cause),
                ),
            },
    {
        match read {
            ReadOutcome::Found(text) => LoadStep::Parse(text),
            ReadOutcome::NotFound => LoadStep::Persist(Configuration::default()),
            ReadOutcome::Failed(cause) => LoadStep::Fail(RepoError::CouldNotReadConfigFile(cause)),
        }
    }

    /// The first configured repository of the given name.
    pub fn lookup(&self, name: &String) -> (found: Option<&Repository>)
        ensures
            found is Some <==> self@.knows(name@),
            found is Some ==> found->Some_0@ == self@.resolve(name@) && *found->Some_0
                == self.repositories@[self@.place_of(name@)],
    {
        let mut i: usize = 0;
        while i < self.repositories.len()
            invariant
                i <= self.repositories.len(),
                forall|j: int| 0 <= j < i ==> self@.repositories[j].name != name@,
            decreases self.repositories.len() - i,
        {
            if self.repositories[i].name == *name {
                assert(self@.repositories[i as int].name == name@);
                proof {
                    lemma_first_named_is_unique(self@, name@, i as int, self@.place_of(name@));
                }
                return Some(&self.repositories[i]);
            }
            i += 1;
        }
        None
    }

    /// Every configured repository, in the order of the configuration.
    pub fn all(&self) -> (list: Vec<Repository>)
        ensures
            views_of_repositories(list@) == self@.repositories,
    {
        copy_repositories(&self.repositories)
    }

    /// The configured definition that a requested repository stands for, or
    /// why the repository cannot be published.
    pub fn resolve(&self, requested: &Repository) -> (outcome: Result<&Repository, RepoError>)
        ensures
            outcome is Ok <==> self@.violation(requested@) is None,
            outcome is Ok ==> outcome->Ok_0@ == self@.resolve(requested@.name),
            outcome is Err ==> self@.violation(requested@) == Some(outcome->Err_0@),
    {
        if requested.architectures.len() == 0 {
            return Err(RepoError::EmptyArchitecture(requested.name.clone()));
        }
        if requested.components.len() == 0 {
            return Err(RepoError::EmptyComponent(requested.name.clone()));
        }
        match self.lookup(&requested.name) {
            Some(configured) => Ok(configured),
            None => Err(RepoError::RepositoryNotPresentInConfiguration(requested.name.clone())),
        }
    }

    /// Validates a publish request. The request passes if every repository in
    /// it names an architecture and a component and is configured. Otherwise
    /// the whole request is rejected, with the violation of the first
    /// repository at fault.
    pub fn validate_repositories_exists(&self, repos: &Vec<Repository>) -> (outcome: Result<
        (),
        RepoError,
    >)
        ensures
            outcome is Ok <==> self@.accepts(views_of_repositories(repos@)),
            outcome is Err ==> exists|i: int|
                self@.first_violation_at(views_of_repositories(repos@), i) && self@.violation(
                    views_of_repositories(repos@)[i],
                ) == Some(outcome->Err_0@),
            match outcome {
                Ok(_) => self@.verdict(views_of_repositories(repos@)) is None,
                Err(error) => self@.verdict(views_of_repositories(repos@)) == Some(error@),
            },
    {
        let ghost requested = views_of_repositories(repos@);
        let mut i: usize = 0;
        while i < repos.len()
            invariant
                i <= repos.len(),
                requested == views_of_repositories(repos@),
                forall|j: int| 0 <= j < i ==> self@.violation(#[trigger] requested[j]) is None,
            decreases repos.len() - i,
        {
            match self.resolve(&repos[i]) {
                Ok(_) => {},
                Err(error) => {
                    proof {
                        assert(requested[i as int] == repos@[i as int]@);
                        assert(self@.first_violation_at(requested, i as int));
                        lemma_verdict_is_first_violation(self@, requested, i as int);
                    }
                    return Err(error);
                },
            }
            assert(requested[i as int] == repos@[i as int]@);
            i += 1;
        }
        proof {
            lemma_verdict_of_accepted(self@, requested);
        }
        Ok(())
    }
}

/// A name has one first place among the configured repositories.
pub proof fn lemma_first_named_is_unique(
    configuration: ConfigurationView,
    name: Seq<char>,
    i: int,
    j: int,
)
    requires
        configuration.first_named(name, i),
    ensures
        configuration.first_named(name, configuration.place_of(name)),
        configuration.first_named(name, j) ==> i == j,
        configuration.place_of(name) == i,
        configuration.resolve(name) == configuration.repositories[i],
        configuration.resolve(name).name == name,
{
    let place = configuration.place_of(name);
    assert(configuration.first_named(name, place));
    if place < i {
        assert(configuration.repositories[place].name != name);
    }
    if i < place {
        assert(configuration.repositories[i].name != name);
    }
    if configuration.first_named(name, j) {
        if j < i {
            assert(configuration.repositories[j].name != name);
        }
        if i < j {
            assert(configuration.repositories[i].name != name);
        }
    }
}

/// Every name that is configured has a first place, and stands for a
/// definition of that name.
pub proof fn lemma_known_name_resolves(configuration: ConfigurationView, name: Seq<char>)
    requires
        configuration.knows(name),
    ensures
        configuration.first_named(name, configuration.place_of(name)),
        configuration.resolve(name).name == name,
{
    let some = choose|i: int|
        0 <= i < configuration.repositories.len() && configuration.repositories[i].name == name;
    lemma_has_first_place(configuration, name, some);
}

/// Below any place of a name lies its first place.
proof fn lemma_has_first_place(configuration: ConfigurationView, name: Seq<char>, i: int)
    requires
        0 <= i < configuration.repositories.len(),
        configuration.repositories[i].name == name,
    ensures
        configuration.first_named(name, configuration.place_of(name)),
    decreases i,
{
    if forall|j: int| 0 <= j < i ==> configuration.repositories[j].name != name {
        assert(configuration.first_named(name, i));
    } else {
        let j = choose|j: int| 0 <= j < i && configuration.repositories[j].name == name;
        lemma_has_first_place(configuration, name, j);
    }
}

/// A request in which every repository can be published gets no violation.
pub proof fn lemma_verdict_of_accepted(
    configuration: ConfigurationView,
    requested: Seq<RepositoryView>,
)
    requires
        configuration.accepts(requested),
    ensures
        configuration.verdict(requested) is None,
    decreases requested.len(),
{
    if requested.len() > 0 {
        let rest = requested.drop_first();
        assert(configuration.violation(requested[0]) is None);
        assert forall|i: int| 0 <= i < rest.len() implies configuration.violation(
            #[trigger] rest[i],
        ) is None by {
            assert(rest[i] == requested[i + 1]);
        }
        lemma_verdict_of_accepted(configuration, rest);
    }
}

/// Validation is fail-fast: its answer is the violation of the first requested
/// repository that cannot be published, whatever follows it in the request.
pub proof fn lemma_verdict_is_first_violation(
    configuration: ConfigurationView,
    requested: Seq<RepositoryView>,
    i: int,
)
    requires
        configuration.first_violation_at(requested, i),
    ensures
        configuration.verdict(requested) == configuration.violation(requested[i]),
    decreases requested.len(),
{
    if i > 0 {
        let rest = requested.drop_first();
        assert(configuration.violation(requested[0]) is None);
        assert(rest[i - 1] == requested[i]);
        assert forall|j: int| 0 <= j < i - 1 implies configuration.violation(
            #[trigger] rest[j],
        ) is None by {
            assert(rest[j] == requested[j + 1]);
        }
        lemma_verdict_is_first_violation(configuration, rest, i - 1);
    }
}

/// Validation is all-or-nothing: one repository that cannot be published has the
/// whole request rejected, wherever it stands and whatever else is requested.
pub proof fn lemma_any_violation_rejects(
    configuration: ConfigurationView,
    requested: Seq<RepositoryView>,
    i: int,
)
    requires
        0 <= i < requested.len(),
        configuration.violation(requested[i]) is Some,
    ensures
        configuration.verdict(requested) is Some,
        !configuration.accepts(requested),
    decreases requested.len(),
{
    if i > 0 && configuration.violation(requested[0]) is None {
        let rest = requested.drop_first();
        assert(rest[i - 1] == requested[i]);
        lemma_any_violation_rejects(configuration, rest, i - 1);
    }
}

/// A request that holds a repository without architectures is rejected, and
/// where nothing before that repository is at fault, the answer names it as
/// being without architectures.
pub proof fn lemma_empty_architectures_rejected(
    configuration: ConfigurationView,
    requested: Seq<RepositoryView>,
    i: int,
)
    requires
        0 <= i < requested.len(),
        requested[i].architectures.len() == 0,
    ensures
        configuration.verdict(requested) is Some,
        !configuration.accepts(requested),
        (forall|j: int| 0 <= j < i ==> configuration.violation(#[trigger] requested[j]) is None)
            ==> configuration.verdict(requested) == Some(
            RepoErrorView::EmptyArchitecture(requested[i].name),
        ),
{
    lemma_any_violation_rejects(configuration, requested, i);
    if forall|j: int| 0 <= j < i ==> configuration.violation(#[trigger] requested[j]) is None {
        lemma_verdict_is_first_violation(configuration, requested, i);
    }
}

/// A request that holds a repository without components is rejected, and
/// where nothing before that repository is at fault and it names an
/// architecture, the answer names it as being without components.
pub proof fn lemma_empty_components_rejected(
    configuration: ConfigurationView,
    requested: Seq<RepositoryView>,
    i: int,
)
    requires
        0 <= i < requested.len(),
        requested[i].components.len() == 0,
    ensures
        configuration.verdict(requested) is Some,
        !configuration.accepts(requested),
        requested[i].architectures.len() > 0 && (forall|j: int|
            0 <= j < i ==> configuration.violation(#[trigger] requested[j]) is None)
            ==> configuration.verdict(requested) == Some(
            RepoErrorView::EmptyComponent(requested[i].name),
        ),
{
    lemma_any_violation_rejects(configuration, requested, i);
    if forall|j: int| 0 <= j < i ==> configuration.violation(#[trigger] requested[j]) is None {
        lemma_verdict_is_first_violation(configuration, requested, i);
    }
}

/// A request that names a repository which is not configured is rejected as a
/// whole, also where every other repository in it could be published; where
/// nothing before that repository is at fault and it names an architecture and
/// a component, the answer names it as not configured.
pub proof fn lemma_unknown_repository_rejected(
    configuration: ConfigurationView,
    requested: Seq<RepositoryView>,
    i: int,
)
    requires
        0 <= i < requested.len(),
        !configuration.knows(requested[i].name),
    ensures
        configuration.verdict(requested) is Some,
        !configuration.accepts(requested),
        requested[i].architectures.len() > 0 && requested[i].components.len() > 0 && (forall|
            j: int,
        |
            0 <= j < i ==> configuration.violation(#[trigger] requested[j]) is None)
            ==> configuration.verdict(requested) == Some(
            RepoErrorView::RepositoryNotPresentInConfiguration(requested[i].name),
        ),
{
    lemma_any_violation_rejects(configuration, requested, i);
    if forall|j: int| 0 <= j < i ==> configuration.violation(#[trigger] requested[j]) is None {
        lemma_verdict_is_first_violation(configuration, requested, i);
    }
}

} // verus!
