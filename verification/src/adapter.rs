//! What is handed to `debian_packaging` to have a repository's index files
//! built and written.

use vstd::prelude::*;
use debian_packaging::error::DebianError;
use debian_packaging::repository::builder::RepositoryBuilder;
use debian_packaging::repository::filesystem::{
    FilesystemRepositoryReader,
    FilesystemRepositoryWriter,
};
use crate::configuration::Configuration;
use crate::error::RepoError;
use crate::repository::{views_of, Repository, RepositoryView};

verus! {

/// `DebianError` of `debian_packaging`: carried through, never looked into.
#[verifier::external_type_specification]
#[verifier::external_body]
pub struct ExDebianError(DebianError);

/// `RepositoryBuilder` of `debian_packaging`: carried through, never looked
/// into.
#[verifier::external_type_specification]
#[verifier::external_body]
pub struct ExRepositoryBuilder<'cf>(RepositoryBuilder<'cf>);

/// `FilesystemRepositoryReader` of `debian_packaging`: carried through, never
/// looked into.
#[verifier::external_type_specification]
#[verifier::external_body]
pub struct ExFilesystemRepositoryReader(FilesystemRepositoryReader);

/// `FilesystemRepositoryWriter` of `debian_packaging`: carried through, never
/// looked into.
#[verifier::external_type_specification]
#[verifier::external_body]
pub struct ExFilesystemRepositoryWriter(FilesystemRepositoryWriter);

/// What a builder was told of the release that it builds.
pub struct ReleaseFields {
    pub architectures: Set<Seq<char>>,
    pub components: Set<Seq<char>>,
    pub suite: Option<Seq<char>>,
    pub codename: Option<Seq<char>>,
}

/// The release fields that a `RepositoryBuilder` of `debian_packaging` holds:
/// the architectures and the components registered with it, and its suite and
/// codename where they were set.
pub uninterp spec fn release_fields(builder: RepositoryBuilder<'static>) -> ReleaseFields;

impl RepositoryView {
    /// What a builder for this repository is told: its architectures and its
    /// components, each once however often it is listed, its suite and its
    /// codename.
    pub open spec fn release(self) -> ReleaseFields {
        ReleaseFields {
            architectures: self.architectures.to_set(),
            components: self.components.to_set(),
            suite: Some(self.suite),
            codename: Some(self.codename),
        }
    }
}

/// Calls `RepositoryBuilder::new_recommended` of `debian_packaging` with the
/// architectures, the components, the suite and the codename given. The
/// contract claims what the constructor stores: the architectures and the
/// components as sets of the strings given, the suite and the codename as
/// given. Nothing is claimed of the rest of the builder, which holds the
/// crate's recommended settings and the time at which it was made.
#[verifier::external_body]
fn new_recommended(
    architectures: &Vec<String>,
    components: &Vec<String>,
    suite: &String,
    codename: &String,
) -> (builder: RepositoryBuilder<'static>)
    ensures
        release_fields(builder) == (ReleaseFields {
            architectures: views_of(architectures@).to_set(),
            components: views_of(components@).to_set(),
            suite: Some(suite@),
            codename: Some(codename@),
        }),
{
    RepositoryBuilder::new_recommended(architectures.iter(), components.iter(), suite, codename)
}

/// Calls `FilesystemRepositoryReader::new` of `debian_packaging` with the
/// directory given. Nothing is claimed of the reader that comes back: it
/// keeps the directory to itself.
#[verifier::external_body]
fn reader_at(root: &String) -> (reader: FilesystemRepositoryReader) {
    FilesystemRepositoryReader::new(root)
}

/// Calls `FilesystemRepositoryWriter::new` of `debian_packaging` with the
/// directory given. Nothing is claimed of the writer that comes back: it
/// keeps the directory to itself.
#[verifier::external_body]
fn writer_at(root: &String) -> (writer: FilesystemRepositoryWriter) {
    FilesystemRepositoryWriter::new(root)
}

/// Formats an error of `debian_packaging` by its `Display`. Nothing is claimed
/// of the text.
#[verifier::external_body]
fn text_of(error: &DebianError) -> (text: String) {
    format!("{}", error)
}

impl RepoError {
    /// The error of this library for a failure reported by
    /// `debian_packaging`, with the text of that failure as its cause.
    pub fn from_debian(error: &DebianError) -> (failure: RepoError)
        ensures
            failure@ is DebianError,
    {
        RepoError::DebianError(text_of(error))
    }
}

/// Everything that one call of the builder's `publish` takes.
pub struct PublishJob {
    /// Builds the index files of the repository.
    pub builder: RepositoryBuilder<'static>,
    /// Writes below the archive root.
    pub writer: FilesystemRepositoryWriter,
    /// Reads below the archive root.
    pub reader: FilesystemRepositoryReader,
    /// Where below the archive root the repository is published.
    pub distribution_path: String,
    /// How many files are worked on at a time.
    pub threads: usize,
}

impl Repository {
    /// A builder with the recommended settings for this repository's
    /// architectures, components, suite and codename. It holds no package yet.
    pub fn builder(&self) -> (builder: RepositoryBuilder<'static>)
        ensures
            release_fields(builder) == self@.release(),
    {
        new_recommended(&self.architectures, &self.components, &self.suite, &self.codename)
    }
}

impl PublishJob {
    /// The job that publishes a repository to the given path, with a reader
    /// and a writer bound to the archive root, one file at a time.
    pub fn new(repository: &Repository, root: &String, distribution_path: &String) -> (job:
        PublishJob)
        ensures
            release_fields(job.builder) == repository@.release(),
            job.distribution_path@ == distribution_path@,
            job.threads == 1,
    {
        PublishJob {
            builder: repository.builder(),
            writer: writer_at(root),
            reader: reader_at(root),
            distribution_path: distribution_path.clone(),
            threads: 1,
        }
    }
}

/// One builder for each configured repository, in the order of the
/// configuration.
pub fn create_repositories(configuration: &Configuration) -> (builders: Vec<
    RepositoryBuilder<'static>,
>)
    ensures
        builders@.len() == configuration@.repositories.len(),
        forall|i: int|
            0 <= i < builders@.len() ==> release_fields(#[trigger] builders@[i])
                == configuration@.repositories[i].release(),
{
    let mut builders: Vec<RepositoryBuilder<'static>> = Vec::new();
    let mut i: usize = 0;
    while i < configuration.repositories.len()
        invariant
            i <= configuration.repositories.len(),
            builders@.len() == i,
            forall|k: int|
                0 <= k < i ==> release_fields(#[trigger] builders@[k])
                    == configuration@.repositories[k].release(),
        decreases configuration.repositories.len() - i,
    {
        assert(configuration@.repositories[i as int] == configuration.repositories@[i as int]@);
        builders.push(configuration.repositories[i].builder());
        i += 1;
    }
    builders
}

} // verus!
