//! The publication of a batch of repositories: which repository is published
//! next, under which lock, and what is reported for each.
//!
//! The batch decides and records; building and writing the index files is the
//! caller's work. The caller asks [`PublishBatch::start_next`] what to do,
//! publishes the repository it is told to, and reports how that ended with
//! [`PublishBatch::complete`].

use vstd::prelude::*;
use vstd::string::*;
use debian_packaging::error::DebianError;
use crate::adapter::{release_fields, PublishJob};
use crate::configuration::{
    lemma_known_name_resolves,
    lemma_verdict_is_first_violation,
    views_of_repositories,
    Configuration,
    ConfigurationView,
};
use crate::error::{RepoError, RepoErrorView};
use crate::locks::{LockRegistry, LockTable};
use crate::repository::{Repository, RepositoryView};

verus! {

/// The path under the archive root below which a repository is published.
pub open spec fn path_of(root: Seq<char>, name: Seq<char>) -> Seq<char> {
    root + "/dists/"@ + name
}

/// The path under the archive root below which a repository is published:
/// the root, `/dists/` and the repository's name.
pub fn distribution_path(root: &String, name: &String) -> (path: String)
    ensures
        path@ == path_of(root@, name@),
{
    let mut path = root.clone();
    path.append("/dists/");
    path.append(name.as_str());
    path
}

/// The mathematical value of an [`Outcome`].
pub enum OutcomeView {
    Pending,
    Running,
    Succeeded,
    Failed(Seq<char>),
}

impl OutcomeView {
    /// Whether the publication has ended, well or not.
    pub open spec fn is_final(self) -> bool {
        self is Succeeded || self is Failed
    }
}

/// How far the publication of one repository has come.
#[derive(Debug)]
pub enum Outcome {
    /// Not started yet.
    Pending,
    /// Being published, under the repository's lock.
    Running,
    /// Published.
    Succeeded,
    /// Not published, for the reason given.
    Failed(String),
}

impl View for Outcome {
    type V = OutcomeView;

    open spec fn view(&self) -> OutcomeView {
        match self {
            Outcome::Pending => OutcomeView::Pending,
            Outcome::Running => OutcomeView::Running,
            Outcome::Succeeded => OutcomeView::Succeeded,
            Outcome::Failed(reason) => OutcomeView::Failed(reason@),
        }
    }
}

impl Clone for Outcome {
    fn clone(&self) -> (copy: Outcome)
        ensures
            copy@ == self@,
    {
        match self {
            Outcome::Pending => Outcome::Pending,
            Outcome::Running => Outcome::Running,
            Outcome::Succeeded => Outcome::Succeeded,
            Outcome::Failed(reason) => Outcome::Failed(reason.clone()),
        }
    }
}

impl PartialEq for Outcome {
    fn eq(&self, other: &Outcome) -> (equal: bool) {
        match (self, other) {
            (Outcome::Pending, Outcome::Pending) => true,
            (Outcome::Running, Outcome::Running) => true,
            (Outcome::Succeeded, Outcome::Succeeded) => true,
            (Outcome::Failed(left), Outcome::Failed(right)) => *left == *right,
            _ => false,
        }
    }
}

impl vstd::std_specs::cmp::PartialEqSpecImpl for Outcome {
    open spec fn obeys_eq_spec() -> bool {
        true
    }

    open spec fn eq_spec(&self, other: &Outcome) -> bool {
        self@ == other@
    }
}

impl Eq for Outcome {

}

impl Outcome {
    /// Whether the publication has ended, well or not.
    pub fn is_final(&self) -> (ended: bool)
        ensures
            ended == self@.is_final(),
    {
        match self {
            Outcome::Succeeded => true,
            Outcome::Failed(_) => true,
            _ => false,
        }
    }
}

/// What the publication of one repository ended in: nothing on success, the
/// cause on failure.
pub open spec fn outcome_of(result: Result<(), String>) -> OutcomeView {
    match result {
        Ok(_) => OutcomeView::Succeeded,
        Err(cause) => OutcomeView::Failed(cause@),
    }
}

/// Whether `outcome` is what is recorded for a publication that the builder
/// ended with `result`: success for success, and for a failure its message
/// as an error of this library.
pub open spec fn published_as(result: Result<(), DebianError>, outcome: OutcomeView) -> bool {
    match result {
        Ok(_) => outcome is Succeeded,
        Err(_) => exists|cause: Seq<char>|
            outcome == OutcomeView::Failed(#[trigger] RepoErrorView::DebianError(cause).message()),
    }
}

/// The mathematical value of a [`PublishRequestItem`].
pub struct ItemView {
    pub repository: RepositoryView,
    pub distribution_path: Seq<char>,
    pub outcome: OutcomeView,
}

/// One repository of a publish request: its definition, where it is published
/// and how far its publication has come.
#[derive(Debug)]
pub struct PublishRequestItem {
    pub repository: Repository,
    pub distribution_path: String,
    pub outcome: Outcome,
}

impl View for PublishRequestItem {
    type V = ItemView;

    open spec fn view(&self) -> ItemView {
        ItemView {
            repository: self.repository@,
            distribution_path: self.distribution_path@,
            outcome: self.outcome@,
        }
    }
}

/// What is reported for one repository of a publish request.
#[derive(Debug)]
pub struct RepositoryOutcome {
    pub name: String,
    pub outcome: Outcome,
}

/// The mathematical value of a [`RepositoryOutcome`].
pub struct RepositoryOutcomeView {
    pub name: Seq<char>,
    pub outcome: OutcomeView,
}

impl View for RepositoryOutcome {
    type V = RepositoryOutcomeView;

    open spec fn view(&self) -> RepositoryOutcomeView {
        RepositoryOutcomeView { name: self.name@, outcome: self.outcome@ }
    }
}

/// What the caller of a batch has to do next.
#[derive(Clone, Copy, Debug, PartialEq, Eq, Structural)]
pub enum Step {
    /// Every repository has its outcome: report them.
    Finished,
    /// The repository at this place is being published: report how that ended
    /// before asking again.
    Busy(usize),
    /// The lock of the repository at this place is held by another
    /// publication: ask again once a lock was given back.
    Blocked(usize),
    /// The repository at this place is now running under its lock: publish it
    /// and report how that ended.
    Publish(usize),
}

/// The mathematical value of a [`PublishBatch`].
pub struct BatchView {
    pub root: Seq<char>,
    pub items: Seq<ItemView>,
    pub cursor: nat,
    pub running: bool,
}

impl BatchView {
    /// The batch of an accepted request: for every requested name, in the
    /// order of the request, the definition that the configuration has for
    /// it, with its path below the archive root, none started.
    pub open spec fn planned(
        configuration: ConfigurationView,
        requested: Seq<RepositoryView>,
    ) -> BatchView {
        BatchView {
            root: configuration.repo_root_path,
            items: Seq::new(
                requested.len(),
                |i: int|
                    ItemView {
                        repository: configuration.resolve(requested[i].name),
                        distribution_path: path_of(
                            configuration.repo_root_path,
                            requested[i].name,
                        ),
                        outcome: OutcomeView::Pending,
                    },
            ),
            cursor: 0,
            running: false,
        }
    }

    /// The outcome that the repository at place `i` must have in a batch that
    /// has come to `cursor`: final before it, pending after it, and at it
    /// running or pending.
    pub open spec fn in_phase(self, i: int) -> bool {
        let outcome = self.items[i].outcome;
        if i < self.cursor {
            outcome.is_final()
        } else if i == self.cursor && self.running {
            outcome is Running
        } else {
            outcome is Pending
        }
    }

    /// Whether the batch is one that publishing can lead to: its repositories
    /// are published one at a time in the order of the request, and each has
    /// its path below the archive root.
    pub open spec fn wf(self) -> bool {
        &&& self.cursor <= self.items.len()
        &&& self.running ==> self.cursor < self.items.len()
        &&& forall|i: int| 0 <= i < self.items.len() ==> self.in_phase(i)
        &&& forall|i: int|
            0 <= i < self.items.len() ==> (#[trigger] self.items[i]).distribution_path == path_of(
                self.root,
                self.items[i].repository.name,
            )
    }

    /// Whether every repository has its outcome.
    pub open spec fn finished(self) -> bool {
        self.cursor == self.items.len()
    }

    /// The name of the repository whose turn it is.
    pub open spec fn current_name(self) -> Seq<char>
        recommends
            !self.finished(),
    {
        self.items[self.cursor as int].repository.name
    }

    /// Whether the batch is publishing the repository of this name right now.
    pub open spec fn is_publishing(self, name: Seq<char>) -> bool {
        self.running && self.current_name() == name
    }

    /// What the caller has to do next, given the locks as they are.
    pub open spec fn step(self, locks: LockTable) -> Step {
        if self.finished() {
            Step::Finished
        } else if self.running {
            Step::Busy(self.cursor as usize)
        } else if locks.grants(self.current_name()) {
            Step::Publish(self.cursor as usize)
        } else {
            Step::Blocked(self.cursor as usize)
        }
    }

    /// The batch with another outcome for the repository whose turn it is.
    pub open spec fn with_outcome(self, outcome: OutcomeView) -> Seq<ItemView> {
        self.items.update(
            self.cursor as int,
            ItemView { outcome, ..self.items[self.cursor as int] },
        )
    }

    /// The batch after the caller asked what to do next: the repository whose
    /// turn it is runs if its lock could be taken; else nothing changed.
    pub open spec fn started(self, locks: LockTable) -> BatchView {
        if self.step(locks) is Publish {
            BatchView { items: self.with_outcome(OutcomeView::Running), running: true, ..self }
        } else {
            self
        }
    }

    /// The locks after the caller asked what to do next.
    pub open spec fn locks_after_start(self, locks: LockTable) -> LockTable {
        if self.step(locks) is Publish {
            locks.acquire(self.current_name())
        } else {
            locks
        }
    }

    /// The batch after the caller reported how the running publication ended:
    /// the outcome is recorded and the turn passes on, whatever the outcome.
    /// Where nothing was running, nothing changed.
    pub open spec fn completed(self, outcome: OutcomeView) -> BatchView {
        if self.running {
            BatchView {
                items: self.with_outcome(outcome),
                cursor: self.cursor + 1,
                running: false,
                ..self
            }
        } else {
            self
        }
    }

    /// The locks after the caller reported how the running publication ended.
    pub open spec fn locks_after_complete(self, locks: LockTable) -> LockTable {
        if self.running {
            locks.release(self.current_name())
        } else {
            locks
        }
    }

    /// The batch after its next repositories were published one after the
    /// other, each under a free lock, and ended as `results` says, in turn.
    pub open spec fn run(self, results: Seq<OutcomeView>) -> BatchView
        decreases results.len(),
    {
        if results.len() == 0 {
            self
        } else {
            self.started(LockTable::empty()).completed(results[0]).run(results.drop_first())
        }
    }

    /// What is reported for the batch: name and outcome of each repository, in
    /// the order of the request.
    pub open spec fn outcomes(self) -> Seq<RepositoryOutcomeView> {
        Seq::new(
            self.items.len(),
            |i: int|
                RepositoryOutcomeView {
                    name: self.items[i].repository.name,
                    outcome: self.items[i].outcome,
                },
        )
    }
}

/// The views of the items of a list, in the list's order.
pub open spec fn views_of_items(list: Seq<PublishRequestItem>) -> Seq<ItemView> {
    Seq::new(list.len(), |i: int| list[i]@)
}

/// The views of the reports of a list, in the list's order.
pub open spec fn views_of_outcomes(list: Seq<RepositoryOutcome>) -> Seq<RepositoryOutcomeView> {
    Seq::new(list.len(), |i: int| list[i]@)
}

/// The repositories of one accepted publish request and how far each has come.
pub struct PublishBatch {
    root: String,
    items: Vec<PublishRequestItem>,
    cursor: usize,
    running: bool,
}

impl View for PublishBatch {
    type V = BatchView;

    closed spec fn view(&self) -> BatchView {
        BatchView {
            root: self.root@,
            items: views_of_items(self.items@),
            cursor: self.cursor as nat,
            running: self.running,
        }
    }
}

impl PublishBatch {
    #[verifier::type_invariant]
    spec fn inv(&self) -> bool {
        self@.wf()
    }

    /// Validates a publish request and, if it passes, lays out its batch: for
    /// every requested name, in the order of the request, the configured
    /// repository of that name with its path below the configured archive
    /// root, none started. A request that does not pass gets the answer of
    /// validation and no batch, so that nothing of it is ever published.
    pub fn accept(configuration: &Configuration, repos: &Vec<Repository>) -> (outcome: Result<
        PublishBatch,
        RepoError,
    >)
        ensures
            outcome is Ok <==> configuration@.accepts(views_of_repositories(repos@)),
            match outcome {
                Ok(batch) => batch@ == BatchView::planned(
                    configuration@,
                    views_of_repositories(repos@),
                ) && batch@.wf(),
                Err(error) => configuration@.verdict(views_of_repositories(repos@)) == Some(
                    error@,
                ),
            },
    {
        let ghost requested = views_of_repositories(repos@);
        let ghost planned = BatchView::planned(configuration@, requested);
        let mut items: Vec<PublishRequestItem> = Vec::new();
        let mut i: usize = 0;
        while i < repos.len()
            invariant
                i <= repos.len(),
                items.len() == i,
                requested == views_of_repositories(repos@),
                planned == BatchView::planned(configuration@, requested),
                forall|k: int|
                    0 <= k < i ==> configuration@.violation(#[trigger] requested[k]) is None,
                forall|k: int| 0 <= k < i ==> items@[k]@ == planned.items[k],
            decreases repos.len() - i,
        {
            assert(requested[i as int] == repos@[i as int]@);
            let repository = match configuration.resolve(&repos[i]) {
                Ok(configured) => configured.clone(),
                Err(error) => {
                    proof {
                        assert(configuration@.first_violation_at(requested, i as int));
                        lemma_verdict_is_first_violation(configuration@, requested, i as int);
                    }
                    return Err(error);
                },
            };
            let path = distribution_path(&configuration.repo_root_path, &repos[i].name);
            items.push(
                PublishRequestItem {
                    repository,
                    distribution_path: path,
                    outcome: Outcome::Pending,
                },
            );
            i += 1;
        }
        assert(views_of_items(items@) =~= planned.items);
        proof {
            lemma_planned_is_wf(configuration@, requested);
        }
        Ok(
            PublishBatch {
                root: configuration.repo_root_path.clone(),
                items,
                cursor: 0,
                running: false,
            },
        )
    }

    /// How many repositories the batch holds.
    pub fn len(&self) -> (count: usize)
        ensures
            count == self@.items.len(),
            self@.wf(),
    {
        proof {
            use_type_invariant(self);
        }
        self.items.len()
    }

    /// Whether every repository has its outcome.
    pub fn is_finished(&self) -> (finished: bool)
        ensures
            finished == self@.finished(),
            self@.wf(),
    {
        proof {
            use_type_invariant(self);
        }
        self.cursor == self.items.len()
    }

    /// The repository at a place of the request, if the request is that long.
    pub fn item(&self, index: usize) -> (item: Option<&PublishRequestItem>)
        ensures
            item is Some <==> index < self@.items.len(),
            item is Some ==> item->Some_0@ == self@.items[index as int],
    {
        if index < self.items.len() {
            Some(&self.items[index])
        } else {
            None
        }
    }

    /// The job of the running publication: what the caller hands to the
    /// builder's `publish`. There is one only while a repository runs, that is
    /// while its lock is held for this batch.
    pub fn current_job(&self) -> (job: Option<PublishJob>)
        ensures
            job is Some <==> self@.running,
            job is Some ==> release_fields(job->Some_0.builder)
                == self@.items[self@.cursor as int].repository.release(),
            job is Some ==> job->Some_0.distribution_path@ == path_of(
                self@.root,
                self@.current_name(),
            ) && job->Some_0.threads == 1,
    {
        proof {
            use_type_invariant(self);
        }
        if self.running {
            let item = &self.items[self.cursor];
            assert(self@.items[self.cursor as int] == item@);
            Some(PublishJob::new(&item.repository, &self.root, &item.distribution_path))
        } else {
            None
        }
    }

    /// Says what the caller has to do next. Where it is the turn of a
    /// repository that is not running yet, its lock is asked for: if the lock
    /// is free it is taken, the repository is marked as running and the caller
    /// is told to publish it; if not, nothing changes and the caller is told
    /// that it is blocked.
    pub fn start_next(&mut self, locks: &mut LockRegistry) -> (step: Step)
        ensures
            step == old(self)@.step(old(locks)@),
            final(self)@ == old(self)@.started(old(locks)@),
            final(locks)@ == old(self)@.locks_after_start(old(locks)@),
            old(self)@.wf() && final(self)@.wf(),
    {
        proof {
            use_type_invariant(&*self);
        }
        if self.cursor == self.items.len() {
            return Step::Finished;
        }
        if self.running {
            return Step::Busy(self.cursor);
        }
        if !locks.try_acquire(&self.items[self.cursor].repository.name) {
            return Step::Blocked(self.cursor);
        }
        let ghost before = self@;
        let mut whole = PublishBatch::hollow();
        core::mem::swap(self, &mut whole);
        let PublishBatch { root, mut items, cursor, running: _ } = whole;
        items[cursor].outcome = Outcome::Running;
        proof {
            let after = BatchView {
                root: root@,
                items: views_of_items(items@),
                cursor: cursor as nat,
                running: true,
            };
            assert(after.items =~= before.with_outcome(OutcomeView::Running));
            assert forall|i: int| 0 <= i < after.items.len() implies after.in_phase(i) by {
                assert(before.in_phase(i));
            }
        }
        *self = PublishBatch { root, items, cursor, running: true };
        Step::Publish(cursor)
    }

    /// Records how the running publication ended, gives its lock back and
    /// passes the turn on, and says whether anything was running. A failure is
    /// recorded like a success: the repositories after it keep their turn.
    /// Where nothing was running, nothing changes.
    pub fn complete(&mut self, result: Result<(), String>, locks: &mut LockRegistry) -> (recorded:
        bool)
        ensures
            recorded == old(self)@.running,
            final(self)@ == old(self)@.completed(outcome_of(result)),
            final(locks)@ == old(self)@.locks_after_complete(old(locks)@),
            old(self)@.wf() && final(self)@.wf(),
    {
        proof {
            use_type_invariant(&*self);
        }
        if !self.running {
            return false;
        }
        locks.release(&self.items[self.cursor].repository.name);
        let ghost before = self@;
        let mut whole = PublishBatch::hollow();
        core::mem::swap(self, &mut whole);
        let PublishBatch { root, mut items, cursor, running: _ } = whole;
        items[cursor].outcome = match result {
            Ok(_) => Outcome::Succeeded,
            Err(cause) => Outcome::Failed(cause),
        };
        proof {
            let after = BatchView {
                root: root@,
                items: views_of_items(items@),
                cursor: (cursor + 1) as nat,
                running: false,
            };
            assert(after.items =~= before.with_outcome(outcome_of(result)));
            assert forall|i: int| 0 <= i < after.items.len() implies after.in_phase(i) by {
                assert(before.in_phase(i));
            }
        }
        assert(cursor < items.len());
        *self = PublishBatch { root, items, cursor: cursor + 1, running: false };
        true
    }

    /// Records how the builder's `publish` ended for the running publication:
    /// as [`PublishBatch::complete`] does, with the message of the failure as
    /// the reason where it failed.
    pub fn complete_published(
        &mut self,
        result: Result<(), DebianError>,
        locks: &mut LockRegistry,
    ) -> (recorded: bool)
        ensures
            recorded == old(self)@.running,
            exists|outcome: OutcomeView|
                final(self)@ == old(self)@.completed(outcome) && published_as(result, outcome),
            final(locks)@ == old(self)@.locks_after_complete(old(locks)@),
            old(self)@.wf() && final(self)@.wf(),
    {
        let reported: Result<(), String> = match result {
            Ok(_) => Ok(()),
            Err(error) => {
                let failure = RepoError::from_debian(&error);
                assert(failure@ == RepoErrorView::DebianError(failure@->DebianError_0));
                Err(failure.message())
            },
        };
        assert(published_as(result, outcome_of(reported)));
        self.complete(reported, locks)
    }

    /// What is reported for the batch: name and outcome of each repository, in
    /// the order of the request.
    pub fn outcomes(&self) -> (report: Vec<RepositoryOutcome>)
        ensures
            views_of_outcomes(report@) == self@.outcomes(),
    {
        let mut report: Vec<RepositoryOutcome> = Vec::new();
        let mut i: usize = 0;
        while i < self.items.len()
            invariant
                i <= self.items.len(),
                report.len() == i,
                forall|k: int| 0 <= k < i ==> report@[k]@ == self@.outcomes()[k],
            decreases self.items.len() - i,
        {
            report.push(
                RepositoryOutcome {
                    name: self.items[i].repository.name.clone(),
                    outcome: self.items[i].outcome.clone(),
                },
            );
            i += 1;
        }
        assert(views_of_outcomes(report@) =~= self@.outcomes());
        report
    }

    /// A batch without repositories, to stand in while another is rebuilt.
    fn hollow() -> (batch: PublishBatch)
        ensures
            batch@.items.len() == 0,
    {
        PublishBatch { root: String::new(), items: Vec::new(), cursor: 0, running: false }
    }
}

/// Asking what to do next leads from a batch that publishing can lead to to
/// another such batch, and changes nothing but the outcome of the repository
/// whose turn it is.
pub proof fn lemma_started_is_wf(batch: BatchView, locks: LockTable)
    requires
        batch.wf(),
    ensures
        batch.started(locks).wf(),
        batch.started(locks).cursor == batch.cursor,
        batch.started(locks).items.len() == batch.items.len(),
        forall|i: int|
            0 <= i < batch.items.len() && i != batch.cursor ==> batch.started(locks).items[i]
                == batch.items[i],
{
    let next = batch.started(locks);
    assert forall|i: int| 0 <= i < next.items.len() implies next.in_phase(i) by {
        assert(batch.in_phase(i));
    }
}

/// A failure stays where it happened: reporting how the running publication
/// ended records that outcome for its repository, changes no other
/// repository of the batch, and passes the turn to the next repository
/// whether the publication failed or not, so that the next one is started as
/// soon as its lock is free.
pub proof fn lemma_failure_is_isolated(batch: BatchView, outcome: OutcomeView)
    requires
        batch.wf(),
        batch.running,
        outcome.is_final(),
    ensures
        batch.completed(outcome).wf(),
        batch.completed(outcome).items.len() == batch.items.len(),
        batch.completed(outcome).items[batch.cursor as int].outcome == outcome,
        batch.completed(outcome).items[batch.cursor as int].repository
            == batch.items[batch.cursor as int].repository,
        forall|i: int|
            0 <= i < batch.items.len() && i != batch.cursor ==> batch.completed(outcome).items[i]
                == batch.items[i],
        batch.completed(outcome).cursor == batch.cursor + 1,
        !batch.completed(outcome).running,
        forall|locks: LockTable|
            !batch.completed(outcome).finished() && locks.grants(
                batch.completed(outcome).current_name(),
            ) ==> #[trigger] batch.completed(outcome).step(locks) is Publish,
{
    let next = batch.completed(outcome);
    assert forall|i: int| 0 <= i < next.items.len() implies next.in_phase(i) by {
        assert(batch.in_phase(i));
    }
}

/// Publishing the rest of a batch gives every repository that was still to
/// come the outcome of its own publication, and leaves the others as they
/// were.
pub proof fn lemma_run_pairs_outcomes(batch: BatchView, results: Seq<OutcomeView>)
    requires
        batch.wf(),
        !batch.running,
        batch.cursor + results.len() == batch.items.len(),
        forall|i: int| 0 <= i < results.len() ==> (#[trigger] results[i]).is_final(),
    ensures
        batch.run(results).wf(),
        batch.run(results).finished(),
        batch.run(results).items.len() == batch.items.len(),
        forall|i: int|
            0 <= i < batch.cursor ==> (#[trigger] batch.run(results).items[i]) == batch.items[i],
        forall|i: int|
            batch.cursor <= i < batch.items.len() ==> (#[trigger] batch.run(results).items[i])
                == (ItemView { outcome: results[i - batch.cursor], ..batch.items[i] }),
    decreases results.len(),
{
    if results.len() > 0 {
        let free = LockTable::empty();
        let running = batch.started(free);
        assert(batch.in_phase(batch.cursor as int));
        lemma_started_is_wf(batch, free);
        assert(running.running);
        let next = running.completed(results[0]);
        lemma_failure_is_isolated(running, results[0]);
        let rest = results.drop_first();
        assert forall|i: int| 0 <= i < rest.len() implies (#[trigger] rest[i]).is_final() by {
            assert(rest[i] == results[i + 1]);
        }
        lemma_run_pairs_outcomes(next, rest);
        assert forall|i: int| batch.cursor <= i < batch.items.len() implies (
        #[trigger] batch.run(results).items[i]) == (ItemView {
            outcome: results[i - batch.cursor],
            ..batch.items[i]
        }) by {
            if i > batch.cursor {
                assert(rest[i - next.cursor] == results[i - batch.cursor]);
            }
        }
    }
}

/// The batch of an accepted request is one that publishing can start from,
/// and each of its repositories bears the name that was requested.
pub proof fn lemma_planned_is_wf(configuration: ConfigurationView, requested: Seq<RepositoryView>)
    requires
        configuration.accepts(requested),
    ensures
        BatchView::planned(configuration, requested).wf(),
        !BatchView::planned(configuration, requested).running,
        forall|i: int|
            0 <= i < requested.len() ==> (#[trigger] BatchView::planned(
                configuration,
                requested,
            ).items[i]).repository.name == requested[i].name,
{
    let batch = BatchView::planned(configuration, requested);
    assert forall|i: int| 0 <= i < requested.len() implies (
    #[trigger] batch.items[i]).repository.name == requested[i].name by {
        assert(configuration.violation(requested[i]) is None);
        lemma_known_name_resolves(configuration, requested[i].name);
    }
    assert forall|i: int| 0 <= i < batch.items.len() implies batch.in_phase(i) by {}
}

/// The report of an accepted request pairs every requested repository, in the
/// order of the request, with the outcome of its own publication: one that
/// fails neither ends the batch nor changes what is reported for another.
pub proof fn lemma_report_pairs_request(
    configuration: ConfigurationView,
    requested: Seq<RepositoryView>,
    results: Seq<OutcomeView>,
)
    requires
        configuration.accepts(requested),
        results.len() == requested.len(),
        forall|i: int| 0 <= i < results.len() ==> (#[trigger] results[i]).is_final(),
    ensures
        BatchView::planned(configuration, requested).run(results).finished(),
        BatchView::planned(configuration, requested).run(results).outcomes() == Seq::new(
            requested.len(),
            |i: int| RepositoryOutcomeView { name: requested[i].name, outcome: results[i] },
        ),
{
    let batch = BatchView::planned(configuration, requested);
    lemma_planned_is_wf(configuration, requested);
    lemma_run_pairs_outcomes(batch, results);
    assert(batch.run(results).outcomes() =~= Seq::new(
        requested.len(),
        |i: int| RepositoryOutcomeView { name: requested[i].name, outcome: results[i] },
    ));
}

} // verus!
