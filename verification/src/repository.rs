//! The definition of one package repository.

use vstd::prelude::*;

verus! {

/// The mathematical value of a [`Repository`].
pub struct RepositoryView {
    pub name: Seq<char>,
    pub architectures: Seq<Seq<char>>,
    pub components: Seq<Seq<char>>,
    pub suite: Seq<char>,
    pub codename: Seq<char>,
}

/// The views of the strings of a list, in the list's order.
pub open spec fn views_of(list: Seq<String>) -> Seq<Seq<char>> {
    Seq::new(list.len(), |i: int| list[i]@)
}

/// A named package repository: what is built for it and under which release
/// names it is published.
#[derive(Debug)]
pub struct Repository {
    pub name: String,
    pub architectures: Vec<String>,
    pub components: Vec<String>,
    pub suite: String,
    pub codename: String,
}

impl View for Repository {
    type V = RepositoryView;

    open spec fn view(&self) -> RepositoryView {
        RepositoryView {
            name: self.name@,
            architectures: views_of(self.architectures@),
            components: views_of(self.components@),
            suite: self.suite@,
            codename: self.codename@,
        }
    }
}

/// The repository that a fresh installation starts with.
pub open spec fn default_repository() -> RepositoryView {
    RepositoryView {
        name: "stable"@,
        architectures: seq!["amd64"@, "arm64"@],
        components: seq!["main"@, "contrib"@],
        suite: "stable"@,
        codename: "buster"@,
    }
}

/// Whether two lists hold the same strings in the same order.
pub fn same_strings(left: &Vec<String>, right: &Vec<String>) -> (same: bool)
    ensures
        same == (views_of(left@) == views_of(right@)),
{
    if left.len() != right.len() {
        assert(views_of(left@).len() != views_of(right@).len());
        return false;
    }
    let mut i: usize = 0;
    while i < left.len()
        invariant
            i <= left.len(),
            left.len() == right.len(),
            forall|k: int| 0 <= k < i ==> left@[k]@ == right@[k]@,
        decreases left.len() - i,
    {
        if left[i] != right[i] {
            assert(views_of(left@)[i as int] != views_of(right@)[i as int]);
            return false;
        }
        i += 1;
    }
    assert(views_of(left@) =~= views_of(right@));
    true
}

/// A copy of a list of strings.
pub fn copy_strings(list: &Vec<String>) -> (copy: Vec<String>)
    ensures
        views_of(copy@) == views_of(list@),
{
    let mut copy: Vec<String> = Vec::new();
    let mut i: usize = 0;
    while i < list.len()
        invariant
            i <= list.len(),
            copy.len() == i,
            forall|k: int| 0 <= k < i ==> copy@[k]@ == list@[k]@,
        decreases list.len() - i,
    {
        copy.push(list[i].clone());
        i += 1;
    }
    assert(views_of(copy@) =~= views_of(list@));
    copy
}

impl Repository {
    /// The repository `stable` for `amd64` and `arm64`, with the components
    /// `main` and `contrib`, suite `stable`, codename `buster`.
    pub fn default() -> (repository: Repository)
        ensures
            repository@ == default_repository(),
    {
        let repository = Repository {
            name: "stable".to_owned(),
            architectures: vec!["amd64".to_owned(), "arm64".to_owned()],
            components: vec!["main".to_owned(), "contrib".to_owned()],
            suite: "stable".to_owned(),
            codename: "buster".to_owned(),
        };
        assert(repository@.architectures =~= default_repository().architectures);
        assert(repository@.components =~= default_repository().components);
        repository
    }
}

impl Clone for Repository {
    fn clone(&self) -> (copy: Repository)
        ensures
            copy@ == self@,
    {
        Repository {
            name: self.name.clone(),
            architectures: copy_strings(&self.architectures),
            components: copy_strings(&self.components),
            suite: self.suite.clone(),
            codename: self.codename.clone(),
        }
    }
}

impl PartialEq for Repository {
    fn eq(&self, other: &Repository) -> (equal: bool) {
        self.name == other.name && same_strings(&self.architectures, &other.architectures)
            && same_strings(&self.components, &other.components) && self.suite == other.suite
            && self.codename == other.codename
    }
}

impl vstd::std_specs::cmp::PartialEqSpecImpl for Repository {
    open spec fn obeys_eq_spec() -> bool {
        true
    }

    open spec fn eq_spec(&self, other: &Repository) -> bool {
        self@ == other@
    }
}

impl Eq for Repository {

}

} // verus!
