//! The locks that keep two publications of one repository apart.

use vstd::prelude::*;

verus! {

/// The mathematical value of a [`LockRegistry`]: the names it has a lock for,
/// and those among them whose lock is held.
pub struct LockTable {
    pub known: Set<Seq<char>>,
    pub held: Set<Seq<char>>,
}

impl LockTable {
    /// The table before any lock was asked for.
    pub open spec fn empty() -> LockTable {
        LockTable { known: Set::empty(), held: Set::empty() }
    }

    /// Whether the lock of this name can be taken: nobody holds it.
    pub open spec fn grants(self, name: Seq<char>) -> bool {
        !self.held.contains(name)
    }

    /// The table after the lock of this name was asked for: taken if it was
    /// free, and made first if there was none; unchanged where it was held.
    pub open spec fn acquire(self, name: Seq<char>) -> LockTable {
        if self.grants(name) {
            LockTable { known: self.known.insert(name), held: self.held.insert(name) }
        } else {
            self
        }
    }

    /// The table after the lock of this name was given back. The lock itself
    /// stays.
    pub open spec fn release(self, name: Seq<char>) -> LockTable {
        LockTable { known: self.known, held: self.held.remove(name) }
    }
}

/// A lock, once made, stays: asking for a lock or giving one back removes no
/// lock, and a name that was asked for has its lock from then on.
pub proof fn lemma_locks_are_kept(table: LockTable, name: Seq<char>, other: Seq<char>)
    requires
        table.known.contains(other),
    ensures
        table.acquire(name).known.contains(other),
        table.release(name).known.contains(other),
        table.grants(name) ==> table.acquire(name).known.contains(name),
{
}

/// Locks are told apart by name: asking for a lock or giving one back leaves
/// the lock of every other name as it was.
pub proof fn lemma_other_locks_untouched(table: LockTable, name: Seq<char>, other: Seq<char>)
    requires
        other != name,
    ensures
        table.acquire(name).held.contains(other) == table.held.contains(other),
        table.release(name).held.contains(other) == table.held.contains(other),
        table.acquire(name).grants(other) == table.grants(other),
{
}

/// A lock that was taken is granted to nobody until it is given back, and to
/// anybody after that.
pub proof fn lemma_held_lock_excludes(table: LockTable, name: Seq<char>)
    ensures
        !table.acquire(name).grants(name),
        table.acquire(name).acquire(name) == table.acquire(name),
        table.release(name).grants(name),
{
}

struct LockEntry {
    name: String,
    held: bool,
}

/// The names that a list of locks has a lock for.
spec fn known_in(entries: Seq<LockEntry>) -> Set<Seq<char>> {
    Set::new(
        |name: Seq<char>|
            exists|i: int| 0 <= i < entries.len() && (#[trigger] entries[i]).name@ == name,
    )
}

/// The names whose lock is held in a list of locks.
spec fn held_in(entries: Seq<LockEntry>) -> Set<Seq<char>> {
    Set::new(
        |name: Seq<char>|
            exists|i: int|
                0 <= i < entries.len() && (#[trigger] entries[i]).name@ == name && entries[i].held,
    )
}

/// Whether a list of locks has at most one lock for each name.
spec fn distinct(entries: Seq<LockEntry>) -> bool {
    forall|i: int, j: int|
        0 <= i < j < entries.len() ==> (#[trigger] entries[i]).name@
            != (#[trigger] entries[j]).name@
}

/// Taking or giving back the lock at one place changes what is held by that
/// lock's name and nothing else.
proof fn lemma_marked(before: Seq<LockEntry>, after: Seq<LockEntry>, place: int)
    requires
        distinct(before),
        0 <= place < before.len(),
        after.len() == before.len(),
        after[place].name@ == before[place].name@,
        forall|k: int| 0 <= k < before.len() && k != place ==> after[k] == before[k],
    ensures
        distinct(after),
        known_in(after) == known_in(before),
        known_in(after).contains(before[place].name@),
        after[place].held ==> held_in(after) == held_in(before).insert(before[place].name@),
        !after[place].held ==> held_in(after) == held_in(before).remove(before[place].name@),
{
    let name = before[place].name@;
    assert forall|k: int| 0 <= k < after.len() implies (#[trigger] after[k]).name@
        == before[k].name@ by {}
    assert forall|n: Seq<char>| known_in(after).contains(n) <==> known_in(before).contains(n) by {
        if known_in(after).contains(n) {
            let k = choose|k: int| 0 <= k < after.len() && (#[trigger] after[k]).name@ == n;
            assert(before[k].name@ == n);
        }
        if known_in(before).contains(n) {
            let k = choose|k: int| 0 <= k < before.len() && (#[trigger] before[k]).name@ == n;
            assert(after[k].name@ == n);
        }
    }
    assert(known_in(after) =~= known_in(before));
    assert forall|n: Seq<char>| n != name implies (held_in(after).contains(n) <==> held_in(
        before,
    ).contains(n)) by {
        if held_in(after).contains(n) {
            let k = choose|k: int|
                0 <= k < after.len() && (#[trigger] after[k]).name@ == n && after[k].held;
            assert(before[k].name@ == n && before[k].held);
        }
        if held_in(before).contains(n) {
            let k = choose|k: int|
                0 <= k < before.len() && (#[trigger] before[k]).name@ == n && before[k].held;
            assert(after[k].name@ == n && after[k].held);
        }
    }
    if after[place].held {
        assert(held_in(after) =~= held_in(before).insert(name));
    } else {
        assert(!held_in(after).contains(name)) by {
            if held_in(after).contains(name) {
                let k = choose|k: int|
                    0 <= k < after.len() && (#[trigger] after[k]).name@ == name && after[k].held;
                if k < place {
                    assert(before[k].name@ != before[place].name@);
                } else if place < k {
                    assert(before[place].name@ != before[k].name@);
                }
            }
        }
        assert(held_in(after) =~= held_in(before).remove(name));
    }
}

/// A held lock that is added for a name without one makes that name known
/// and held, and changes nothing else.
proof fn lemma_added(before: Seq<LockEntry>, entry: LockEntry)
    requires
        distinct(before),
        !known_in(before).contains(entry.name@),
        entry.held,
    ensures
        distinct(before.push(entry)),
        known_in(before.push(entry)) == known_in(before).insert(entry.name@),
        held_in(before.push(entry)) == held_in(before).insert(entry.name@),
{
    let after = before.push(entry);
    let last = before.len() as int;
    assert(after[last] == entry);
    assert forall|k: int| 0 <= k < before.len() implies #[trigger] after[k] == before[k] by {}
    assert forall|i: int, j: int| 0 <= i < j < after.len() implies (#[trigger] after[i]).name@ != (
    #[trigger] after[j]).name@ by {
        if j == last {
            assert(before[i].name@ != entry.name@);
        }
    }
    assert forall|n: Seq<char>|
        known_in(after).contains(n) <==> known_in(before).insert(entry.name@).contains(n) by {
        if known_in(after).contains(n) {
            let k = choose|k: int| 0 <= k < after.len() && (#[trigger] after[k]).name@ == n;
            if k < last {
                assert(before[k].name@ == n);
            }
        }
        if known_in(before).contains(n) {
            let k = choose|k: int| 0 <= k < before.len() && (#[trigger] before[k]).name@ == n;
            assert(after[k].name@ == n);
        }
    }
    assert(known_in(after) =~= known_in(before).insert(entry.name@));
    assert forall|n: Seq<char>|
        held_in(after).contains(n) <==> held_in(before).insert(entry.name@).contains(n) by {
        if held_in(after).contains(n) {
            let k = choose|k: int|
                0 <= k < after.len() && (#[trigger] after[k]).name@ == n && after[k].held;
            if k < last {
                assert(before[k].name@ == n && before[k].held);
            }
        }
        if held_in(before).contains(n) {
            let k = choose|k: int|
                0 <= k < before.len() && (#[trigger] before[k]).name@ == n && before[k].held;
            assert(after[k].name@ == n && after[k].held);
        }
    }
    assert(held_in(after) =~= held_in(before).insert(entry.name@));
}

/// One lock per repository name. A lock is made when its name is first asked
/// for and is never removed.
pub struct LockRegistry {
    entries: Vec<LockEntry>,
}

impl View for LockRegistry {
    type V = LockTable;

    closed spec fn view(&self) -> LockTable {
        LockTable { known: known_in(self.entries@), held: held_in(self.entries@) }
    }
}

impl LockRegistry {
    #[verifier::type_invariant]
    spec fn names_distinct(&self) -> bool {
        distinct(self.entries@)
    }

    /// A registry without locks.
    pub fn new() -> (registry: LockRegistry)
        ensures
            registry@ == LockTable::empty(),
    {
        let registry = LockRegistry { entries: Vec::new() };
        assert(registry@.known =~= Set::empty());
        assert(registry@.held =~= Set::empty());
        registry
    }

    /// The place of the lock of this name, if there is one.
    fn position(&self, name: &String) -> (place: Option<usize>)
        ensures
            place is Some <==> self@.known.contains(name@),
            place is Some ==> place->Some_0 < self.entries@.len()
                && self.entries@[place->Some_0 as int].name@ == name@,
    {
        let mut i: usize = 0;
        while i < self.entries.len()
            invariant
                i <= self.entries.len(),
                forall|j: int| 0 <= j < i ==> (#[trigger] self.entries@[j]).name@ != name@,
            decreases self.entries.len() - i,
        {
            if self.entries[i].name == *name {
                return Some(i);
            }
            i += 1;
        }
        None
    }

    /// Whether the lock of this name is held.
    pub fn is_held(&self, name: &String) -> (held: bool)
        ensures
            held == self@.held.contains(name@),
            held == !self@.grants(name@),
    {
        proof {
            use_type_invariant(self);
        }
        match self.position(name) {
            Some(i) => {
                proof {
                    if self@.held.contains(name@) {
                        let k = choose|k: int|
                            0 <= k < self.entries@.len() && (#[trigger] self.entries@[k]).name@
                                == name@ && self.entries@[k].held;
                        assert(k == i);
                    }
                }
                self.entries[i].held
            },
            None => false,
        }
    }

    /// Whether a lock of this name was ever asked for.
    pub fn is_known(&self, name: &String) -> (known: bool)
        ensures
            known == self@.known.contains(name@),
    {
        self.position(name).is_some()
    }

    /// Takes the lock of this name if nobody holds it, and says whether it did.
    /// A held lock is left as it is.
    pub fn try_acquire(&mut self, name: &String) -> (acquired: bool)
        ensures
            acquired == old(self)@.grants(name@),
            final(self)@ == old(self)@.acquire(name@),
    {
        if self.is_held(name) {
            return false;
        }
        proof {
            use_type_invariant(&*self);
        }
        let place = self.position(name);
        let ghost before = self.entries@;
        let mut entries: Vec<LockEntry> = Vec::new();
        core::mem::swap(&mut self.entries, &mut entries);
        match place {
            Some(i) => {
                entries[i].held = true;
                proof {
                    lemma_marked(before, entries@, i as int);
                    assert(known_in(before).insert(name@) =~= known_in(before));
                }
            },
            None => {
                let entry = LockEntry { name: name.clone(), held: true };
                proof {
                    lemma_added(before, entry);
                }
                entries.push(entry);
            },
        }
        self.entries = entries;
        true
    }

    /// Gives the lock of this name back. The lock stays in the registry; a lock
    /// that nobody held, or that was never asked for, changes nothing.
    pub fn release(&mut self, name: &String)
        ensures
            final(self)@ == old(self)@.release(name@),
    {
        proof {
            use_type_invariant(&*self);
        }
        match self.position(name) {
            Some(i) => {
                let ghost before = self.entries@;
                let mut entries: Vec<LockEntry> = Vec::new();
                core::mem::swap(&mut self.entries, &mut entries);
                entries[i].held = false;
                proof {
                    lemma_marked(before, entries@, i as int);
                }
                self.entries = entries;
            },
            None => {
                assert(self@.held =~= self@.held.remove(name@));
            },
        }
    }
}

} // verus!
