//! The file registry: the ordered, deduplicated collection of tracked
//! files, together with the monotonic id counter. Id allocation happens
//! only inside `add`, so an id is consumed exactly when a new entry is
//! created, and ids are never reused.

use vstd::prelude::*;

use crate::entry::{EntryMsg, EntryMsgView, EntryView, FileEntry, FileStatus, StatusView};
use crate::entry::entry_step;

verus! {

/// Mathematical model of the registry: the entry views in insertion
/// order, and the next id the counter will hand out.
#[verifier::ext_equal]
pub struct RegistryView {
    pub entries: Seq<EntryView>,
    pub next_id: u64,
}

/// Some entry in `s` is tracked under path `p`.
pub open spec fn has_path(s: Seq<EntryView>, p: Seq<char>) -> bool {
    exists|i: int| 0 <= i < s.len() && s[i].path == p
}

/// Some entry in `s` carries id `id`.
pub open spec fn has_id(s: Seq<EntryView>, id: u64) -> bool {
    exists|i: int| 0 <= i < s.len() && s[i].id == id
}

/// The index of the entry tracked under path `p`; meaningful only when
/// `has_path(s, p)` holds and paths are distinct.
pub open spec fn idx_of_path(s: Seq<EntryView>, p: Seq<char>) -> int {
    choose|i: int| 0 <= i < s.len() && s[i].path == p
}

/// The index of the entry carrying id `id`; meaningful only when
/// `has_id(s, id)` holds and ids are distinct.
pub open spec fn idx_of_id(s: Seq<EntryView>, id: u64) -> int {
    choose|i: int| 0 <= i < s.len() && s[i].id == id
}

/// Ids are strictly increasing in insertion order.
pub open spec fn ids_increasing(s: Seq<EntryView>) -> bool {
    forall|i: int, j: int| 0 <= i < j < s.len() ==> s[i].id < s[j].id
}

/// No two entries are tracked under the same path.
pub open spec fn paths_distinct(s: Seq<EntryView>) -> bool {
    forall|i: int, j: int| 0 <= i < j < s.len() ==> s[i].path != s[j].path
}

/// Every tracked id lies below the counter, so the counter's next value
/// is fresh.
pub open spec fn ids_below(s: Seq<EntryView>, bound: u64) -> bool {
    forall|i: int| 0 <= i < s.len() ==> s[i].id < bound
}

impl RegistryView {
    /// Registry well-formedness: exactly one entry per path, ids strictly
    /// increasing and all below the counter.
    pub open spec fn wf(self) -> bool {
        &&& ids_increasing(self.entries)
        &&& paths_distinct(self.entries)
        &&& ids_below(self.entries, self.next_id)
    }
}

/// Two positions holding the same path coincide when paths are distinct.
pub proof fn lemma_path_index_unique(s: Seq<EntryView>, i: int, j: int)
    requires
        paths_distinct(s),
        0 <= i < s.len(),
        0 <= j < s.len(),
        s[i].path == s[j].path,
    ensures
        i == j,
{
}

/// Two positions holding the same id coincide when ids are strictly
/// increasing.
pub proof fn lemma_id_index_unique(s: Seq<EntryView>, i: int, j: int)
    requires
        ids_increasing(s),
        0 <= i < s.len(),
        0 <= j < s.len(),
        s[i].id == s[j].id,
    ensures
        i == j,
{
}

/// What `Registry::add` does, at the level of the model: a tracked path
/// is answered with its existing id and no change; a new path is appended
/// as `Pending` under the next id, and the counter advances.
pub open spec fn add_spec(v: RegistryView, p: Seq<char>) -> (RegistryView, u64, bool) {
    if has_path(v.entries, p) {
        (v, v.entries[idx_of_path(v.entries, p)].id, false)
    } else {
        (
            RegistryView {
                entries: v.entries.push(
                    EntryView { id: v.next_id, path: p, status: StatusView::Pending },
                ),
                next_id: (v.next_id + 1) as u64,
            },
            v.next_id,
            true,
        )
    }
}

/// What `Registry::deliver` does, at the level of the model: the message
/// reaches exactly the entry carrying `id` and steps its state machine;
/// an unknown id, or a rejected transition, changes nothing.
pub open spec fn deliver_spec(v: RegistryView, id: u64, m: EntryMsgView) -> RegistryView {
    if has_id(v.entries, id) {
        let i = idx_of_id(v.entries, id);
        match entry_step(v.entries[i].status, m) {
            Some(s2) => RegistryView {
                entries: v.entries.update(i, (EntryView { status: s2, ..v.entries[i] })),
                ..v
            },
            None => v,
        }
    } else {
        v
    }
}

/// The deduplicated, ordered collection of tracked files plus the
/// monotonic id counter. Created empty; entries are appended, never
/// removed. Only the reducer mutates it.
#[derive(Debug)]
pub struct Registry {
    entries: Vec<FileEntry>,
    next_id: u64,
}

impl View for Registry {
    type V = RegistryView;

    closed spec fn view(&self) -> RegistryView {
        RegistryView {
            entries: self.entries@.map_values(|e: FileEntry| e@),
            next_id: self.next_id,
        }
    }
}

impl Registry {
    /// A fresh, empty registry whose counter starts at zero.
    pub fn new() -> (r: Registry)
        ensures
            r@.entries.len() == 0,
            r@.next_id == 0,
            r@.wf(),
    {
        Registry { entries: Vec::new(), next_id: 0 }
    }

    /// How many files are tracked.
    pub fn len(&self) -> (n: usize)
        ensures
            n == self@.entries.len(),
    {
        self.entries.len()
    }

    /// The id the counter will hand out next.
    pub fn next_id(&self) -> (n: u64)
        ensures
            n == self@.next_id,
    {
        self.next_id
    }

    /// Read access to the tracked entry at position `i`, for rendering.
    pub fn get(&self, i: usize) -> (e: &FileEntry)
        requires
            i < self@.entries.len(),
        ensures
            e@ == self@.entries[i as int],
    {
        &self.entries[i]
    }

    /// Pure query: is `path` already tracked? No side effect.
    pub fn contains(&self, path: &String) -> (r: bool)
        ensures
            r == has_path(self@.entries, path@),
    {
        let n = self.entries.len();
        let mut i: usize = 0;
        while i < n
            invariant
                n == self@.entries.len(),
                i <= n,
                forall|j: int| 0 <= j < i ==> self@.entries[j].path != path@,
            decreases n - i,
        {
            if self.entries[i].path == *path {
                proof {
                    assert(self@.entries[i as int] == self.entries@[i as int]@);
                    assert(has_path(self@.entries, path@));
                }
                return true;
            }
            i += 1;
        }
        false
    }

    /// Adds `path` if it is not tracked yet. Returns `(id, was_new)`:
    /// for a tracked path the existing id and `false`, with no change and
    /// no id consumed; for a new path a fresh id, under which the entry is
    /// appended as `Pending`, and `true`. Lookup, allocation and insertion
    /// are one atomic step, so one path can never receive two ids.
    pub fn add(&mut self, path: String) -> (r: (u64, bool))
        requires
            old(self)@.wf(),
            old(self)@.next_id < u64::MAX,
        ensures
            final(self)@.wf(),
            final(self)@ == add_spec(old(self)@, path@).0,
            r.0 == add_spec(old(self)@, path@).1,
            r.1 == add_spec(old(self)@, path@).2,
            r.1 == !has_path(old(self)@.entries, path@),
            r.1 ==> final(self)@.entries == old(self)@.entries.push(
                (EntryView { id: old(self)@.next_id, path: path@, status: StatusView::Pending }),
            ) && r.0 == old(self)@.next_id && final(self)@.next_id == old(self)@.next_id + 1,
            !r.1 ==> *final(self) == *old(self) && has_id(old(self)@.entries, r.0),
    {
        let n = self.entries.len();
        let mut i: usize = 0;
        while i < n
            invariant
                n == self@.entries.len(),
                i <= n,
                forall|j: int| 0 <= j < i ==> self@.entries[j].path != path@,
                *self == *old(self),
                old(self)@.wf(),
            decreases n - i,
        {
            if self.entries[i].path == path {
                proof {
                    assert(self@.entries[i as int] == self.entries@[i as int]@);
                    assert(self@.entries[i as int].path == path@);
                    assert(has_path(self@.entries, path@));
                    lemma_path_index_unique(
                        self@.entries,
                        i as int,
                        idx_of_path(self@.entries, path@),
                    );
                }
                return (self.entries[i].id, false);
            }
            i += 1;
        }
        let ghost p = path@;
        let id = self.next_id;
        self.next_id = self.next_id + 1;
        self.entries.push(FileEntry { id, path, status: FileStatus::Pending });
        proof {
            assert(!has_path(old(self)@.entries, p));
            let e = EntryView { id: old(self)@.next_id, path: p, status: StatusView::Pending };
            assert(self@.entries =~= old(self)@.entries.push(e));
            assert(self@ =~= add_spec(old(self)@, p).0);
            assert(ids_increasing(self@.entries)) by {
                assert(forall|i: int| 0 <= i < old(self)@.entries.len()
                    ==> self@.entries[i] == old(self)@.entries[i]);
            }
            assert(paths_distinct(self@.entries));
            assert(ids_below(self@.entries, self@.next_id));
        }
        (id, true)
    }

    /// Routes one entry-level message to the entry carrying `id` and steps
    /// that entry's state machine. Only that entry can change: every other
    /// entry is untouched, no entry's id or path changes, and an id absent
    /// from the registry makes the whole call a silent no-op. Returns
    /// whether a transition was actually taken.
    pub fn deliver(&mut self, id: u64, m: EntryMsg) -> (delivered: bool)
        requires
            old(self)@.wf(),
        ensures
            final(self)@.wf(),
            final(self)@ == deliver_spec(old(self)@, id, m@),
            final(self)@.next_id == old(self)@.next_id,
            final(self)@.entries.len() == old(self)@.entries.len(),
            forall|j: int| 0 <= j < old(self)@.entries.len() ==> {
                &&& (#[trigger] final(self)@.entries[j]).id == old(self)@.entries[j].id
                &&& final(self)@.entries[j].path == old(self)@.entries[j].path
            },
            forall|j: int|
                0 <= j < old(self)@.entries.len() && old(self)@.entries[j].id != id
                    ==> #[trigger] final(self)@.entries[j] == old(self)@.entries[j],
            !has_id(old(self)@.entries, id) ==> *final(self) == *old(self),
            delivered == (has_id(old(self)@.entries, id) && entry_step(
                old(self)@.entries[idx_of_id(old(self)@.entries, id)].status,
                m@,
            ) is Some),
    {
        let n = self.entries.len();
        let mut i: usize = 0;
        while i < n
            invariant
                n == self@.entries.len(),
                i <= n,
                forall|j: int| 0 <= j < i ==> self@.entries[j].id != id,
                *self == *old(self),
                old(self)@.wf(),
            decreases n - i,
        {
            if self.entries[i].id == id {
                proof {
                    assert(self@.entries[i as int] == self.entries@[i as int]@);
                    assert(has_id(self@.entries, id));
                    lemma_id_index_unique(self@.entries, i as int, idx_of_id(self@.entries, id));
                }
                let ghost pre = self@;
                let accepted = self.entries[i].apply(m);
                proof {
                    assert(self.entries@ == old(self).entries@.update(
                        i as int,
                        self.entries@[i as int],
                    ));
                    assert(self@.entries =~= pre.entries.update(
                        i as int,
                        self.entries@[i as int]@,
                    ));
                    if entry_step(pre.entries[i as int].status, m@) is Some {
                        assert(self@ =~= deliver_spec(pre, id, m@));
                    } else {
                        assert(self@.entries =~= pre.entries);
                        assert(self@ =~= pre);
                    }
                    assert(ids_increasing(self@.entries));
                    assert(paths_distinct(self@.entries));
                    assert(ids_below(self@.entries, self@.next_id));
                }
                return accepted;
            }
            i += 1;
        }
        proof {
            assert(!has_id(self@.entries, id));
        }
        false
    }
}

} // verus!
