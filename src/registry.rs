use vstd::prelude::*;

verus! {

/// A member who is believed to still lack verified status.
pub struct PendingMember {
    pub id: u64,
    pub name: String,
}

/// The registry's guard has failed: a critical section ended abnormally and the
/// registry refuses all further work.
#[derive(PartialEq, Eq, Structural, Debug, Clone, Copy)]
pub struct RegistryUnavailable;

/// One entry of the registry, as seen by contracts.
pub type Entry = (u64, Seq<char>);

pub open spec fn has_id(entries: Seq<Entry>, id: u64) -> bool {
    exists|i: int| 0 <= i < entries.len() && (#[trigger] entries[i]).0 == id
}

/// Entries with pairwise distinct ids.
pub open spec fn unique_ids(entries: Seq<Entry>) -> bool {
    forall|i: int, j: int|
        0 <= i < entries.len() && 0 <= j < entries.len() && i != j ==> (#[trigger] entries[i]).0
            != (#[trigger] entries[j]).0
}

/// Position of `id` in `entries`, or `entries.len()` when absent.
pub open spec fn position_of(entries: Seq<Entry>, id: u64) -> int
    decreases entries.len(),
{
    if entries.len() == 0 {
        0
    } else if entries[0].0 == id {
        0
    } else {
        1 + position_of(entries.drop_first(), id)
    }
}

/// Inserting a member: an existing entry with the same id takes the new name in
/// place, otherwise the member is appended.
pub open spec fn insert_entry(entries: Seq<Entry>, id: u64, name: Seq<char>) -> Seq<Entry> {
    if has_id(entries, id) {
        entries.update(position_of(entries, id), (id, name))
    } else {
        entries.push((id, name))
    }
}

/// Removing a member: the entry with that id leaves, the others keep their order.
pub open spec fn remove_entry(entries: Seq<Entry>, id: u64) -> Seq<Entry> {
    if has_id(entries, id) {
        entries.remove(position_of(entries, id))
    } else {
        entries
    }
}

pub proof fn lemma_position_of(entries: Seq<Entry>, id: u64)
    ensures
        0 <= position_of(entries, id) <= entries.len(),
        has_id(entries, id) <==> position_of(entries, id) < entries.len(),
        position_of(entries, id) < entries.len() ==> entries[position_of(entries, id)].0 == id,
        forall|i: int| 0 <= i < position_of(entries, id) ==> (#[trigger] entries[i]).0 != id,
    decreases entries.len(),
{
    if entries.len() > 0 && entries[0].0 != id {
        let rest = entries.drop_first();
        lemma_position_of(rest, id);
        assert forall|i: int| 0 <= i < position_of(entries, id) implies (#[trigger] entries[i]).0
            != id by {
            if i > 0 {
                assert(entries[i] == rest[i - 1]);
            }
        }
        if has_id(entries, id) {
            let k = choose|k: int| 0 <= k < entries.len() && (#[trigger] entries[k]).0 == id;
            assert(rest[k - 1] == entries[k]);
        }
        if has_id(rest, id) {
            let k = choose|k: int| 0 <= k < rest.len() && (#[trigger] rest[k]).0 == id;
            assert(entries[k + 1] == rest[k]);
        }
    }
}

pub proof fn lemma_insert_keeps_unique(entries: Seq<Entry>, id: u64, name: Seq<char>)
    requires
        unique_ids(entries),
    ensures
        unique_ids(insert_entry(entries, id, name)),
        forall|k: u64| has_id(insert_entry(entries, id, name), k) <==> (has_id(entries, k) || k == id),
{
    lemma_position_of(entries, id);
    let r = insert_entry(entries, id, name);
    assert forall|k: u64| has_id(r, k) <==> (has_id(entries, k) || k == id) by {
        if has_id(entries, id) {
            let p = position_of(entries, id);
            if has_id(entries, k) {
                let i = choose|i: int| 0 <= i < entries.len() && (#[trigger] entries[i]).0 == k;
                if i == p {
                    assert(r[p].0 == k);
                } else {
                    assert(r[i] == entries[i]);
                }
            }
            if has_id(r, k) {
                let i = choose|i: int| 0 <= i < r.len() && (#[trigger] r[i]).0 == k;
                if i != p {
                    assert(r[i] == entries[i]);
                }
            }
            assert(r[p].0 == id);
        } else {
            if has_id(entries, k) {
                let i = choose|i: int| 0 <= i < entries.len() && (#[trigger] entries[i]).0 == k;
                assert(r[i] == entries[i]);
            }
            if has_id(r, k) {
                let i = choose|i: int| 0 <= i < r.len() && (#[trigger] r[i]).0 == k;
                if i < entries.len() {
                    assert(r[i] == entries[i]);
                }
            }
            assert(r[entries.len() as int].0 == id);
        }
    }
}

pub proof fn lemma_remove_keeps_unique(entries: Seq<Entry>, id: u64)
    requires
        unique_ids(entries),
    ensures
        unique_ids(remove_entry(entries, id)),
        forall|k: u64| has_id(remove_entry(entries, id), k) <==> (has_id(entries, k) && k != id),
{
    lemma_position_of(entries, id);
    let r = remove_entry(entries, id);
    if has_id(entries, id) {
        let p = position_of(entries, id);
        assert forall|i: int| 0 <= i < r.len() implies #[trigger] r[i] == entries[if i < p {
            i
        } else {
            i + 1
        }] by {}
        assert forall|k: u64| has_id(r, k) <==> (has_id(entries, k) && k != id) by {
            if has_id(entries, k) && k != id {
                let i = choose|i: int| 0 <= i < entries.len() && (#[trigger] entries[i]).0 == k;
                if i < p {
                    assert(r[i] == entries[i]);
                } else {
                    assert(r[i - 1] == entries[i]);
                }
            }
            if has_id(r, k) {
                let i = choose|i: int| 0 <= i < r.len() && (#[trigger] r[i]).0 == k;
                let j = if i < p {
                    i
                } else {
                    i + 1
                };
                assert(r[i] == entries[j]);
            }
        }
        assert forall|i: int, j: int|
            0 <= i < r.len() && 0 <= j < r.len() && i != j implies (#[trigger] r[i]).0
            != (#[trigger] r[j]).0 by {
            let a = if i < p {
                i
            } else {
                i + 1
            };
            let b = if j < p {
                j
            } else {
                j + 1
            };
            assert(r[i] == entries[a]);
            assert(r[j] == entries[b]);
        }
    }
}

/// The set of pending members: entries in insertion order, ids unique, behind a
/// guard that becomes permanently unavailable once a critical section has failed.
pub struct Registry {
    members: Vec<PendingMember>,
    available: bool,
}

impl Registry {
    /// The entries, in order, as (id, display name).
    pub closed spec fn entries(&self) -> Seq<Entry> {
        self.members@.map_values(|m: PendingMember| (m.id, m.name@))
    }

    pub closed spec fn is_available(&self) -> bool {
        self.available
    }

    pub open spec fn wf(&self) -> bool {
        unique_ids(self.entries())
    }

    pub open spec fn contains_spec(&self, id: u64) -> bool {
        has_id(self.entries(), id)
    }

    /// An empty, available registry.
    pub fn new() -> (r: Self)
        ensures
            r.wf(),
            r.is_available(),
            r.entries() == Seq::<Entry>::empty(),
    {
        let r = Registry { members: Vec::new(), available: true };
        assert(r.entries() =~= Seq::<Entry>::empty());
        r
    }

    /// Records that a critical section failed while holding the guard: from now
    /// on every operation fails.
    pub fn mark_unavailable(&mut self)
        ensures
            !final(self).is_available(),
            final(self).entries() == old(self).entries(),
    {
        self.available = false;
    }

    pub fn available(&self) -> (r: bool)
        ensures
            r == self.is_available(),
    {
        self.available
    }

    fn position(&self, id: u64) -> (r: usize)
        ensures
            r == position_of(self.entries(), id),
    {
        proof {
            lemma_position_of(self.entries(), id);
        }
        let mut i: usize = 0;
        while i < self.members.len()
            invariant
                0 <= i <= self.members.len(),
                forall|j: int| 0 <= j < i ==> (#[trigger] self.entries()[j]).0 != id,
                position_of(self.entries(), id) >= i,
                0 <= position_of(self.entries(), id) <= self.entries().len(),
                position_of(self.entries(), id) < self.entries().len() ==> self.entries()[position_of(self.entries(), id)].0 == id,
                forall|j: int| 0 <= j < position_of(self.entries(), id) ==> (#[trigger] self.entries()[j]).0 != id,
            decreases self.members.len() - i,
        {
            if self.members[i].id == id {
                assert(self.entries()[i as int].0 == id);
                return i;
            }
            assert(self.entries()[i as int].0 != id);
            i = i + 1;
        }
        i
    }

    /// Whether a member with this id is pending.
    pub fn contains(&self, id: u64) -> (r: Result<bool, RegistryUnavailable>)
        ensures
            r == if self.is_available() {
                Ok(self.contains_spec(id))
            } else {
                Err(RegistryUnavailable)
            },
    {
        if !self.available {
            return Err(RegistryUnavailable);
        }
        proof {
            lemma_position_of(self.entries(), id);
        }
        Ok(self.position(id) < self.members.len())
    }

    /// Adds a pending member, or renames the entry that already has this id.
    pub fn insert(&mut self, id: u64, name: String) -> (r: Result<(), RegistryUnavailable>)
        requires
            old(self).wf(),
        ensures
            final(self).wf(),
            final(self).is_available() == old(self).is_available(),
            old(self).is_available() ==> r == Ok::<(), RegistryUnavailable>(())
                && final(self).entries() == insert_entry(old(self).entries(), id, name@),
            !old(self).is_available() ==> r == Err::<(), RegistryUnavailable>(RegistryUnavailable)
                && final(self).entries() == old(self).entries(),
    {
        if !self.available {
            return Err(RegistryUnavailable);
        }
        proof {
            lemma_position_of(self.entries(), id);
            lemma_insert_keeps_unique(self.entries(), id, name@);
        }
        let ghost before = self.entries();
        let p = self.position(id);
        if p < self.members.len() {
            self.members.set(p, PendingMember { id, name });
        } else {
            self.members.push(PendingMember { id, name });
        }
        assert(self.entries() =~= insert_entry(before, id, name@));
        Ok(())
    }

    /// Removes the member with this id; `Ok(false)` when none was pending.
    pub fn remove(&mut self, id: u64) -> (r: Result<bool, RegistryUnavailable>)
        requires
            old(self).wf(),
        ensures
            final(self).wf(),
            final(self).is_available() == old(self).is_available(),
            old(self).is_available() ==> r == Ok::<bool, RegistryUnavailable>(
                old(self).contains_spec(id),
            ) && final(self).entries() == remove_entry(old(self).entries(), id),
            !old(self).is_available() ==> r == Err::<bool, RegistryUnavailable>(RegistryUnavailable)
                && final(self).entries() == old(self).entries(),
    {
        if !self.available {
            return Err(RegistryUnavailable);
        }
        proof {
            lemma_position_of(self.entries(), id);
            lemma_remove_keeps_unique(self.entries(), id);
        }
        let ghost before = self.entries();
        let p = self.position(id);
        if p < self.members.len() {
            self.members.remove(p);
            assert(self.entries() =~= remove_entry(before, id));
            Ok(true)
        } else {
            Ok(false)
        }
    }

    /// A copy of the entries, in order.
    pub fn snapshot(&self) -> (r: Result<Vec<PendingMember>, RegistryUnavailable>)
        ensures
            self.is_available() ==> r is Ok && r->Ok_0@.map_values(
                |m: PendingMember| (m.id, m.name@),
            ) == self.entries(),
            !self.is_available() ==> r == Err::<Vec<PendingMember>, RegistryUnavailable>(
                RegistryUnavailable,
            ),
    {
        if !self.available {
            return Err(RegistryUnavailable);
        }
        let mut out: Vec<PendingMember> = Vec::new();
        let mut i: usize = 0;
        while i < self.members.len()
            invariant
                0 <= i <= self.members.len(),
                out@.len() == i,
                forall|j: int|
                    0 <= j < i ==> (#[trigger] out@[j]).id == self.members@[j].id && out@[j].name@
                        == self.members@[j].name@,
            decreases self.members.len() - i,
        {
            let m = &self.members[i];
            out.push(PendingMember { id: m.id, name: m.name.clone() });
            i = i + 1;
        }
        assert(out@.map_values(|m: PendingMember| (m.id, m.name@)) =~= self.entries());
        Ok(out)
    }
}

} // verus!
