use vstd::prelude::*;

use crate::registry::{
    has_id, insert_entry, lemma_insert_keeps_unique, remove_entry, unique_ids, Entry, Registry, RegistryUnavailable,
};

verus! {

/// A community member as the notification feed reports it.
pub struct MemberInfo {
    pub id: u64,
    pub name: String,
    pub verified: bool,
}

/// A lifecycle notification.
pub enum Event {
    /// The complete member list, delivered once at start.
    Ready(Vec<MemberInfo>),
    /// A member joined the community.
    MemberJoined(MemberInfo),
    /// A member left the community.
    MemberLeft(u64),
}

pub open spec fn member_view(m: MemberInfo) -> (u64, Seq<char>, bool) {
    (m.id, m.name@, m.verified)
}

/// The entries that a full resync builds from a member list: every unverified
/// member is inserted, in list order.
pub open spec fn resync_entries(members: Seq<(u64, Seq<char>, bool)>) -> Seq<Entry>
    decreases members.len(),
{
    if members.len() == 0 {
        Seq::empty()
    } else {
        let prev = resync_entries(members.drop_last());
        let m = members.last();
        if m.2 {
            prev
        } else {
            insert_entry(prev, m.0, m.1)
        }
    }
}

/// Whether some report of this member in the list says it is unverified.
pub open spec fn listed_unverified(members: Seq<(u64, Seq<char>, bool)>, id: u64) -> bool {
    exists|i: int| 0 <= i < members.len() && (#[trigger] members[i]).0 == id && !members[i].2
}

/// A full resync keeps its entries' ids unique and holds exactly the members
/// that the list reports as unverified.
pub proof fn lemma_resync_entries(members: Seq<(u64, Seq<char>, bool)>)
    ensures
        unique_ids(resync_entries(members)),
        forall|id: u64| has_id(resync_entries(members), id) <==> listed_unverified(members, id),
    decreases members.len(),
{
    if members.len() > 0 {
        let prev = members.drop_last();
        lemma_resync_entries(prev);
        let m = members.last();
        if !m.2 {
            lemma_insert_keeps_unique(resync_entries(prev), m.0, m.1);
        }
        assert forall|id: u64|
            has_id(resync_entries(members), id) <==> listed_unverified(members, id) by {
            if listed_unverified(members, id) {
                let i = choose|i: int|
                    0 <= i < members.len() && (#[trigger] members[i]).0 == id && !members[i].2;
                if i < prev.len() {
                    assert(prev[i] == members[i]);
                }
            }
            if listed_unverified(prev, id) {
                let i = choose|i: int|
                    0 <= i < prev.len() && (#[trigger] prev[i]).0 == id && !prev[i].2;
                assert(prev[i] == members[i]);
            }
        }
    }
}

/// Builds the registry from ground truth: every member whose verified flag is
/// false becomes pending.
pub fn full_resync(members: &Vec<MemberInfo>) -> (r: Registry)
    ensures
        r.wf(),
        r.is_available(),
        r.entries() == resync_entries(members@.map_values(|m: MemberInfo| member_view(m))),
        forall|id: u64|
            r.contains_spec(id) <==> listed_unverified(
                members@.map_values(|m: MemberInfo| member_view(m)),
                id,
            ),
{
    let ghost view = members@.map_values(|m: MemberInfo| member_view(m));
    let mut r = Registry::new();
    let mut i: usize = 0;
    while i < members.len()
        invariant
            0 <= i <= members.len(),
            view == members@.map_values(|m: MemberInfo| member_view(m)),
            r.wf(),
            r.is_available(),
            r.entries() == resync_entries(view.subrange(0, i as int)),
        decreases members.len() - i,
    {
        let m = &members[i];
        assert(view.subrange(0, i + 1).drop_last() =~= view.subrange(0, i as int));
        if !m.verified {
            let _ = r.insert(m.id, m.name.clone());
        }
        i = i + 1;
    }
    assert(view.subrange(0, i as int) =~= view);
    proof {
        lemma_resync_entries(view);
    }
    r
}

/// A join notification: the member becomes pending unless already verified.
pub fn member_joined(registry: &mut Registry, member: &MemberInfo) -> (r: Result<
    (),
    RegistryUnavailable,
>)
    requires
        old(registry).wf(),
    ensures
        final(registry).wf(),
        final(registry).is_available() == old(registry).is_available(),
        member.verified ==> r is Ok && final(registry).entries() == old(registry).entries(),
        !member.verified && old(registry).is_available() ==> r is Ok
            && final(registry).entries() == insert_entry(
            old(registry).entries(),
            member.id,
            member.name@,
        ),
        !member.verified && !old(registry).is_available() ==> r == Err::<(), RegistryUnavailable>(
            RegistryUnavailable,
        ) && final(registry).entries() == old(registry).entries(),
{
    if member.verified {
        return Ok(());
    }
    registry.insert(member.id, member.name.clone())
}

/// A leave notification: the member stops being pending. An id that was never
/// pending leaves the registry as it was and is no error.
pub fn member_left(registry: &mut Registry, id: u64) -> (r: Result<(), RegistryUnavailable>)
    requires
        old(registry).wf(),
    ensures
        final(registry).wf(),
        final(registry).is_available() == old(registry).is_available(),
        old(registry).is_available() ==> r is Ok && final(registry).entries() == remove_entry(
            old(registry).entries(),
            id,
        ),
        old(registry).is_available() && !old(registry).contains_spec(id) ==> final(registry).entries()
            == old(registry).entries(),
        !old(registry).is_available() ==> r == Err::<(), RegistryUnavailable>(RegistryUnavailable)
            && final(registry).entries() == old(registry).entries(),
{
    match registry.remove(id) {
        Ok(_) => Ok(()),
        Err(e) => Err(e),
    }
}

/// Applies one lifecycle notification to the registry.
pub fn listen(registry: &mut Registry, event: Event) -> (r: Result<(), RegistryUnavailable>)
    requires
        old(registry).wf(),
    ensures
        final(registry).wf(),
        final(registry).is_available() == old(registry).is_available(),
        match event {
            Event::Ready(members) => if old(registry).is_available() {
                r is Ok && final(registry).entries() == resync_entries(
                    members@.map_values(|m: MemberInfo| member_view(m)),
                )
            } else {
                r is Err && final(registry).entries() == old(registry).entries()
            },
            Event::MemberJoined(m) => if m.verified {
                r is Ok && final(registry).entries() == old(registry).entries()
            } else if old(registry).is_available() {
                r is Ok && final(registry).entries() == insert_entry(
                    old(registry).entries(),
                    m.id,
                    m.name@,
                )
            } else {
                r is Err && final(registry).entries() == old(registry).entries()
            },
            Event::MemberLeft(id) => if old(registry).is_available() {
                r is Ok && final(registry).entries() == remove_entry(old(registry).entries(), id)
            } else {
                r is Err && final(registry).entries() == old(registry).entries()
            },
        },
{
    match event {
        Event::Ready(members) => {
            if !registry.available() {
                return Err(RegistryUnavailable);
            }
            *registry = full_resync(&members);
            Ok(())
        },
        Event::MemberJoined(m) => member_joined(registry, &m),
        Event::MemberLeft(id) => member_left(registry, id),
    }
}

} // verus!
