use vstd::prelude::*;
use vstd::string::StringExecFns;

use crate::registry::{remove_entry, Entry, PendingMember, Registry, RegistryUnavailable};

verus! {

/// Role that marks a member as verified.
pub const VERIFIED_ROLE_ID: u64 = 1347975552262340630;

/// Roles whose holders may grant verification.
pub const ADMIN_ROLE_ID: u64 = 1347211915574902854;

pub const MODERATOR_ROLE_ID: u64 = 1347212116532265092;

/// How a request to verify a member ended.
#[derive(PartialEq, Eq, Structural, Debug, Clone, Copy)]
pub enum VerifyOutcome {
    /// The member was not pending: nothing was done.
    AlreadyVerified,
    /// Granting the verified role failed: the member stays pending.
    GrantFailed,
    /// The role was granted and the member left the registry.
    Verified,
    /// The role was granted but the registry could not be updated, so it still
    /// lists the member.
    VerifiedButRegistryStale,
}

/// What a verify request must do after its first look at the registry.
#[derive(PartialEq, Eq, Structural, Debug, Clone, Copy)]
pub enum VerifyStep {
    /// The request is over with this outcome; no role is granted.
    Done(VerifyOutcome),
    /// The verified role must be granted to the member, and the result handed
    /// to `finish_verify`.
    Grant,
}

pub open spec fn verify_spec(registry: Registry, id: u64) -> VerifyStep {
    if registry.is_available() && registry.contains_spec(id) {
        VerifyStep::Grant
    } else {
        VerifyStep::Done(VerifyOutcome::AlreadyVerified)
    }
}

pub open spec fn finish_outcome(registry: Registry, granted: bool) -> VerifyOutcome {
    if !granted {
        VerifyOutcome::GrantFailed
    } else if registry.is_available() {
        VerifyOutcome::Verified
    } else {
        VerifyOutcome::VerifiedButRegistryStale
    }
}

/// First step of verifying a member: only a member that the registry holds as
/// pending gets the role granted. A registry that cannot be read grants nothing.
pub fn verify(registry: &Registry, id: u64) -> (r: VerifyStep)
    ensures
        r == verify_spec(*registry, id),
{
    match registry.contains(id) {
        Ok(true) => VerifyStep::Grant,
        _ => VerifyStep::Done(VerifyOutcome::AlreadyVerified),
    }
}

/// Second step, once the role grant has been attempted: a failed grant leaves the
/// registry alone; a successful one removes the member, and a registry that
/// cannot be updated is reported as such.
pub fn finish_verify(registry: &mut Registry, id: u64, granted: bool) -> (r: VerifyOutcome)
    requires
        old(registry).wf(),
    ensures
        final(registry).wf(),
        final(registry).is_available() == old(registry).is_available(),
        r == finish_outcome(*old(registry), granted),
        r == VerifyOutcome::Verified ==> final(registry).entries() == remove_entry(
            old(registry).entries(),
            id,
        ) && !final(registry).contains_spec(id),
        r != VerifyOutcome::Verified ==> final(registry).entries() == old(registry).entries(),
{
    if !granted {
        return VerifyOutcome::GrantFailed;
    }
    proof {
        crate::registry::lemma_remove_keeps_unique(registry.entries(), id);
    }
    match registry.remove(id) {
        Ok(_) => VerifyOutcome::Verified,
        Err(_) => VerifyOutcome::VerifiedButRegistryStale,
    }
}

/// The reply shown for each outcome, about the member with this display name.
pub open spec fn message_text(outcome: VerifyOutcome, name: Seq<char>) -> Seq<char> {
    match outcome {
        VerifyOutcome::AlreadyVerified => name + " is already verified!"@,
        VerifyOutcome::GrantFailed => "Could not allow "@ + name
            + " access to server: the verified role could not be granted!"@,
        VerifyOutcome::Verified => name + " should now be able to access the server!"@,
        VerifyOutcome::VerifiedButRegistryStale => name
            + " should now be able to access the server, but the waitlist could not be updated and may still list them!"@,
    }
}

impl VerifyOutcome {
    /// The reply for this outcome about the member named `name`.
    pub fn message(&self, name: &str) -> (r: String)
        ensures
            r@ == message_text(*self, name@),
    {
        match self {
            VerifyOutcome::AlreadyVerified => String::from_str(name).concat(
                " is already verified!",
            ),
            VerifyOutcome::GrantFailed => String::from_str("Could not allow ").concat(name).concat(
                " access to server: the verified role could not be granted!",
            ),
            VerifyOutcome::Verified => String::from_str(name).concat(
                " should now be able to access the server!",
            ),
            VerifyOutcome::VerifiedButRegistryStale => String::from_str(name).concat(
                " should now be able to access the server, but the waitlist could not be updated and may still list them!",
            ),
        }
    }
}

/// The display names of the pending members, in registry order.
pub fn list_pending(registry: &Registry) -> (r: Result<Vec<String>, RegistryUnavailable>)
    ensures
        registry.is_available() ==> r is Ok && r->Ok_0@.map_values(|s: String| s@)
            == registry.entries().map_values(|e: Entry| e.1),
        !registry.is_available() ==> r == Err::<Vec<String>, RegistryUnavailable>(
            RegistryUnavailable,
        ),
{
    match registry.snapshot() {
        Ok(members) => {
            let ghost snap = members@;
            let mut names: Vec<String> = Vec::new();
            let mut i: usize = 0;
            while i < members.len()
                invariant
                    0 <= i <= members.len(),
                    members@ == snap,
                    names@.len() == i,
                    forall|j: int| 0 <= j < i ==> (#[trigger] names@[j])@ == snap[j].name@,
                decreases members.len() - i,
            {
                names.push(members[i].name.clone());
                i = i + 1;
            }
            assert(names@.map_values(|s: String| s@) =~= registry.entries().map_values(
                |e: Entry| e.1,
            )) by {
                assert(snap.map_values(|m: PendingMember| (m.id, m.name@)) == registry.entries());
                assert forall|j: int| 0 <= j < names@.len() implies #[trigger] names@[j]@
                    == registry.entries()[j].1 by {
                    assert(registry.entries()[j] == snap.map_values(
                        |m: PendingMember| (m.id, m.name@),
                    )[j]);
                }
            }
            Ok(names)
        },
        Err(e) => Err(e),
    }
}

/// The lines that list the pending names, each on a line of its own.
pub open spec fn pending_lines(names: Seq<Seq<char>>) -> Seq<char>
    decreases names.len(),
{
    if names.len() == 0 {
        Seq::empty()
    } else {
        pending_lines(names.drop_last()) + "\n- "@ + names.last()
    }
}

/// The text of the waitlist reply: a heading and the pending names, "None!"
/// when nobody is pending, or a notice that the list could not be read.
pub open spec fn show_text(listed: Result<Seq<Seq<char>>, RegistryUnavailable>) -> Seq<char> {
    match listed {
        Ok(names) => if names.len() == 0 {
            "Users on Waitlist\nNone!"@
        } else {
            "Users on Waitlist"@ + pending_lines(names)
        },
        Err(_) => "Couldn't fetch the list of users on the waitlist!"@,
    }
}

pub open spec fn listed_names(registry: Registry) -> Result<Seq<Seq<char>>, RegistryUnavailable> {
    if registry.is_available() {
        Ok(registry.entries().map_values(|e: Entry| e.1))
    } else {
        Err(RegistryUnavailable)
    }
}

/// The waitlist reply for the registry as it stands.
pub fn show(registry: &Registry) -> (r: String)
    ensures
        r@ == show_text(listed_names(*registry)),
{
    match list_pending(registry) {
        Ok(names) => {
            if names.len() == 0 {
                return String::from_str("Users on Waitlist\nNone!");
            }
            let mut out = String::from_str("Users on Waitlist");
            let mut i: usize = 0;
            while i < names.len()
                invariant
                    0 <= i <= names.len(),
                    out@ == "Users on Waitlist"@ + pending_lines(
                        names@.map_values(|s: String| s@).subrange(0, i as int),
                    ),
                decreases names.len() - i,
            {
                let ghost prev = names@.map_values(|s: String| s@).subrange(0, i as int);
                out.append("\n- ");
                out.append(names[i].as_str());
                assert(names@.map_values(|s: String| s@).subrange(0, i + 1).drop_last() =~= prev);
                assert(out@ =~= "Users on Waitlist"@ + pending_lines(
                    names@.map_values(|s: String| s@).subrange(0, i + 1),
                ));
                i = i + 1;
            }
            assert(names@.map_values(|s: String| s@).subrange(0, i as int) =~= names@.map_values(
                |s: String| s@,
            ));
            out
        },
        Err(_) => String::from_str("Couldn't fetch the list of users on the waitlist!"),
    }
}

pub open spec fn is_moderator_role(role: u64) -> bool {
    role == ADMIN_ROLE_ID || role == MODERATOR_ROLE_ID
}

/// Whether a member holding these roles may grant verification.
pub fn is_mod(roles: &Vec<u64>) -> (r: bool)
    ensures
        r == exists|i: int| 0 <= i < roles@.len() && is_moderator_role(#[trigger] roles@[i]),
{
    let mut i: usize = 0;
    while i < roles.len()
        invariant
            0 <= i <= roles.len(),
            forall|j: int| 0 <= j < i ==> !is_moderator_role(#[trigger] roles@[j]),
        decreases roles.len() - i,
    {
        if roles[i] == ADMIN_ROLE_ID || roles[i] == MODERATOR_ROLE_ID {
            return true;
        }
        i = i + 1;
    }
    false
}

} // verus!
