use vstd::prelude::*;

use crate::coordinator::{verify_spec, VerifyOutcome, VerifyStep};
use crate::registry::{
    has_id, insert_entry, lemma_insert_keeps_unique, lemma_remove_keeps_unique, remove_entry,
    unique_ids, Entry, Registry,
};
use crate::sync::{lemma_resync_entries, resync_entries};

verus! {

/// One registry update: `(true, id, name)` inserts, `(false, id, _)` removes.
pub type RegistryOp = (bool, u64, Seq<char>);

pub open spec fn apply_op(entries: Seq<Entry>, op: RegistryOp) -> Seq<Entry> {
    if op.0 {
        insert_entry(entries, op.1, op.2)
    } else {
        remove_entry(entries, op.1)
    }
}

/// The entries after applying the updates one after another, in the order in
/// which they took the registry's guard.
pub open spec fn apply_ops(entries: Seq<Entry>, ops: Seq<RegistryOp>) -> Seq<Entry>
    decreases ops.len(),
{
    if ops.len() == 0 {
        entries
    } else {
        apply_op(apply_ops(entries, ops.drop_last()), ops.last())
    }
}

/// Inserts of `id` minus removals of `id`.
pub open spec fn net_inserts(ops: Seq<RegistryOp>, id: u64) -> int
    decreases ops.len(),
{
    if ops.len() == 0 {
        0
    } else {
        let last = ops.last();
        net_inserts(ops.drop_last(), id) + if last.1 != id {
            0int
        } else if last.0 {
            1int
        } else {
            -1int
        }
    }
}

/// Every prefix of the updates inserts each id at most once more than it
/// removes it, and never removes it more often than it inserts it.
pub open spec fn balanced(ops: Seq<RegistryOp>) -> bool {
    forall|n: int, id: u64| 0 <= n <= ops.len() ==> 0 <= #[trigger] net_inserts(ops.take(n), id) <= 1
}

/// Starting from an empty registry, a sequence of balanced inserts and removals,
/// in whatever order the concurrent callers took the guard, leaves pending
/// exactly the ids with a positive net insert count: no update is lost.
pub proof fn lemma_no_lost_updates(ops: Seq<RegistryOp>)
    requires
        balanced(ops),
    ensures
        unique_ids(apply_ops(Seq::empty(), ops)),
        forall|id: u64|
            has_id(apply_ops(Seq::empty(), ops), id) <==> #[trigger] net_inserts(ops, id) > 0,
    decreases ops.len(),
{
    assert(ops.take(ops.len() as int) =~= ops);
    if ops.len() > 0 {
        let prev = ops.drop_last();
        assert forall|n: int, id: u64| 0 <= n <= prev.len() implies 0 <= #[trigger] net_inserts(
            prev.take(n),
            id,
        ) <= 1 by {
            assert(prev.take(n) =~= ops.take(n));
        }
        lemma_no_lost_updates(prev);
        let before = apply_ops(Seq::empty(), prev);
        let op = ops.last();
        if op.0 {
            lemma_insert_keeps_unique(before, op.1, op.2);
        } else {
            lemma_remove_keeps_unique(before, op.1);
        }
        assert forall|id: u64|
            has_id(apply_ops(Seq::empty(), ops), id) <==> #[trigger] net_inserts(ops, id) > 0 by {
            assert(prev.take(prev.len() as int) =~= prev);
            assert(0 <= net_inserts(ops.take(prev.len() as int), id) <= 1);
            assert(ops.take(prev.len() as int) =~= prev);
            assert(0 <= net_inserts(ops.take(ops.len() as int), id) <= 1);
        }
    }
}

/// Two updates on different ids, applied in either order by concurrent callers,
/// leave the same ids pending.
pub proof fn lemma_updates_commute(entries: Seq<Entry>, a: RegistryOp, b: RegistryOp)
    requires
        unique_ids(entries),
        a.1 != b.1,
    ensures
        forall|id: u64|
            has_id(apply_op(apply_op(entries, a), b), id) <==> has_id(
                apply_op(apply_op(entries, b), a),
                id,
            ),
{
    lemma_op_ids(entries, a);
    lemma_op_ids(entries, b);
    lemma_op_ids(apply_op(entries, a), b);
    lemma_op_ids(apply_op(entries, b), a);
}

proof fn lemma_op_ids(entries: Seq<Entry>, op: RegistryOp)
    requires
        unique_ids(entries),
    ensures
        unique_ids(apply_op(entries, op)),
        forall|id: u64|
            has_id(apply_op(entries, op), id) <==> if id == op.1 {
                op.0
            } else {
                has_id(entries, id)
            },
{
    if op.0 {
        lemma_insert_keeps_unique(entries, op.1, op.2);
    } else {
        lemma_remove_keeps_unique(entries, op.1);
    }
}

/// A resync in which every report of a member says it is verified leaves that
/// member out of the rebuilt registry, whatever the registry said before.
pub proof fn lemma_resync_drops_verified(members: Seq<(u64, Seq<char>, bool)>, id: u64)
    requires
        forall|i: int| 0 <= i < members.len() && (#[trigger] members[i]).0 == id ==> members[i].2,
    ensures
        !has_id(resync_entries(members), id),
{
    lemma_resync_entries(members);
    if crate::sync::listed_unverified(members, id) {
        let i = choose|i: int|
            0 <= i < members.len() && (#[trigger] members[i]).0 == id && !members[i].2;
        assert(members[i].2);
    }
}

/// Verifying the same member again right after a granted verification finds
/// nothing to do: the second request ends as already verified, with no grant.
pub proof fn lemma_verify_again(before: Registry, after: Registry, id: u64)
    requires
        before.wf(),
        after.is_available() == before.is_available(),
        before.is_available() ==> after.entries() == remove_entry(before.entries(), id),
    ensures
        verify_spec(after, id) == VerifyStep::Done(VerifyOutcome::AlreadyVerified),
{
    lemma_remove_keeps_unique(before.entries(), id);
}

} // verus!
