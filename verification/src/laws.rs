//! What holds of the registry whatever is done to it.

use vstd::prelude::*;
use crate::error::ErrorCode;
use crate::hooks::{HookStatus, Registry};
use crate::pubkey::Pubkey;

verus! {

/// Taking `needle` out of a sequence without duplicates leaves a sequence
/// without duplicates, one shorter, whose items all come from the first and
/// differ from `needle`.
pub proof fn lemma_remove_value(items: Seq<Pubkey>, needle: Pubkey)
    requires
        items.no_duplicates(),
        items.contains(needle),
    ensures
        items.remove_value(needle).len() == items.len() - 1,
        items.remove_value(needle).no_duplicates(),
        forall|k: int|
            0 <= k < items.remove_value(needle).len() ==> items.contains(
                #[trigger] items.remove_value(needle)[k],
            ) && items.remove_value(needle)[k] != needle,
        forall|other: Pubkey|
            other != needle && items.contains(other) ==> #[trigger] items.remove_value(
                needle,
            ).contains(other),
{
    items.index_of_first_ensures(needle);
    let i = items.index_of_first(needle).unwrap();
    let rest = items.remove(i);
    assert forall|k: int| 0 <= k < rest.len() implies items.contains(#[trigger] rest[k]) && rest[k]
        != needle by {
        if k < i {
            assert(rest[k] == items[k]);
        } else {
            assert(rest[k] == items[k + 1]);
        }
    }
    assert forall|other: Pubkey| other != needle && items.contains(other) implies rest.contains(
        other,
    ) by {
        let k = choose|k: int| 0 <= k < items.len() && items[k] == other;
        if k < i {
            assert(rest[k] == other);
        } else {
            assert(rest[k - 1] == other);
        }
    }
}

/// Moving `program_id` out of `pending` and to the end of `target` keeps both
/// free of duplicates and apart from each other and from a third bucket.
proof fn lemma_move_keeps_apart(
    pending: Seq<Pubkey>,
    target: Seq<Pubkey>,
    third: Seq<Pubkey>,
    program_id: Pubkey,
)
    requires
        pending.no_duplicates(),
        target.no_duplicates(),
        target.disjoint(pending),
        third.disjoint(pending),
        target.disjoint(third),
        pending.contains(program_id),
    ensures
        pending.remove_value(program_id).len() == pending.len() - 1,
        pending.remove_value(program_id).no_duplicates(),
        target.push(program_id).no_duplicates(),
        target.push(program_id).disjoint(pending.remove_value(program_id)),
        third.disjoint(pending.remove_value(program_id)),
        target.push(program_id).disjoint(third),
        third.disjoint(target.push(program_id)),
{
    lemma_remove_value(pending, program_id);
    let rest = pending.remove_value(program_id);
    let grown = target.push(program_id);
    let at = choose|k: int| 0 <= k < pending.len() && pending[k] == program_id;
    assert forall|j: int| 0 <= j < rest.len() implies exists|k: int|
        0 <= k < pending.len() && pending[k] == #[trigger] rest[j] by {
        assert(pending.contains(rest[j]));
    }
    assert forall|i: int, j: int| 0 <= i < grown.len() && 0 <= j < rest.len() implies grown[i]
        != rest[j] by {
        let k = choose|k: int| 0 <= k < pending.len() && pending[k] == rest[j];
        if i < target.len() {
            assert(target[i] != pending[k]);
        }
    }
    assert forall|i: int, j: int| 0 <= i < third.len() && 0 <= j < rest.len() implies third[i]
        != rest[j] by {
        let k = choose|k: int| 0 <= k < pending.len() && pending[k] == rest[j];
        assert(third[i] != pending[k]);
    }
    assert forall|i: int, j: int| 0 <= i < grown.len() && 0 <= j < third.len() implies grown[i]
        != third[j] by {
        if i < target.len() {
            assert(target[i] != third[j]);
        } else {
            assert(third[j] != pending[at]);
        }
    }
    assert forall|i: int, j: int|
        0 <= i < grown.len() && 0 <= j < grown.len() && i != j implies grown[i] != grown[j] by {
        if i < target.len() && j < target.len() {
            assert(target[i] != target[j]);
        } else if i < target.len() {
            assert(target[i] != pending[at]);
        } else {
            assert(target[j] != pending[at]);
        }
    }
}

/// A proposal that is accepted keeps the registry well-formed.
pub proof fn lemma_register_keeps_wf(pre: Registry, program_id: Pubkey)
    requires
        pre.wf(),
    ensures
        pre.register(program_id) is Ok ==> pre.register(program_id)->Ok_0.wf(),
{
}

/// An approval that is accepted keeps the registry well-formed.
pub proof fn lemma_approve_keeps_wf(pre: Registry, signer: Pubkey, program_id: Pubkey)
    requires
        pre.wf(),
    ensures
        pre.approve(signer, program_id) is Ok ==> pre.approve(signer, program_id)->Ok_0.wf(),
{
    if pre.approve(signer, program_id) is Ok {
        lemma_move_keeps_apart(pre.pending, pre.safe, pre.unsafe_, program_id);
    }
}

/// A rejection that is accepted keeps the registry well-formed.
pub proof fn lemma_reject_keeps_wf(pre: Registry, signer: Pubkey, program_id: Pubkey)
    requires
        pre.wf(),
    ensures
        pre.reject(signer, program_id) is Ok ==> pre.reject(signer, program_id)->Ok_0.wf(),
{
    if pre.reject(signer, program_id) is Ok {
        assert(pre.unsafe_.disjoint(pre.safe)) by {
            assert forall|i: int, j: int|
                0 <= i < pre.unsafe_.len() && 0 <= j < pre.safe.len() implies pre.unsafe_[i]
                != pre.safe[j] by {
                assert(pre.safe[j] != pre.unsafe_[i]);
            }
        }
        lemma_move_keeps_apart(pre.pending, pre.unsafe_, pre.safe, program_id);
    }
}

/// One request made of the registry.
pub enum Operation {
    /// Anyone proposes `program_id`.
    Register { program_id: Pubkey },
    /// `signer` approves `program_id`.
    Approve { signer: Pubkey, program_id: Pubkey },
    /// `signer` rejects `program_id`.
    Reject { signer: Pubkey, program_id: Pubkey },
}

impl Registry {
    /// What the request answers: the registry afterwards, or the reason for
    /// which it is rejected.
    pub open spec fn outcome(self, op: Operation) -> Result<Registry, ErrorCode> {
        match op {
            Operation::Register { program_id } => self.register(program_id),
            Operation::Approve { signer, program_id } => self.approve(signer, program_id),
            Operation::Reject { signer, program_id } => self.reject(signer, program_id),
        }
    }

    /// The registry after the request: changed as the request asks, or, where
    /// the request is rejected, as it was.
    pub open spec fn apply(self, op: Operation) -> Registry {
        match self.outcome(op) {
            Ok(next) => next,
            Err(_) => self,
        }
    }

    /// The registry after the requests `ops`, made one after the other.
    pub open spec fn run(self, ops: Seq<Operation>) -> Registry
        decreases ops.len(),
    {
        if ops.len() == 0 {
            self
        } else {
            self.run(ops.drop_last()).apply(ops.last())
        }
    }
}

/// From one state to the next a program either stays where it is, or enters
/// the pending bucket from outside, or leaves the pending bucket for the safe
/// or the unsafe one.
pub open spec fn legal_step(before: HookStatus, after: HookStatus) -> bool {
    ||| after == before
    ||| before == HookStatus::Unknown && after == HookStatus::Pending
    ||| before == HookStatus::Pending && after == HookStatus::Safe
    ||| before == HookStatus::Pending && after == HookStatus::Unsafe
}

/// A sequence with one more item at its end holds that item and what it held
/// before.
pub proof fn lemma_push_contains(items: Seq<Pubkey>, last: Pubkey, needle: Pubkey)
    ensures
        items.push(last).contains(needle) <==> items.contains(needle) || needle == last,
{
    let grown = items.push(last);
    if items.contains(needle) {
        let k = choose|k: int| 0 <= k < items.len() && items[k] == needle;
        assert(grown[k] == needle);
    }
    if needle == last {
        assert(grown[items.len() as int] == needle);
    }
    if grown.contains(needle) {
        let k = choose|k: int| 0 <= k < grown.len() && grown[k] == needle;
        if k < items.len() {
            assert(items[k] == needle);
        }
    }
}

/// In a well-formed registry a program is in at most one bucket.
pub proof fn lemma_one_bucket(state: Registry, program_id: Pubkey)
    requires
        state.disjoint(),
    ensures
        !(state.safe.contains(program_id) && state.unsafe_.contains(program_id)),
        !(state.safe.contains(program_id) && state.pending.contains(program_id)),
        !(state.unsafe_.contains(program_id) && state.pending.contains(program_id)),
{
}

/// Whatever the request, a well-formed registry stays well-formed.
pub proof fn lemma_apply_keeps_wf(pre: Registry, op: Operation)
    requires
        pre.wf(),
    ensures
        pre.apply(op).wf(),
{
    match op {
        Operation::Register { program_id } => lemma_register_keeps_wf(pre, program_id),
        Operation::Approve { signer, program_id } => lemma_approve_keeps_wf(
            pre,
            signer,
            program_id,
        ),
        Operation::Reject { signer, program_id } => lemma_reject_keeps_wf(pre, signer, program_id),
    }
}

/// No request changes the authority.
pub proof fn lemma_apply_keeps_authority(pre: Registry, op: Operation)
    ensures
        pre.apply(op).authority == pre.authority,
{
}

/// A request that is rejected leaves the registry as it was.
pub proof fn lemma_rejected_changes_nothing(pre: Registry, op: Operation)
    requires
        pre.outcome(op) is Err,
    ensures
        pre.apply(op) == pre,
{
}

/// Across one request, whatever it is and whether or not it is accepted, no
/// program moves between buckets except from pending to safe or from pending
/// to unsafe, and none enters the registry except as pending.
pub proof fn lemma_apply_is_legal(pre: Registry, op: Operation, program_id: Pubkey)
    requires
        pre.wf(),
    ensures
        legal_step(pre.status(program_id), pre.apply(op).status(program_id)),
{
    let post = pre.apply(op);
    lemma_one_bucket(pre, program_id);
    if pre.outcome(op) is Ok {
        match op {
            Operation::Register { program_id: proposed } => {
                lemma_push_contains(pre.pending, proposed, program_id);
            },
            Operation::Approve { signer, program_id: judged } => {
                lemma_remove_value(pre.pending, judged);
                lemma_push_contains(pre.safe, judged, program_id);
                lemma_one_bucket(pre, judged);
                lemma_moved_contains(pre.pending, judged, program_id);
            },
            Operation::Reject { signer, program_id: judged } => {
                lemma_remove_value(pre.pending, judged);
                lemma_push_contains(pre.unsafe_, judged, program_id);
                lemma_one_bucket(pre, judged);
                lemma_moved_contains(pre.pending, judged, program_id);
            },
        }
    }
}

/// Once `judged` is taken out of a sequence without duplicates, the sequence
/// holds what it held before but for `judged`.
pub proof fn lemma_moved_contains(items: Seq<Pubkey>, judged: Pubkey, needle: Pubkey)
    requires
        items.no_duplicates(),
        items.contains(judged),
    ensures
        items.remove_value(judged).contains(needle) <==> items.contains(needle) && needle
            != judged,
{
    lemma_remove_value(items, judged);
    let rest = items.remove_value(judged);
    if rest.contains(needle) {
        let k = choose|k: int| 0 <= k < rest.len() && rest[k] == needle;
        assert(items.contains(rest[k]) && rest[k] != judged);
    }
}

/// Every state that the registry can reach from its creation is well-formed.
pub proof fn lemma_reachable_wf(admin: Pubkey, ops: Seq<Operation>)
    ensures
        Registry::init(admin).run(ops).wf(),
    decreases ops.len(),
{
    if ops.len() > 0 {
        lemma_reachable_wf(admin, ops.drop_last());
        lemma_apply_keeps_wf(Registry::init(admin).run(ops.drop_last()), ops.last());
    }
}

/// In every state that the registry can reach from its creation, a program
/// is in at most one of the three buckets.
pub proof fn lemma_reachable_disjoint(admin: Pubkey, ops: Seq<Operation>, program_id: Pubkey)
    ensures
        ({
            let state = Registry::init(admin).run(ops);
            &&& !(state.safe.contains(program_id) && state.unsafe_.contains(program_id))
            &&& !(state.safe.contains(program_id) && state.pending.contains(program_id))
            &&& !(state.unsafe_.contains(program_id) && state.pending.contains(program_id))
        }),
{
    lemma_reachable_wf(admin, ops);
    lemma_one_bucket(Registry::init(admin).run(ops), program_id);
}

/// In every state that the registry can reach from its creation, no bucket
/// holds more than twenty programs.
pub proof fn lemma_reachable_within_capacity(admin: Pubkey, ops: Seq<Operation>)
    ensures
        Registry::init(admin).run(ops).pending.len() <= 20,
        Registry::init(admin).run(ops).safe.len() <= 20,
        Registry::init(admin).run(ops).unsafe_.len() <= 20,
{
    lemma_reachable_wf(admin, ops);
}

/// Whatever is asked of the registry, and however often, its authority stays
/// the one that created it.
pub proof fn lemma_authority_is_fixed(admin: Pubkey, ops: Seq<Operation>)
    ensures
        Registry::init(admin).run(ops).authority == admin,
    decreases ops.len(),
{
    if ops.len() > 0 {
        lemma_authority_is_fixed(admin, ops.drop_last());
    }
}

/// Between any two consecutive states that the registry goes through from its
/// creation, every program makes a legal step.
pub proof fn lemma_reachable_steps_are_legal(
    admin: Pubkey,
    ops: Seq<Operation>,
    next: Operation,
    program_id: Pubkey,
)
    ensures
        Registry::init(admin).run(ops.push(next)) == Registry::init(admin).run(ops).apply(next),
        legal_step(
            Registry::init(admin).run(ops).status(program_id),
            Registry::init(admin).run(ops.push(next)).status(program_id),
        ),
{
    assert(ops.push(next).drop_last() == ops);
    lemma_reachable_wf(admin, ops);
    lemma_apply_is_legal(Registry::init(admin).run(ops), next, program_id);
}

/// A program that is in the safe or in the unsafe bucket of a state that the
/// registry has reached from its creation was pending in an earlier state.
pub proof fn lemma_judged_was_pending(admin: Pubkey, ops: Seq<Operation>, program_id: Pubkey)
    requires
        Registry::init(admin).run(ops).safe.contains(program_id) || Registry::init(admin).run(
            ops,
        ).unsafe_.contains(program_id),
    ensures
        exists|k: int|
            0 <= k < ops.len() && #[trigger] Registry::init(admin).run(ops.take(k)).status(
                program_id,
            ) == HookStatus::Pending,
    decreases ops.len(),
{
    let start = Registry::init(admin);
    if ops.len() == 0 {
        assert(false);
    } else {
        let before = start.run(ops.drop_last());
        lemma_reachable_wf(admin, ops.drop_last());
        lemma_apply_is_legal(before, ops.last(), program_id);
        if before.status(program_id) == HookStatus::Pending {
            assert(ops.take(ops.len() - 1) == ops.drop_last());
        } else {
            lemma_judged_was_pending(admin, ops.drop_last(), program_id);
            let k = choose|k: int|
                0 <= k < ops.drop_last().len() && #[trigger] start.run(
                    ops.drop_last().take(k),
                ).status(program_id) == HookStatus::Pending;
            assert(ops.drop_last().take(k) == ops.take(k));
        }
    }
}

} // verus!
