//! Sequences of storage changes and their results.

use vstd::prelude::*;

use crate::node::error::NodeResult;
use crate::node::traits::{keeps_promises, PlatformStorage, StorageOp, Stored};

verus! {

/// A change that was asked for, and its result.
pub ghost struct Step {
    pub op: StorageOp,
    pub result: NodeResult<()>,
}

/// What asking for the changes of `script`, one after the other, may do.
pub open spec fn ran<S: PlatformStorage>(pre: S, script: Seq<Step>, post: S) -> bool
    decreases script.len(),
{
    if script.len() == 0 {
        post == pre
    } else {
        exists|mid: S|
            ran(pre, script.drop_last(), mid) && #[trigger] S::changed(
                mid,
                script.last().op,
                post,
                script.last().result,
            )
    }
}

/// Nothing was asked for.
pub proof fn lemma_ran_nothing<S: PlatformStorage>(pre: S)
    ensures
        ran(pre, Seq::<Step>::empty(), pre),
{
}

/// One more change was asked for.
pub proof fn lemma_ran_push<S: PlatformStorage>(
    pre: S,
    script: Seq<Step>,
    mid: S,
    step: Step,
    post: S,
)
    requires
        ran(pre, script, mid),
        S::changed(mid, step.op, post, step.result),
    ensures
        ran(pre, script.push(step), post),
{
    assert(script.push(step).drop_last() =~= script);
    assert(S::changed(mid, script.push(step).last().op, post, script.push(step).last().result));
}

/// `script` asks for `ops` in order and ends with the first failure, if there
/// is one.
pub open spec fn until_failure(ops: Seq<StorageOp>, script: Seq<Step>) -> bool {
    &&& script.len() <= ops.len()
    &&& forall|i: int| 0 <= i < script.len() ==> (#[trigger] script[i]).op == ops[i]
    &&& forall|i: int| 0 <= i < script.len() - 1 ==> (#[trigger] script[i]).result is Ok
    &&& script.len() < ops.len() ==> script.len() > 0 && script.last().result is Err
}

/// `script` asks for `ops` in order, whatever the results.
pub open spec fn regardless(ops: Seq<StorageOp>, script: Seq<Step>) -> bool {
    &&& script.len() == ops.len()
    &&& forall|i: int| 0 <= i < script.len() ==> (#[trigger] script[i]).op == ops[i]
}

/// The outcome of a script that ends with the first failure.
pub open spec fn outcome(script: Seq<Step>) -> NodeResult<()> {
    if script.len() == 0 {
        Ok(())
    } else {
        script.last().result
    }
}

/// What storage holds after all of `ops` have succeeded.
pub open spec fn after_all(stored: Stored, ops: Seq<StorageOp>, default_interval_s: u32) -> Stored
    decreases ops.len(),
{
    if ops.len() == 0 {
        stored
    } else {
        after_all(stored, ops.drop_last(), default_interval_s).after(
            ops.last(),
            default_interval_s,
        )
    }
}

/// The changes that a script asks for.
pub open spec fn ops_of(script: Seq<Step>) -> Seq<StorageOp> {
    script.map_values(|s: Step| s.op)
}

/// Faithful storage holds, after a script in which everything succeeded, what
/// the changes say.
pub proof fn lemma_all_succeeded<S: PlatformStorage>(
    pre: S,
    script: Seq<Step>,
    post: S,
    default_interval_s: u32,
)
    requires
        keeps_promises::<S>(default_interval_s),
        ran(pre, script, post),
        forall|i: int| 0 <= i < script.len() ==> (#[trigger] script[i]).result is Ok,
    ensures
        post.holds() == after_all(pre.holds(), ops_of(script), default_interval_s),
    decreases script.len(),
{
    if script.len() > 0 {
        let mid = choose|mid: S|
            ran(pre, script.drop_last(), mid) && #[trigger] S::changed(
                mid,
                script.last().op,
                post,
                script.last().result,
            );
        let rest = script.drop_last();
        assert forall|i: int| 0 <= i < rest.len() implies (#[trigger] rest[i]).result is Ok by {
            assert(rest[i] == script[i]);
        }
        lemma_all_succeeded(pre, rest, mid, default_interval_s);
        assert(ops_of(script).drop_last() =~= ops_of(rest));
        assert(script[script.len() - 1].result is Ok);
    }
}

} // verus!
