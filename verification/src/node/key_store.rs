//! Key store operations: the node's identity and the factory reset.

use vstd::prelude::*;

use crate::node::error::NodeResult;
use crate::node::map_storage::{MapContents, MapStorage, MapsView};
use crate::node::script::{
    after_all, lemma_all_succeeded, lemma_ran_nothing, lemma_ran_push, ops_of, outcome, ran,
    until_failure, Step,
};
use crate::node::traits::{keeps_promises, PlatformStorage, StorageOp, Stored};

verus! {

/// The channel that a factory reset goes back to.
pub const DEFAULT_CHANNEL: u8 = 1;

/// The node's identity.
#[derive(Clone, Copy, Debug, PartialEq, Eq)]
pub struct NodeIdentity {
    pub key_hint: u16,
    pub psk: [u8; 32],
}

/// The changes that a factory reset asks for, in order.
pub open spec fn reset_ops() -> Seq<StorageOp> {
    seq![
        StorageOp::EraseKey,
        StorageOp::EraseProgram { partition: 0 },
        StorageOp::EraseProgram { partition: 1 },
        StorageOp::ResetSchedule,
        StorageOp::WriteChannel { channel: DEFAULT_CHANNEL },
        StorageOp::ErasePeerPayload,
        StorageOp::WriteRegComplete { complete: false },
    ]
}

/// The maps after a factory reset: cleared once the key and both programs are
/// erased.
pub open spec fn maps_after_reset(maps: MapsView, script: Seq<Step>) -> MapsView {
    if script.len() > 3 {
        MapsView { maps: maps.maps.map_values(|m: MapContents| m.zeroed()), ..maps }
    } else {
        maps
    }
}

/// What a factory reset may do: its changes are asked for in order, the first
/// failure ends it, and the maps are cleared on the way.
pub open spec fn was_factory_reset<S: PlatformStorage>(
    pre: S,
    maps: MapsView,
    post: S,
    maps_after: MapsView,
    result: NodeResult<()>,
) -> bool {
    exists|script: Seq<Step>| #[trigger]
        ran(pre, script, post) && until_failure(reset_ops(), script) && result == outcome(script)
            && maps_after == maps_after_reset(maps, script)
}

/// Key store operations on persistent storage.
pub struct KeyStore<'a, S: PlatformStorage> {
    pub storage: &'a mut S,
}

impl<'a, S: PlatformStorage> KeyStore<'a, S> {
    /// The storage that is operated on.
    pub open spec fn inner(&self) -> S {
        *self.storage
    }

    /// Operate on `storage`.
    pub fn new(storage: &'a mut S) -> (store: KeyStore<'a, S>)
        ensures
            store.inner() == *old(storage),
            *final(store.storage) == *final(storage),
    {
        KeyStore { storage }
    }

    /// The node's identity; `None` while it is unpaired.
    pub fn load_identity(&self) -> (identity: Option<NodeIdentity>)
        ensures
            match identity {
                Some(id) => self.inner().holds().key == Some((id.key_hint, id.psk@)),
                None => self.inner().holds().key is None,
            },
    {
        match self.storage.read_key() {
            Some((key_hint, psk)) => Some(NodeIdentity { key_hint, psk }),
            None => None,
        }
    }

    /// Erase the key, both programs, all map data, the schedule, the channel
    /// and what pairing has left.  The first failure ends the reset and is
    /// returned.
    pub fn factory_reset(&mut self, map_storage: &mut MapStorage) -> (result: NodeResult<()>)
        requires
            old(map_storage)@.wf(),
        ensures
            final(map_storage)@.wf(),
            *final(final(self).storage) == *final(old(self).storage),
            was_factory_reset(
                old(self).inner(),
                old(map_storage)@,
                final(self).inner(),
                final(map_storage)@,
                result,
            ),
    {
        factory_reset(self.storage, map_storage)
    }
}

/// Factory reset of `storage`.
pub fn factory_reset<S: PlatformStorage>(storage: &mut S, map_storage: &mut MapStorage) -> (result:
    NodeResult<()>)
    requires
        old(map_storage)@.wf(),
    ensures
        final(map_storage)@.wf(),
        was_factory_reset(
            *old(storage),
            old(map_storage)@,
            *final(storage),
            final(map_storage)@,
            result,
        ),
{
    let ghost pre = *storage;
    let ghost maps = map_storage@;
    let ghost mut script: Seq<Step> = Seq::empty();
    proof {
        lemma_ran_nothing(pre);
    }
    let ghost mid = *storage;
    let result = storage.erase_key();
    proof {
        let step = Step { op: StorageOp::EraseKey, result };
        lemma_ran_push(pre, script, mid, step, *storage);
        script = script.push(step);
    }
    if result.is_err() {
        return result;
    }
    let ghost mid = *storage;
    let result = storage.erase_program(0);
    proof {
        let step = Step { op: (StorageOp::EraseProgram { partition: 0 }), result };
        lemma_ran_push(pre, script, mid, step, *storage);
        script = script.push(step);
    }
    if result.is_err() {
        return result;
    }
    let ghost mid = *storage;
    let result = storage.erase_program(1);
    proof {
        let step = Step { op: (StorageOp::EraseProgram { partition: 1 }), result };
        lemma_ran_push(pre, script, mid, step, *storage);
        script = script.push(step);
    }
    if result.is_err() {
        return result;
    }
    map_storage.clear_all();
    let ghost mid = *storage;
    let result = storage.reset_schedule();
    proof {
        let step = Step { op: StorageOp::ResetSchedule, result };
        lemma_ran_push(pre, script, mid, step, *storage);
        script = script.push(step);
    }
    if result.is_err() {
        return result;
    }
    // A stale channel would break pairing with a gateway on another one.
    let ghost mid = *storage;
    let result = storage.write_channel(DEFAULT_CHANNEL);
    proof {
        let step = Step { op: (StorageOp::WriteChannel { channel: DEFAULT_CHANNEL }), result };
        lemma_ran_push(pre, script, mid, step, *storage);
        script = script.push(step);
    }
    if result.is_err() {
        return result;
    }
    let ghost mid = *storage;
    let result = storage.erase_peer_payload();
    proof {
        let step = Step { op: StorageOp::ErasePeerPayload, result };
        lemma_ran_push(pre, script, mid, step, *storage);
        script = script.push(step);
    }
    if result.is_err() {
        return result;
    }
    // The next boot must not skip the registration with the gateway.
    let ghost mid = *storage;
    let result = storage.write_reg_complete(false);
    proof {
        let step = Step { op: (StorageOp::WriteRegComplete { complete: false }), result };
        lemma_ran_push(pre, script, mid, step, *storage);
        script = script.push(step);
    }
    result
}

/// What a factory reset leaves of `stored`.
pub open spec fn factory_state(stored: Stored, default_interval_s: u32) -> Stored {
    Stored {
        key: None,
        interval_s: default_interval_s,
        active_partition: 0,
        program_a: None,
        program_b: None,
        channel: Some(DEFAULT_CHANNEL),
        peer_payload: None,
        reg_complete: false,
        ..stored
    }
}

/// After a factory reset that succeeded, faithful storage holds no key, no
/// program and nothing of the pairing; the schedule and the channel are the
/// default ones, and all map values are zero.  What a reset is not about
/// stays.
pub proof fn law_factory_reset_erases_everything<S: PlatformStorage>(
    pre: S,
    maps: MapsView,
    post: S,
    maps_after: MapsView,
    result: NodeResult<()>,
    default_interval_s: u32,
)
    requires
        keeps_promises::<S>(default_interval_s),
        was_factory_reset(pre, maps, post, maps_after, result),
        result is Ok,
    ensures
        post.holds() == factory_state(pre.holds(), default_interval_s),
        maps_after.maps == maps.maps.map_values(|m: MapContents| m.zeroed()),
{
    let script = choose|script: Seq<Step>| #[trigger]
        ran(pre, script, post) && until_failure(reset_ops(), script) && result == outcome(script)
            && maps_after == maps_after_reset(maps, script);
    assert(script.len() == 7);
    lemma_all_succeeded(pre, script, post, default_interval_s);
    assert(ops_of(script) =~= reset_ops());
    reveal_with_fuel(after_all, 8);
    let ops = reset_ops();
    assert(ops.drop_last().drop_last().drop_last().drop_last().drop_last().drop_last().drop_last()
        =~= Seq::<StorageOp>::empty());
}

/// A factory reset that succeeded leaves an unpaired node without programs: no
/// key, no payload, not registered, on channel 1, woken at the default interval
/// with the first partition active, and with every byte of every map zero.  The
/// board layout, the flag for an early wake, and a test and its result stay.
pub proof fn law_reset_node_is_as_new<S: PlatformStorage>(
    pre: S,
    maps: MapsView,
    post: S,
    maps_after: MapsView,
    result: NodeResult<()>,
    default_interval_s: u32,
    map: int,
    at: int,
)
    requires
        keeps_promises::<S>(default_interval_s),
        was_factory_reset(pre, maps, post, maps_after, result),
        result is Ok,
    ensures
        post.holds().key is None,
        post.holds().program_a is None && post.holds().program_b is None,
        post.holds().peer_payload is None,
        !post.holds().reg_complete,
        post.holds().channel == Some(1u8),
        post.holds().interval_s == default_interval_s,
        post.holds().active_partition == 0,
        post.holds().board_layout == pre.holds().board_layout,
        post.holds().early_wake == pre.holds().early_wake,
        post.holds().staged_test == pre.holds().staged_test,
        post.holds().test_result == pre.holds().test_result,
        maps_after.budget == maps.budget,
        maps_after.maps.len() == maps.maps.len(),
        0 <= map < maps.maps.len() ==> maps_after.maps[map].def == maps.maps[map].def
            && maps_after.maps[map].data.len() == maps.maps[map].data.len(),
        0 <= map < maps.maps.len() && 0 <= at < maps.maps[map].data.len()
            ==> maps_after.maps[map].data[at] == 0,
{
    law_factory_reset_erases_everything(pre, maps, post, maps_after, result, default_interval_s);
}

/// The key is erased first: a reset that was interrupted by a failed change
/// later on has left the node unpaired, where storage does what it is asked for.
pub proof fn law_interrupted_reset_has_erased_the_key<S: PlatformStorage>(
    pre: S,
    script: Seq<Step>,
    post: S,
    default_interval_s: u32,
)
    requires
        keeps_promises::<S>(default_interval_s),
        ran(pre, script, post),
        until_failure(reset_ops(), script),
        script.len() > 1 || script[0].result is Ok,
    ensures
        post.holds().key is None,
{
    assert(script.len() > 0);
    lemma_key_stays_erased(pre, script, post, default_interval_s);
}

/// See `law_interrupted_reset_has_erased_the_key`.
proof fn lemma_key_stays_erased<S: PlatformStorage>(
    pre: S,
    script: Seq<Step>,
    post: S,
    default_interval_s: u32,
)
    requires
        keeps_promises::<S>(default_interval_s),
        ran(pre, script, post),
        script.len() > 0,
        script[0].op == StorageOp::EraseKey,
        script[0].result is Ok,
        forall|i: int|
            0 < i < script.len() ==> !((#[trigger] script[i]).op is WriteKey)
                && !(script[i].op is EraseKey),
    ensures
        post.holds().key is None,
    decreases script.len(),
{
    let mid = choose|mid: S|
        ran(pre, script.drop_last(), mid) && #[trigger] S::changed(
            mid,
            script.last().op,
            post,
            script.last().result,
        );
    assert(script.last() == script[script.len() - 1]);
    if script.len() > 1 {
        let rest = script.drop_last();
        assert(rest[0] == script[0]);
        assert forall|i: int| 0 < i < rest.len() implies !((
        #[trigger] rest[i]).op is WriteKey) && !(rest[i].op is EraseKey) by {
            assert(rest[i] == script[i]);
        }
        lemma_key_stays_erased(pre, rest, mid, default_interval_s);
        if script.last().result is Err {
            let op = script.last().op;
            assert(post.holds().after(op, 0) == mid.holds().after(op, 0));
            assert(post.holds().after(op, 0).key == post.holds().key);
            assert(mid.holds().after(op, 0).key == mid.holds().key);
        }
    }
}

/// The maps are cleared once the key and both programs are erased: a reset that
/// ended before that leaves them as they were, and any other leaves zeros.
pub proof fn law_maps_are_cleared_with_the_programs(maps: MapsView, script: Seq<Step>, map: int, at: int)
    requires
        0 <= map < maps.maps.len(),
        0 <= at < maps.maps[map].data.len(),
    ensures
        script.len() <= 3 ==> maps_after_reset(maps, script) == maps,
        script.len() > 3 ==> maps_after_reset(maps, script).maps[map].data[at] == 0,
        maps_after_reset(maps, script).maps.len() == maps.maps.len(),
        maps_after_reset(maps, script).maps[map].def == maps.maps[map].def,
        reset_ops()[0] is EraseKey && reset_ops()[1] is EraseProgram && reset_ops()[2] is EraseProgram,
{
}

} // verus!
