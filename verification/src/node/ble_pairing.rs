//! BLE pairing: provisioning of credentials.
//!
//! - Framing of BLE messages.
//! - Parsing of NODE_PROVISION and its persistence.
//! - The NODE_ACK that answers it.
//!
//! A board layout that comes with NODE_PROVISION is encoded; decoding it is the
//! caller's business, and the decoded layout is passed in.

use vstd::prelude::*;
use vstd::slice::slice_subrange;

use crate::bytes::{be16, copy_range, read_be16};
use crate::node::key_store::{
    factory_reset, factory_state, law_factory_reset_erases_everything, maps_after_reset, reset_ops,
    was_factory_reset,
};
use crate::node::map_storage::{MapContents, MapStorage, MapsView};
use crate::node::script::{
    lemma_ran_nothing, lemma_ran_push, outcome, ran, regardless, until_failure, Step,
};
use crate::node::traits::{keeps_promises, PlatformStorage, StorageOp, Stored};
use crate::node::types::{legacy_layout, BoardLayout};

verus! {

/// Envelope type of NODE_PROVISION (phone to node).
pub const BLE_MSG_NODE_PROVISION: u8 = 0x01;

/// Envelope type of NODE_ACK (node to phone).
pub const BLE_MSG_NODE_ACK: u8 = 0x81;

/// The credentials were stored.
pub const NODE_ACK_SUCCESS: u8 = 0x00;

/// The node is paired, and the pairing button was not held.
pub const NODE_ACK_ALREADY_PAIRED: u8 = 0x01;

/// A write to storage failed.
pub const NODE_ACK_STORAGE_ERROR: u8 = 0x02;

/// Largest encrypted payload: it must fit in a single PEER_REQUEST frame.
pub const PEER_PAYLOAD_MAX_LEN: usize = 202;

/// Smallest MTU accepted for pairing.
pub const BLE_MIN_ATT_MTU: u16 = 247;

/// Length of a NODE_PROVISION body with an empty payload.
pub const NODE_PROVISION_MIN_LEN: usize = 37;

/// Whether the negotiated MTU is large enough.
pub fn is_mtu_acceptable(mtu: u16) -> (acceptable: bool)
    ensures
        acceptable == (mtu >= BLE_MIN_ATT_MTU),
{
    mtu >= BLE_MIN_ATT_MTU
}

/// A BLE message: its type, the length of its body in two bytes, and the body.
pub open spec fn envelope(msg_type: u8, body: Seq<u8>) -> Seq<u8> {
    seq![msg_type, (body.len() / 256) as u8, (body.len() % 256) as u8] + body
}

/// Whether `data` is exactly one BLE message.
pub open spec fn is_envelope(data: Seq<u8>) -> bool {
    data.len() >= 3 && be16(data[1], data[2]) == data.len() - 3
}

/// Frame a BLE message; `None` where the body is too long for its length
/// field.
pub fn encode_ble_envelope(msg_type: u8, body: &[u8]) -> (data: Option<Vec<u8>>)
    ensures
        match data {
            Some(d) => body@.len() <= 0xffff && d@ == envelope(msg_type, body@),
            None => body@.len() > 0xffff,
        },
{
    if body.len() > 0xffff {
        return None;
    }
    let len: usize = body.len();
    let mut data: Vec<u8> = Vec::new();
    data.push(msg_type);
    data.push((len / 256) as u8);
    data.push((len % 256) as u8);
    let mut i: usize = 0;
    assert(data@ =~= envelope(msg_type, body@).take(3));
    while i < body.len()
        invariant
            i <= body.len(),
            data@ == envelope(msg_type, body@).take(3 + i),
        decreases body.len() - i,
    {
        data.push(body[i]);
        assert(data@ =~= envelope(msg_type, body@).take(3 + i + 1));
        i = i + 1;
    }
    assert(data@ =~= envelope(msg_type, body@));
    Some(data)
}

/// Unframe a BLE message; `None` unless the data is exactly one.
pub fn parse_ble_envelope(data: &[u8]) -> (parsed: Option<(u8, &[u8])>)
    ensures
        match parsed {
            Some((msg_type, body)) => {
                &&& is_envelope(data@)
                &&& msg_type == data@[0]
                &&& body@ == data@.skip(3)
            },
            None => !is_envelope(data@),
        },
{
    if data.len() < 3 {
        return None;
    }
    let len: usize = read_be16(data[1], data[2]) as usize;
    if data.len() - 3 != len {
        return None;
    }
    let body = slice_subrange(data, 3, data.len());
    assert(body@ =~= data@.skip(3));
    Some((data[0], body))
}

/// A message is read back as it was framed.
pub proof fn law_envelope_round_trip(msg_type: u8, body: Seq<u8>)
    requires
        body.len() <= 0xffff,
    ensures
        is_envelope(envelope(msg_type, body)),
        envelope(msg_type, body)[0] == msg_type,
        envelope(msg_type, body).skip(3) == body,
{
    assert(envelope(msg_type, body).skip(3) =~= body);
}

/// Every message is the framing of its type and body: nothing is missing and
/// nothing is left over.
pub proof fn law_envelope_is_exact(data: Seq<u8>)
    requires
        is_envelope(data),
    ensures
        data == envelope(data[0], data.skip(3)),
{
    let body = data.skip(3);
    assert(be16(data[1], data[2]) == body.len());
    assert(data =~= envelope(data[0], body));
}

/// The board layout in a NODE_PROVISION.
#[derive(Clone, Copy, Debug, PartialEq, Eq, Structural)]
pub enum ProvisionedBoardLayout {
    Absent,
    Provided(BoardLayout),
}

/// A parsed NODE_PROVISION.
#[derive(Debug)]
pub struct NodeProvision {
    /// Hint by which the gateway finds the node's key.
    pub key_hint: u16,
    /// The node's pre-shared key.
    pub psk: [u8; 32],
    /// Radio channel (1 to 13).
    pub rf_channel: u8,
    /// Payload for the gateway, opaque to the node.
    pub encrypted_payload: Vec<u8>,
    /// The board layout, where one was included.
    pub board_layout: ProvisionedBoardLayout,
}

/// A NODE_PROVISION as mathematical values.
pub ghost struct Provision {
    pub key_hint: u16,
    pub psk: Seq<u8>,
    pub rf_channel: u8,
    pub encrypted_payload: Seq<u8>,
    pub board_layout: ProvisionedBoardLayout,
}

impl View for NodeProvision {
    type V = Provision;

    open spec fn view(&self) -> Provision {
        Provision {
            key_hint: self.key_hint,
            psk: self.psk@,
            rf_channel: self.rf_channel,
            encrypted_payload: self.encrypted_payload@,
            board_layout: self.board_layout,
        }
    }
}

/// Length of the encrypted payload that a body announces.
pub open spec fn payload_len(body: Seq<u8>) -> int {
    be16(body[35], body[36])
}

/// Why the part of a body in front of the board layout is malformed, if it is.
pub open spec fn header_error(body: Seq<u8>) -> Option<&'static str> {
    if body.len() < NODE_PROVISION_MIN_LEN {
        Some("body too short")
    } else if !(1 <= body[34] <= 13) {
        Some("rf_channel out of range (must be 1–13)")
    } else if payload_len(body) > PEER_PAYLOAD_MAX_LEN {
        Some("encrypted_payload too large")
    } else if body.len() < NODE_PROVISION_MIN_LEN + payload_len(body) {
        Some("encrypted_payload truncated")
    } else {
        None
    }
}

/// Whether bytes of a board layout follow the encrypted payload.
pub open spec fn has_layout(body: Seq<u8>) -> bool {
    header_error(body) is None && body.len() > NODE_PROVISION_MIN_LEN + payload_len(body)
}

/// The provision that a body holds, whose board layout decodes to `layout`.
pub open spec fn provision_of(body: Seq<u8>, layout: ProvisionedBoardLayout) -> Provision {
    Provision {
        key_hint: be16(body[0], body[1]) as u16,
        psk: body.subrange(2, 34),
        rf_channel: body[34],
        encrypted_payload: body.subrange(37, 37 + payload_len(body)),
        board_layout: layout,
    }
}

/// Check the part of a body in front of the board layout.  Returns the length
/// of the encrypted payload.
fn check_header(body: &[u8]) -> (checked: Result<usize, &'static str>)
    ensures
        match checked {
            Ok(len) => header_error(body@) is None && len as int == payload_len(body@),
            Err(reason) => header_error(body@) == Some(reason),
        },
{
    if body.len() < NODE_PROVISION_MIN_LEN {
        return Err("body too short");
    }
    let rf_channel = body[34];
    if !(1 <= rf_channel && rf_channel <= 13) {
        return Err("rf_channel out of range (must be 1–13)");
    }
    let len: usize = read_be16(body[35], body[36]) as usize;
    if len > PEER_PAYLOAD_MAX_LEN {
        return Err("encrypted_payload too large");
    }
    if body.len() < NODE_PROVISION_MIN_LEN + len {
        return Err("encrypted_payload truncated");
    }
    Ok(len)
}

/// The encoded board layout in a NODE_PROVISION body, to be decoded before the
/// body is parsed; `None` where there is none or the body is malformed.
pub fn board_layout_bytes(body: &[u8]) -> (bytes: Option<&[u8]>)
    ensures
        match bytes {
            Some(b) => has_layout(body@) && b@ == body@.skip(37 + payload_len(body@)),
            None => !has_layout(body@),
        },
{
    match check_header(body) {
        Err(_) => None,
        Ok(len) => {
            let expected_len: usize = NODE_PROVISION_MIN_LEN + len;
            if body.len() > expected_len {
                let bytes = slice_subrange(body, expected_len, body.len());
                assert(bytes@ =~= body@.skip(expected_len as int));
                Some(bytes)
            } else {
                None
            }
        },
    }
}

/// Parse a NODE_PROVISION body.  `layout` is what the bytes that
/// `board_layout_bytes` returned decode to; `None` if they do not decode.
pub fn parse_node_provision(body: &[u8], layout: Option<BoardLayout>) -> (parsed: Result<
    NodeProvision,
    &'static str,
>)
    ensures
        match parsed {
            Ok(provision) => {
                &&& header_error(body@) is None
                &&& if has_layout(body@) {
                    layout matches Some(l) && provision@ == provision_of(
                        body@,
                        ProvisionedBoardLayout::Provided(l),
                    )
                } else {
                    provision@ == provision_of(body@, ProvisionedBoardLayout::Absent)
                }
            },
            Err(reason) => match header_error(body@) {
                Some(error) => reason == error,
                None => has_layout(body@) && layout is None && reason
                    == "board_layout CBOR decode failed",
            },
        },
{
    let len = match check_header(body) {
        Err(reason) => {
            return Err(reason);
        },
        Ok(len) => len,
    };
    let key_hint = read_be16(body[0], body[1]);
    let mut psk: [u8; 32] = [0u8; 32];
    let mut i: usize = 0;
    while i < 32
        invariant
            i <= 32,
            body@.len() >= 37,
            forall|j: int| 0 <= j < i ==> psk@[j] == body@[2 + j],
        decreases 32 - i,
    {
        psk[i] = body[2 + i];
        i = i + 1;
    }
    assert(psk@ =~= body@.subrange(2, 34));
    let encrypted_payload = copy_range(body, 37, 37 + len);
    let board_layout = if body.len() > NODE_PROVISION_MIN_LEN + len {
        match layout {
            Some(l) => ProvisionedBoardLayout::Provided(l),
            None => {
                return Err("board_layout CBOR decode failed");
            },
        }
    } else {
        ProvisionedBoardLayout::Absent
    };
    Ok(NodeProvision { key_hint, psk, rf_channel: body[34], encrypted_payload, board_layout })
}

/// Encode a NODE_ACK with the given status.
pub fn encode_node_ack(status: u8) -> (data: Vec<u8>)
    ensures
        data@ == envelope(BLE_MSG_NODE_ACK, seq![status]),
{
    let mut data: Vec<u8> = Vec::new();
    data.push(BLE_MSG_NODE_ACK);
    data.push(0);
    data.push(1);
    data.push(status);
    assert(data@ =~= envelope(BLE_MSG_NODE_ACK, seq![status]));
    data
}

/// The writes that pairing depends on, in order.  The channel comes last, so
/// that a failure does not leave a stale one.
pub open spec fn credential_ops(provision: Provision) -> Seq<StorageOp> {
    seq![
        StorageOp::WriteKey { key_hint: provision.key_hint, psk: provision.psk },
        StorageOp::WritePeerPayload { payload: provision.encrypted_payload },
        StorageOp::WriteRegComplete { complete: false },
        StorageOp::WriteChannel { channel: provision.rf_channel },
    ]
}

/// What is undone after a failed write, where `written` writes had succeeded.
pub open spec fn rollback_ops(written: int) -> Seq<StorageOp> {
    if written <= 0 {
        Seq::empty()
    } else if written == 1 {
        seq![StorageOp::EraseKey]
    } else {
        seq![StorageOp::EraseKey, StorageOp::ErasePeerPayload]
    }
}

/// The layout that is to be written: the provided one, or the legacy one where
/// none was provided and none is stored.
pub open spec fn layout_to_write(
    layout: ProvisionedBoardLayout,
    stored: Option<BoardLayout>,
) -> Option<BoardLayout> {
    match layout {
        ProvisionedBoardLayout::Provided(l) => Some(l),
        ProvisionedBoardLayout::Absent => if stored is None {
            Some(legacy_layout())
        } else {
            None
        },
    }
}

/// What follows a layout that could not be written: a layout that was stored
/// before is written again where a provided one was to replace it, and the
/// credentials are erased.
pub open spec fn layout_rollback_ops(
    layout: ProvisionedBoardLayout,
    stored: Option<BoardLayout>,
) -> Seq<StorageOp> {
    let erase = seq![StorageOp::EraseKey, StorageOp::ErasePeerPayload];
    match (layout, stored) {
        (ProvisionedBoardLayout::Provided(_), Some(previous)) => seq![
            StorageOp::WriteBoardLayout { layout: previous },
        ] + erase,
        _ => erase,
    }
}

/// What storing the board layout may do, once the credentials are stored.
pub open spec fn was_layout_stored<S: PlatformStorage>(
    pre: S,
    layout: ProvisionedBoardLayout,
    post: S,
    status: u8,
) -> bool {
    match layout_to_write(layout, pre.holds().board_layout) {
        None => post == pre && status == NODE_ACK_SUCCESS,
        Some(l) => exists|script: Seq<Step>| #[trigger]
            ran(pre, script, post) && script.len() > 0 && script[0].op == (
            StorageOp::WriteBoardLayout { layout: l }) && (if script[0].result is Ok {
                script.len() == 1 && status == NODE_ACK_SUCCESS
            } else {
                regardless(
                    layout_rollback_ops(layout, pre.holds().board_layout),
                    script.drop_first(),
                ) && status == NODE_ACK_STORAGE_ERROR
            }),
    }
}

/// What the changes of `head`, which lead to `mid`, and what follows them may
/// do to store a provision: a key that is there is erased, then the
/// credentials and the board layout are written.  A failed write is rolled
/// back.
pub open spec fn was_stored_along<S: PlatformStorage>(
    provision: Provision,
    head: Seq<Step>,
    mid: S,
    post: S,
    status: u8,
) -> bool {
    head.len() > 0 && head[0].op == StorageOp::EraseKey && until_failure(
        credential_ops(provision),
        head.drop_first(),
    ) && (if head.len() > 1 && head.last().result is Err {
        status == NODE_ACK_STORAGE_ERROR && exists|tail: Seq<Step>| #[trigger]
            ran(mid, tail, post) && regardless(rollback_ops(head.len() - 2), tail)
    } else {
        was_layout_stored(mid, provision.board_layout, post, status)
    })
}

/// What storing a provision may do.
pub open spec fn was_stored<S: PlatformStorage>(
    pre: S,
    provision: Provision,
    post: S,
    status: u8,
) -> bool {
    exists|head: Seq<Step>, mid: S| #[trigger]
        ran(pre, head, mid) && was_stored_along(provision, head, mid, post, status)
}

/// What handling a NODE_PROVISION may do.
pub open spec fn was_provisioned<S: PlatformStorage>(
    pre: S,
    maps: MapsView,
    provision: Provision,
    button_held: bool,
    paired_on_entry: bool,
    post: S,
    maps_after: MapsView,
    status: u8,
) -> bool {
    if !button_held && paired_on_entry {
        post == pre && maps_after == maps && status == NODE_ACK_ALREADY_PAIRED
    } else if button_held {
        exists|mid: S, result: crate::node::error::NodeResult<()>| #[trigger]
            was_factory_reset(pre, maps, mid, maps_after, result) && match result {
                Ok(_) => was_stored(mid, provision, post, status),
                Err(_) => post == mid && status == NODE_ACK_STORAGE_ERROR,
            }
    } else {
        maps_after == maps && was_stored(pre, provision, post, status)
    }
}

/// Handle a NODE_PROVISION; returns the status for the NODE_ACK.
///
/// A node that was paired when it entered pairing mode refuses, unless the
/// pairing button was held, which resets it first.  A node that was paired in
/// this very session can be provisioned again.
pub fn handle_node_provision<S: PlatformStorage>(
    provision: &NodeProvision,
    storage: &mut S,
    map_storage: &mut MapStorage,
    button_held: bool,
    paired_on_entry: bool,
) -> (status: u8)
    requires
        old(map_storage)@.wf(),
    ensures
        final(map_storage)@.wf(),
        was_provisioned(
            *old(storage),
            old(map_storage)@,
            provision@,
            button_held,
            paired_on_entry,
            *final(storage),
            final(map_storage)@,
            status,
        ),
{
    if !button_held && paired_on_entry {
        return NODE_ACK_ALREADY_PAIRED;
    }
    if button_held {
        let ghost pre = *storage;
        let ghost maps = map_storage@;
        let result = factory_reset(storage, map_storage);
        assert(was_factory_reset(pre, maps, *storage, map_storage@, result));
        if result.is_err() {
            return NODE_ACK_STORAGE_ERROR;
        }
    }
    store_provision(provision, storage)
}

/// Store a provision; returns the status for the NODE_ACK.
fn store_provision<S: PlatformStorage>(provision: &NodeProvision, storage: &mut S) -> (status: u8)
    ensures
        was_stored(*old(storage), provision@, *final(storage), status),
{
    let ghost pre = *storage;
    let ghost mut head: Seq<Step> = Seq::empty();
    proof {
        lemma_ran_nothing(pre);
    }
    // Failures are ignored: on a fresh node there may be no key to erase, and
    // a key that could not be erased makes the write below fail.
    let ghost here = *storage;
    let result = storage.erase_key();
    proof {
        let step = Step { op: StorageOp::EraseKey, result };
        lemma_ran_push(pre, head, here, step, *storage);
        head = head.push(step);
    }
    let ghost here = *storage;
    let result = storage.write_key(provision.key_hint, &provision.psk);
    proof {
        let step = Step {
            op: (StorageOp::WriteKey { key_hint: provision.key_hint, psk: provision.psk@ }),
            result,
        };
        lemma_ran_push(pre, head, here, step, *storage);
        head = head.push(step);
    }
    if result.is_err() {
        proof {
            lemma_ran_nothing(*storage);
            assert(ran(*storage, Seq::<Step>::empty(), *storage));
            assert(ran(pre, head, *storage));
        }
        return NODE_ACK_STORAGE_ERROR;
    }
    let ghost here = *storage;
    let result = storage.write_peer_payload(provision.encrypted_payload.as_slice());
    proof {
        let step = Step {
            op: (StorageOp::WritePeerPayload { payload: provision.encrypted_payload@ }),
            result,
        };
        lemma_ran_push(pre, head, here, step, *storage);
        head = head.push(step);
    }
    if result.is_err() {
        let ghost mid = *storage;
        roll_back(storage, false);
        assert(ran(pre, head, mid));
        return NODE_ACK_STORAGE_ERROR;
    }
    // The next boot registers with the gateway instead of waking normally.
    let ghost here = *storage;
    let result = storage.write_reg_complete(false);
    proof {
        let step = Step { op: (StorageOp::WriteRegComplete { complete: false }), result };
        lemma_ran_push(pre, head, here, step, *storage);
        head = head.push(step);
    }
    if result.is_err() {
        let ghost mid = *storage;
        roll_back(storage, true);
        assert(ran(pre, head, mid));
        return NODE_ACK_STORAGE_ERROR;
    }
    let ghost here = *storage;
    let result = storage.write_channel(provision.rf_channel);
    proof {
        let step = Step {
            op: (StorageOp::WriteChannel { channel: provision.rf_channel }),
            result,
        };
        lemma_ran_push(pre, head, here, step, *storage);
        head = head.push(step);
    }
    if result.is_err() {
        let ghost mid = *storage;
        roll_back(storage, true);
        assert(ran(pre, head, mid));
        return NODE_ACK_STORAGE_ERROR;
    }
    let ghost mid = *storage;
    let status = store_layout(provision.board_layout, storage);
    assert(ran(pre, head, mid));
    status
}

/// Erase the key, and the payload too where `payload` says so.
fn roll_back<S: PlatformStorage>(storage: &mut S, payload: bool)
    ensures
        exists|tail: Seq<Step>| #[trigger]
            ran(*old(storage), tail, *final(storage)) && regardless(
                rollback_ops(
                    if payload {
                        2int
                    } else {
                        1int
                    },
                ),
                tail,
            ),
{
    let ghost pre = *storage;
    let ghost mut tail: Seq<Step> = Seq::empty();
    proof {
        lemma_ran_nothing(pre);
    }
    let result = storage.erase_key();
    proof {
        let step = Step { op: StorageOp::EraseKey, result };
        lemma_ran_push(pre, tail, pre, step, *storage);
        tail = tail.push(step);
    }
    if payload {
        let ghost here = *storage;
        let result = storage.erase_peer_payload();
        proof {
            let step = Step { op: StorageOp::ErasePeerPayload, result };
            lemma_ran_push(pre, tail, here, step, *storage);
            tail = tail.push(step);
        }
    }
    assert(ran(pre, tail, *storage));
}

/// Store the board layout; returns the status for the NODE_ACK.
fn store_layout<S: PlatformStorage>(layout: ProvisionedBoardLayout, storage: &mut S) -> (status: u8)
    ensures
        was_layout_stored(*old(storage), layout, *final(storage), status),
{
    let ghost pre = *storage;
    let previous = storage.read_board_layout();
    let new_layout = match layout {
        ProvisionedBoardLayout::Provided(l) => l,
        ProvisionedBoardLayout::Absent => {
            if previous.is_some() {
                return NODE_ACK_SUCCESS;
            }
            BoardLayout::legacy_compat()
        },
    };
    let ghost mut script: Seq<Step> = Seq::empty();
    proof {
        lemma_ran_nothing(pre);
    }
    let result = storage.write_board_layout(&new_layout);
    proof {
        let step = Step { op: (StorageOp::WriteBoardLayout { layout: new_layout }), result };
        lemma_ran_push(pre, script, pre, step, *storage);
        script = script.push(step);
    }
    if result.is_ok() {
        assert(ran(pre, script, *storage));
        return NODE_ACK_SUCCESS;
    }
    if let ProvisionedBoardLayout::Provided(_) = layout {
        if let Some(p) = previous {
            let ghost here = *storage;
            let result = storage.write_board_layout(&p);
            proof {
                let step = Step { op: (StorageOp::WriteBoardLayout { layout: p }), result };
                lemma_ran_push(pre, script, here, step, *storage);
                script = script.push(step);
            }
        }
    }
    let ghost here = *storage;
    let result = storage.erase_key();
    proof {
        let step = Step { op: StorageOp::EraseKey, result };
        lemma_ran_push(pre, script, here, step, *storage);
        script = script.push(step);
    }
    let ghost here = *storage;
    let result = storage.erase_peer_payload();
    proof {
        let step = Step { op: StorageOp::ErasePeerPayload, result };
        lemma_ran_push(pre, script, here, step, *storage);
        script = script.push(step);
        assert(ran(pre, script, *storage));
        assert(regardless(
            layout_rollback_ops(layout, pre.holds().board_layout),
            script.drop_first(),
        ));
    }
    NODE_ACK_STORAGE_ERROR
}

/// What faithful storage holds once a provision is stored.
pub open spec fn provisioned(stored: Stored, provision: Provision) -> Stored {
    Stored {
        key: Some((provision.key_hint, provision.psk)),
        channel: Some(provision.rf_channel),
        peer_payload: Some(provision.encrypted_payload),
        reg_complete: false,
        board_layout: match layout_to_write(provision.board_layout, stored.board_layout) {
            Some(layout) => Some(layout),
            None => stored.board_layout,
        },
        ..stored
    }
}

/// A stored provision is what storage then holds, and nothing else changes.
proof fn lemma_stored<S: PlatformStorage>(
    pre: S,
    provision: Provision,
    post: S,
    default_interval_s: u32,
)
    requires
        keeps_promises::<S>(default_interval_s),
        was_stored(pre, provision, post, NODE_ACK_SUCCESS),
    ensures
        post.holds() == provisioned(
            Stored { key: post.holds().key, ..pre.holds() },
            provision,
        ),
{
    let (head, mid) = choose|head: Seq<Step>, mid: S| #[trigger]
        ran(pre, head, mid) && was_stored_along(provision, head, mid, post, NODE_ACK_SUCCESS);
    let writes = head.drop_first();
    assert(writes.len() == 4);
    assert(writes.last() == head.last());
    assert forall|i: int| 0 <= i < 4 implies (#[trigger] writes[i]).result is Ok by {
        if i == 3 {
            assert(writes[3] == writes.last());
        }
    }
    // The states between the changes.
    let s4 = choose|s: S|
        ran(pre, head.drop_last(), s) && #[trigger] S::changed(
            s,
            head.last().op,
            mid,
            head.last().result,
        );
    let h4 = head.drop_last();
    let s3 = choose|s: S|
        ran(pre, h4.drop_last(), s) && #[trigger] S::changed(s, h4.last().op, s4, h4.last().result);
    let h3 = h4.drop_last();
    let s2 = choose|s: S|
        ran(pre, h3.drop_last(), s) && #[trigger] S::changed(s, h3.last().op, s3, h3.last().result);
    let h2 = h3.drop_last();
    let s1 = choose|s: S|
        ran(pre, h2.drop_last(), s) && #[trigger] S::changed(s, h2.last().op, s2, h2.last().result);
    let h1 = h2.drop_last();
    let s0 = choose|s: S|
        ran(pre, h1.drop_last(), s) && #[trigger] S::changed(s, h1.last().op, s1, h1.last().result);
    assert(h1.drop_last().len() == 0);
    assert(s0 == pre);
    assert(head.last() == writes[3] && h4.last() == writes[2] && h3.last() == writes[1]
        && h2.last() == writes[0] && h1.last() == head[0]);
    let erased = s1.holds();
    assert(erased == (Stored { key: erased.key, ..pre.holds() })) by {
        assert(S::changed(pre, StorageOp::EraseKey, s1, head[0].result));
        if head[0].result is Err {
            assert(erased.after(StorageOp::EraseKey, 0) == pre.holds().after(
                StorageOp::EraseKey,
                0,
            ));
            assert(erased.after(StorageOp::EraseKey, 0) == (Stored { key: None, ..erased }));
            assert(pre.holds().after(StorageOp::EraseKey, 0) == (Stored {
                key: None,
                ..pre.holds()
            }));
            let a = Stored { key: None, ..erased };
            let b = Stored { key: None, ..pre.holds() };
            assert(a == b);
            assert(Stored { key: erased.key, ..a } == erased);
            assert(Stored { key: erased.key, ..b } == Stored { key: erased.key, ..pre.holds() });
        }
    }
    assert(mid.holds().key == Some((provision.key_hint, provision.psk)));
    match layout_to_write(provision.board_layout, mid.holds().board_layout) {
        None => {},
        Some(layout) => {
            let script = choose|script: Seq<Step>| #[trigger]
                ran(mid, script, post) && script.len() > 0 && script[0].op == (
                StorageOp::WriteBoardLayout { layout }) && (if script[0].result is Ok {
                    script.len() == 1 && NODE_ACK_SUCCESS == NODE_ACK_SUCCESS
                } else {
                    regardless(
                        layout_rollback_ops(provision.board_layout, mid.holds().board_layout),
                        script.drop_first(),
                    ) && NODE_ACK_SUCCESS == NODE_ACK_STORAGE_ERROR
                });
            let s = choose|s: S|
                ran(mid, script.drop_last(), s) && #[trigger] S::changed(
                    s,
                    script.last().op,
                    post,
                    script.last().result,
                );
            assert(script.drop_last().len() == 0);
            assert(s == mid);
        },
    }
}

/// A NODE_PROVISION that is answered with success has stored everything that
/// it carries, and nothing else has changed: faithful storage then holds the
/// key, the channel, the payload and a board layout, and the node is not
/// registered yet.  Where the button was held, that is all that is left after
/// a factory reset, which also zeroes the maps.
pub proof fn law_provision_is_stored<S: PlatformStorage>(
    pre: S,
    maps: MapsView,
    provision: Provision,
    button_held: bool,
    paired_on_entry: bool,
    post: S,
    maps_after: MapsView,
    default_interval_s: u32,
)
    requires
        keeps_promises::<S>(default_interval_s),
        was_provisioned(
            pre,
            maps,
            provision,
            button_held,
            paired_on_entry,
            post,
            maps_after,
            NODE_ACK_SUCCESS,
        ),
    ensures
        post.holds() == provisioned(
            if button_held {
                factory_state(pre.holds(), default_interval_s)
            } else {
                pre.holds()
            },
            provision,
        ),
        post.holds().board_layout is Some,
        button_held ==> post.holds().program_a is None && post.holds().program_b is None,
        button_held ==> maps_after.maps == maps.maps.map_values(|m: MapContents| m.zeroed()),
        !button_held ==> maps_after == maps,
{
    if button_held {
        let (mid, result) = choose|mid: S, result: crate::node::error::NodeResult<()>| #[trigger]
            was_factory_reset(pre, maps, mid, maps_after, result) && match result {
                Ok(_) => was_stored(mid, provision, post, NODE_ACK_SUCCESS),
                Err(_) => post == mid && NODE_ACK_SUCCESS == NODE_ACK_STORAGE_ERROR,
            };
        assert(result is Ok);
        law_factory_reset_erases_everything(pre, maps, mid, maps_after, result, default_interval_s);
        lemma_stored(mid, provision, post, default_interval_s);
    } else {
        lemma_stored(pre, provision, post, default_interval_s);
    }
}

/// A node that was paired when it entered pairing mode, and whose button was
/// not held, refuses every NODE_PROVISION and changes nothing; no other node
/// gives that answer.
pub proof fn law_paired_node_refuses<S: PlatformStorage>(
    pre: S,
    maps: MapsView,
    provision: Provision,
    button_held: bool,
    paired_on_entry: bool,
    post: S,
    maps_after: MapsView,
    status: u8,
)
    requires
        was_provisioned(
            pre,
            maps,
            provision,
            button_held,
            paired_on_entry,
            post,
            maps_after,
            status,
        ),
    ensures
        status == NODE_ACK_ALREADY_PAIRED <==> (!button_held && paired_on_entry),
        status == NODE_ACK_ALREADY_PAIRED ==> post == pre && maps_after == maps,
{
    if button_held {
        let (mid, result) = choose|mid: S, result: crate::node::error::NodeResult<()>| #[trigger]
            was_factory_reset(pre, maps, mid, maps_after, result) && match result {
                Ok(_) => was_stored(mid, provision, post, status),
                Err(_) => post == mid && status == NODE_ACK_STORAGE_ERROR,
            };
        if result is Ok {
            lemma_stored_status(mid, provision, post, status);
        }
    } else if !paired_on_entry {
        lemma_stored_status(pre, provision, post, status);
    }
}

/// Storing a provision ends in success or in a storage error.
proof fn lemma_stored_status<S: PlatformStorage>(
    pre: S,
    provision: Provision,
    post: S,
    status: u8,
)
    requires
        was_stored(pre, provision, post, status),
    ensures
        status == NODE_ACK_SUCCESS || status == NODE_ACK_STORAGE_ERROR,
{
}

/// Storage in which a failed change changes nothing and credentials can always
/// be erased.
pub open spec fn fails_cleanly<S: PlatformStorage>(default_interval_s: u32) -> bool {
    &&& keeps_promises::<S>(default_interval_s)
    &&& forall|pre: S, op: StorageOp, post: S, result: crate::node::error::NodeResult<()>|
     #[trigger]
        S::changed(pre, op, post, result) ==> (result is Err ==> post.holds() == pre.holds() && op
            != StorageOp::EraseKey && op != StorageOp::ErasePeerPayload)
}

/// After a script in which the key was erased and not written again, there is
/// no key.
proof fn lemma_key_erased<S: PlatformStorage>(
    pre: S,
    script: Seq<Step>,
    post: S,
    default_interval_s: u32,
    at: int,
)
    requires
        fails_cleanly::<S>(default_interval_s),
        ran(pre, script, post),
        0 <= at < script.len(),
        script[at].op == StorageOp::EraseKey,
        forall|i: int|
            at < i < script.len() ==> !((#[trigger] script[i]).op is WriteKey)
                || script[i].result is Err,
    ensures
        post.holds().key is None,
    decreases script.len(),
{
    let rest = script.drop_last();
    let last = script.len() - 1;
    let mid = choose|mid: S|
        ran(pre, script.drop_last(), mid) && #[trigger] S::changed(
            mid,
            script.last().op,
            post,
            script.last().result,
        );
    assert(script.last() == script[last]);
    if at < last {
        assert(rest[at] == script[at]);
        assert forall|i: int| at < i < rest.len() implies !((#[trigger] rest[i]).op is WriteKey)
            || rest[i].result is Err by {
            assert(rest[i] == script[i]);
        }
        lemma_key_erased(pre, rest, mid, default_interval_s, at);
    }
}

/// After a script in which the payload was erased and not written again, there
/// is no payload.
proof fn lemma_payload_erased<S: PlatformStorage>(
    pre: S,
    script: Seq<Step>,
    post: S,
    default_interval_s: u32,
    at: int,
)
    requires
        fails_cleanly::<S>(default_interval_s),
        ran(pre, script, post),
        0 <= at < script.len(),
        script[at].op == StorageOp::ErasePeerPayload,
        forall|i: int| at < i < script.len() ==> !((#[trigger] script[i]).op is WritePeerPayload),
    ensures
        post.holds().peer_payload is None,
    decreases script.len(),
{
    let rest = script.drop_last();
    let last = script.len() - 1;
    let mid = choose|mid: S|
        ran(pre, script.drop_last(), mid) && #[trigger] S::changed(
            mid,
            script.last().op,
            post,
            script.last().result,
        );
    assert(script.last() == script[last]);
    if at < last {
        assert(rest[at] == script[at]);
        assert forall|i: int| at < i < rest.len() implies !((
        #[trigger] rest[i]).op is WritePeerPayload) by {
            assert(rest[i] == script[i]);
        }
        lemma_payload_erased(pre, rest, mid, default_interval_s, at);
    }
}

/// After a script that wrote no payload, the payload is what it was, or gone.
proof fn lemma_payload_kept_or_erased<S: PlatformStorage>(
    pre: S,
    script: Seq<Step>,
    post: S,
    default_interval_s: u32,
)
    requires
        fails_cleanly::<S>(default_interval_s),
        ran(pre, script, post),
        forall|i: int|
            0 <= i < script.len() ==> !((#[trigger] script[i]).op is WritePeerPayload)
                || script[i].result is Err,
    ensures
        post.holds().peer_payload is None || post.holds().peer_payload == pre.holds().peer_payload,
    decreases script.len(),
{
    if script.len() > 0 {
        let rest = script.drop_last();
        let last = script.len() - 1;
        let mid = choose|mid: S|
            ran(pre, script.drop_last(), mid) && #[trigger] S::changed(
                mid,
                script.last().op,
                post,
                script.last().result,
            );
        assert(script.last() == script[last]);
        assert forall|i: int| 0 <= i < rest.len() implies !((
        #[trigger] rest[i]).op is WritePeerPayload) || rest[i].result is Err by {
            assert(rest[i] == script[i]);
        }
        lemma_payload_kept_or_erased(pre, rest, mid, default_interval_s);
    }
}

/// A provision that could not be stored leaves no partial credentials where
/// failed changes change nothing and credentials can be erased: the node is
/// unpaired, and a payload that is left is the one that was there before.
pub proof fn law_failed_provision_leaves_no_key<S: PlatformStorage>(
    pre: S,
    maps: MapsView,
    provision: Provision,
    button_held: bool,
    paired_on_entry: bool,
    post: S,
    maps_after: MapsView,
    default_interval_s: u32,
)
    requires
        fails_cleanly::<S>(default_interval_s),
        was_provisioned(
            pre,
            maps,
            provision,
            button_held,
            paired_on_entry,
            post,
            maps_after,
            NODE_ACK_STORAGE_ERROR,
        ),
    ensures
        post.holds().key is None,
        post.holds().peer_payload is None || post.holds().peer_payload == pre.holds().peer_payload,
{
    if button_held {
        let (mid, result) = choose|mid: S, result: crate::node::error::NodeResult<()>| #[trigger]
            was_factory_reset(pre, maps, mid, maps_after, result) && match result {
                Ok(_) => was_stored(mid, provision, post, NODE_ACK_STORAGE_ERROR),
                Err(_) => post == mid && NODE_ACK_STORAGE_ERROR == NODE_ACK_STORAGE_ERROR,
            };
        let script = choose|script: Seq<Step>| #[trigger]
            ran(pre, script, mid) && until_failure(reset_ops(), script) && result == outcome(script)
                && maps_after == maps_after_reset(maps, script);
        assert(script[0].op == StorageOp::EraseKey);
        lemma_key_erased(pre, script, mid, default_interval_s, 0);
        lemma_payload_kept_or_erased(pre, script, mid, default_interval_s);
        if result is Ok {
            lemma_failed_store_leaves_no_key(mid, provision, post, default_interval_s);
        }
    } else {
        lemma_failed_store_leaves_no_key(pre, provision, post, default_interval_s);
    }
}

/// See `law_failed_provision_leaves_no_key`.
proof fn lemma_failed_store_leaves_no_key<S: PlatformStorage>(
    pre: S,
    provision: Provision,
    post: S,
    default_interval_s: u32,
)
    requires
        fails_cleanly::<S>(default_interval_s),
        was_stored(pre, provision, post, NODE_ACK_STORAGE_ERROR),
    ensures
        post.holds().key is None,
        post.holds().peer_payload is None || post.holds().peer_payload == pre.holds().peer_payload,
{
    let (head, mid) = choose|head: Seq<Step>, mid: S| #[trigger]
        ran(pre, head, mid) && was_stored_along(
            provision,
            head,
            mid,
            post,
            NODE_ACK_STORAGE_ERROR,
        );
    let writes = head.drop_first();
    assert(forall|i: int| 0 <= i < writes.len() ==> #[trigger] head[i + 1] == writes[i]);
    if head.len() > 3 {
        law_late_failure_leaves_no_credentials(
            pre,
            provision,
            head,
            mid,
            post,
            default_interval_s,
        );
    } else {
        let tail = choose|tail: Seq<Step>| #[trigger]
            ran(mid, tail, post) && regardless(rollback_ops(head.len() - 2), tail);
        assert(head.last() == head[head.len() - 1]);
        assert forall|i: int| 0 <= i < head.len() implies !((
        #[trigger] head[i]).op is WritePeerPayload) || head[i].result is Err by {
            if i > 0 {
                assert(head[i] == writes[i - 1]);
            }
        }
        lemma_payload_kept_or_erased(pre, head, mid, default_interval_s);
        if head.len() == 2 {
            assert(tail.len() == 0);
            lemma_key_erased(pre, head, mid, default_interval_s, 0);
        } else {
            assert(tail[0].op == StorageOp::EraseKey);
            lemma_key_erased(mid, tail, post, default_interval_s, 0);
            lemma_payload_kept_or_erased(mid, tail, post, default_interval_s);
        }
    }
}

/// Where the key and the payload had been written and a later write failed,
/// both are gone again.  `head` holds the attempt to erase a key and the writes
/// of the credentials that were made.
pub proof fn law_late_failure_leaves_no_credentials<S: PlatformStorage>(
    pre: S,
    provision: Provision,
    head: Seq<Step>,
    mid: S,
    post: S,
    default_interval_s: u32,
)
    requires
        fails_cleanly::<S>(default_interval_s),
        ran(pre, head, mid),
        was_stored_along(provision, head, mid, post, NODE_ACK_STORAGE_ERROR),
        head.len() > 3,
    ensures
        post.holds().key is None,
        post.holds().peer_payload is None,
{
    if head.last().result is Err {
        let tail = choose|tail: Seq<Step>| #[trigger]
            ran(mid, tail, post) && regardless(rollback_ops(head.len() - 2), tail);
        assert(tail[0].op == StorageOp::EraseKey);
        assert(tail[1].op == StorageOp::ErasePeerPayload);
        lemma_key_erased(mid, tail, post, default_interval_s, 0);
        lemma_payload_erased(mid, tail, post, default_interval_s, 1);
    } else {
        let layout = layout_to_write(provision.board_layout, mid.holds().board_layout)->0;
        let script = choose|script: Seq<Step>| #[trigger]
            ran(mid, script, post) && script.len() > 0 && script[0].op == (
            StorageOp::WriteBoardLayout { layout }) && (if script[0].result is Ok {
                script.len() == 1 && NODE_ACK_STORAGE_ERROR == NODE_ACK_SUCCESS
            } else {
                regardless(
                    layout_rollback_ops(provision.board_layout, mid.holds().board_layout),
                    script.drop_first(),
                ) && NODE_ACK_STORAGE_ERROR == NODE_ACK_STORAGE_ERROR
            });
        let undo = layout_rollback_ops(provision.board_layout, mid.holds().board_layout);
        let rest = script.drop_first();
        let at = undo.len() - 2;
        assert(undo[at] == StorageOp::EraseKey && undo[at + 1] == StorageOp::ErasePeerPayload);
        assert(rest[at].op == undo[at] && rest[at + 1].op == undo[at + 1]);
        assert(script[at + 1] == rest[at] && script[at + 2] == rest[at + 1]);
        lemma_key_erased(mid, script, post, default_interval_s, at + 1);
        lemma_payload_erased(mid, script, post, default_interval_s, at + 2);
    }
}

/// A message is its type, the length of its body with the high byte first, and
/// the body; only data of exactly that length is a message.
pub proof fn law_envelopes_announce_their_length(msg_type: u8, body: Seq<u8>, data: Seq<u8>)
    requires
        body.len() <= 0xffff,
    ensures
        envelope(msg_type, body).len() == 3 + body.len(),
        envelope(msg_type, body)[0] == msg_type,
        envelope(msg_type, body)[1] * 256 + envelope(msg_type, body)[2] == body.len(),
        is_envelope(data) <==> data.len() >= 3 && data[1] * 256 + data[2] + 3 == data.len(),
{
}

/// The acknowledgement of a provision is a message of type 0x81 with the status
/// as its only byte; no two statuses are alike.
pub proof fn law_acknowledgements_carry_the_status(status: u8)
    ensures
        envelope(BLE_MSG_NODE_ACK, seq![status]) == seq![0x81u8, 0u8, 1u8, status],
        NODE_ACK_SUCCESS == 0,
        NODE_ACK_ALREADY_PAIRED == 1,
        NODE_ACK_STORAGE_ERROR == 2,
        BLE_MSG_NODE_PROVISION == 1,
        BLE_MIN_ATT_MTU == 247,
{
    assert(envelope(BLE_MSG_NODE_ACK, seq![status]) =~= seq![0x81u8, 0u8, 1u8, status]);
}

/// The body of a NODE_PROVISION: the key hint, the key, the channel, the length
/// of the payload, the payload, and the bytes of a board layout, if any.
/// Numbers have their high byte first.
pub open spec fn provision_body(
    key_hint: u16,
    psk: Seq<u8>,
    rf_channel: u8,
    payload: Seq<u8>,
    layout: Seq<u8>,
) -> Seq<u8> {
    seq![(key_hint / 256) as u8, (key_hint % 256) as u8] + psk + seq![
        rf_channel,
        (payload.len() / 256) as u8,
        (payload.len() % 256) as u8,
    ] + payload + layout
}

/// What a phone puts into a NODE_PROVISION is what the node reads from it: the
/// same hint, key, channel and payload, and the same bytes of a board layout.
pub proof fn law_provision_is_read_as_written(
    key_hint: u16,
    psk: Seq<u8>,
    rf_channel: u8,
    payload: Seq<u8>,
    layout: Seq<u8>,
    decoded: ProvisionedBoardLayout,
)
    requires
        psk.len() == 32,
        1 <= rf_channel <= 13,
        payload.len() <= 202,
    ensures
        ({
            let body = provision_body(key_hint, psk, rf_channel, payload, layout);
            &&& header_error(body) is None
            &&& payload_len(body) == payload.len()
            &&& provision_of(body, decoded) == (Provision {
                key_hint,
                psk,
                rf_channel,
                encrypted_payload: payload,
                board_layout: decoded,
            })
            &&& has_layout(body) <==> layout.len() > 0
            &&& body.skip(37 + payload_len(body)) == layout
        }),
{
    let body = provision_body(key_hint, psk, rf_channel, payload, layout);
    assert(body[34] == rf_channel);
    assert(body[35] == payload.len() / 256);
    assert(body[36] == payload.len() % 256);
    assert(payload_len(body) == payload.len());
    assert(body.subrange(2, 34) =~= psk);
    assert(body.subrange(37, 37 + payload.len() as int) =~= payload);
    assert(body.skip(37 + payload_len(body)) =~= layout);
    assert(body[0] == key_hint / 256 && body[1] == key_hint % 256);
}

/// A body is read only where it is complete: 37 bytes and the announced payload,
/// a channel from 1 to 13, and a payload of at most 202 bytes.
pub proof fn law_malformed_provisions_are_refused(body: Seq<u8>)
    ensures
        header_error(body) is None <==> {
            &&& body.len() >= 37
            &&& 1 <= body[34] <= 13
            &&& body[35] * 256 + body[36] <= 202
            &&& body.len() >= 37 + (body[35] * 256 + body[36])
        },
        body.len() < 37 ==> header_error(body) == Some("body too short"),
        body.len() >= 37 && (body[34] == 0 || body[34] > 13) ==> header_error(body) == Some(
            "rf_channel out of range (must be 1–13)",
        ),
        body.len() >= 37 && 1 <= body[34] <= 13 && body[35] * 256 + body[36] > 202 ==> header_error(
            body,
        ) == Some("encrypted_payload too large"),
{
}

/// A board layout is only replaced by one that was provided: after a provision
/// without a board layout, faithful storage holds the layout that it held
/// before, and the legacy one (an I2C bus on pins 0 and 1 and nothing else) only
/// where it held none.
pub proof fn law_stored_layout_is_kept<S: PlatformStorage>(
    pre: S,
    maps: MapsView,
    provision: Provision,
    button_held: bool,
    paired_on_entry: bool,
    post: S,
    maps_after: MapsView,
    default_interval_s: u32,
)
    requires
        keeps_promises::<S>(default_interval_s),
        was_provisioned(
            pre,
            maps,
            provision,
            button_held,
            paired_on_entry,
            post,
            maps_after,
            NODE_ACK_SUCCESS,
        ),
    ensures
        provision.board_layout is Absent && pre.holds().board_layout is Some
            ==> post.holds().board_layout == pre.holds().board_layout,
        provision.board_layout is Absent && pre.holds().board_layout is None
            ==> post.holds().board_layout == Some(
            BoardLayout {
                i2c0_sda: Some(0),
                i2c0_scl: Some(1),
                one_wire_data: None,
                battery_adc: None,
                sensor_enable: None,
            },
        ),
        provision.board_layout matches ProvisionedBoardLayout::Provided(layout)
            ==> post.holds().board_layout == Some(layout),
{
    law_provision_is_stored(
        pre,
        maps,
        provision,
        button_held,
        paired_on_entry,
        post,
        maps_after,
        default_interval_s,
    );
}

/// After a provision that was answered with success, faithful storage holds the
/// key, the payload and the channel of the provision, and the node is to
/// register with its gateway.  Schedule and programs stay, unless the button was
/// held: then the programs are gone and the schedule is the default one.
pub proof fn law_provisioned_node_can_register<S: PlatformStorage>(
    pre: S,
    maps: MapsView,
    provision: Provision,
    button_held: bool,
    paired_on_entry: bool,
    post: S,
    maps_after: MapsView,
    default_interval_s: u32,
)
    requires
        keeps_promises::<S>(default_interval_s),
        was_provisioned(
            pre,
            maps,
            provision,
            button_held,
            paired_on_entry,
            post,
            maps_after,
            NODE_ACK_SUCCESS,
        ),
    ensures
        post.holds().key == Some((provision.key_hint, provision.psk)),
        post.holds().peer_payload == Some(provision.encrypted_payload),
        post.holds().channel == Some(provision.rf_channel),
        !post.holds().reg_complete,
        post.holds().early_wake == pre.holds().early_wake,
        post.holds().staged_test == pre.holds().staged_test,
        post.holds().test_result == pre.holds().test_result,
        !button_held ==> post.holds().interval_s == pre.holds().interval_s
            && post.holds().active_partition == pre.holds().active_partition
            && post.holds().program_a == pre.holds().program_a && post.holds().program_b
            == pre.holds().program_b,
        button_held ==> post.holds().interval_s == default_interval_s
            && post.holds().active_partition == 0 && post.holds().program_a is None
            && post.holds().program_b is None,
{
    law_provision_is_stored(
        pre,
        maps,
        provision,
        button_held,
        paired_on_entry,
        post,
        maps_after,
        default_interval_s,
    );
}

/// A provision succeeds where every change of storage does, unless the node was
/// paired and its button was not held.
pub proof fn law_provision_succeeds_where_storage_does<S: PlatformStorage>(
    pre: S,
    maps: MapsView,
    provision: Provision,
    button_held: bool,
    paired_on_entry: bool,
    post: S,
    maps_after: MapsView,
    status: u8,
)
    requires
        forall|s: S, op: StorageOp, t: S, r: crate::node::error::NodeResult<()>| #[trigger]
            S::changed(s, op, t, r) ==> r is Ok,
        was_provisioned(
            pre,
            maps,
            provision,
            button_held,
            paired_on_entry,
            post,
            maps_after,
            status,
        ),
    ensures
        status == (if paired_on_entry && !button_held {
            1u8
        } else {
            0u8
        }),
{
    if button_held {
        let (mid, result) = choose|mid: S, result: crate::node::error::NodeResult<()>| #[trigger]
            was_factory_reset(pre, maps, mid, maps_after, result) && match result {
                Ok(_) => was_stored(mid, provision, post, status),
                Err(_) => post == mid && status == NODE_ACK_STORAGE_ERROR,
            };
        let script = choose|script: Seq<Step>| #[trigger]
            ran(pre, script, mid) && until_failure(reset_ops(), script) && result == outcome(script)
                && maps_after == maps_after_reset(maps, script);
        lemma_nothing_failed(pre, script, mid);
        lemma_stores_where_storage_does(mid, provision, post, status);
    } else if !paired_on_entry {
        lemma_stores_where_storage_does(pre, provision, post, status);
    }
}

/// Where no change fails, none in a script has.
proof fn lemma_nothing_failed<S: PlatformStorage>(pre: S, script: Seq<Step>, post: S)
    requires
        forall|s: S, op: StorageOp, t: S, r: crate::node::error::NodeResult<()>| #[trigger]
            S::changed(s, op, t, r) ==> r is Ok,
        ran(pre, script, post),
    ensures
        script.len() > 0 ==> script.last().result is Ok,
        script.len() > 0 ==> script[0].result is Ok,
    decreases script.len(),
{
    if script.len() > 0 {
        let mid = choose|mid: S|
            ran(pre, script.drop_last(), mid) && #[trigger] S::changed(
                mid,
                script.last().op,
                post,
                script.last().result,
            );
        lemma_nothing_failed(pre, script.drop_last(), mid);
        if script.len() > 1 {
            assert(script.drop_last()[0] == script[0]);
        }
    }
}

/// See `law_provision_succeeds_where_storage_does`.
proof fn lemma_stores_where_storage_does<S: PlatformStorage>(
    pre: S,
    provision: Provision,
    post: S,
    status: u8,
)
    requires
        forall|s: S, op: StorageOp, t: S, r: crate::node::error::NodeResult<()>| #[trigger]
            S::changed(s, op, t, r) ==> r is Ok,
        was_stored(pre, provision, post, status),
    ensures
        status == NODE_ACK_SUCCESS,
{
    let (head, mid) = choose|head: Seq<Step>, mid: S| #[trigger]
        ran(pre, head, mid) && was_stored_along(provision, head, mid, post, status);
    lemma_nothing_failed(pre, head, mid);
    match layout_to_write(provision.board_layout, mid.holds().board_layout) {
        None => {},
        Some(l) => {
            let script = choose|script: Seq<Step>| #[trigger]
                ran(mid, script, post) && script.len() > 0 && script[0].op == (
                StorageOp::WriteBoardLayout { layout: l }) && (if script[0].result is Ok {
                    script.len() == 1 && status == NODE_ACK_SUCCESS
                } else {
                    regardless(
                        layout_rollback_ops(provision.board_layout, mid.holds().board_layout),
                        script.drop_first(),
                    ) && status == NODE_ACK_STORAGE_ERROR
                });
            lemma_nothing_failed(mid, script, post);
        },
    }
}

/// A board layout that a provided one was to replace is put back where that
/// could not be written: faithful storage in which the former layout can be
/// written holds it afterwards, even if the failed write has damaged it.
pub proof fn law_former_layout_is_put_back<S: PlatformStorage>(
    pre: S,
    layout: BoardLayout,
    former: BoardLayout,
    post: S,
    default_interval_s: u32,
)
    requires
        keeps_promises::<S>(default_interval_s),
        pre.holds().board_layout == Some(former),
        was_layout_stored(
            pre,
            ProvisionedBoardLayout::Provided(layout),
            post,
            NODE_ACK_STORAGE_ERROR,
        ),
        forall|s: S, t: S, r: crate::node::error::NodeResult<()>| #[trigger]
            S::changed(s, StorageOp::WriteBoardLayout { layout: former }, t, r) ==> r is Ok,
    ensures
        post.holds().board_layout == Some(former),
{
    let provided = ProvisionedBoardLayout::Provided(layout);
    let script = choose|script: Seq<Step>| #[trigger]
        ran(pre, script, post) && script.len() > 0 && script[0].op == (
        StorageOp::WriteBoardLayout { layout }) && (if script[0].result is Ok {
            script.len() == 1 && NODE_ACK_STORAGE_ERROR == NODE_ACK_SUCCESS
        } else {
            regardless(
                layout_rollback_ops(provided, pre.holds().board_layout),
                script.drop_first(),
            ) && NODE_ACK_STORAGE_ERROR == NODE_ACK_STORAGE_ERROR
        });
    let undo = layout_rollback_ops(provided, pre.holds().board_layout);
    let rest = script.drop_first();
    assert(rest[0].op == undo[0] && script[1] == rest[0]);
    assert(rest[1].op == undo[1] && script[2] == rest[1]);
    assert(rest[2].op == undo[2] && script[3] == rest[2]);
    assert(script.len() == 4);
    let s3 = choose|s: S|
        ran(pre, script.drop_last(), s) && #[trigger] S::changed(
            s,
            script.last().op,
            post,
            script.last().result,
        );
    let h3 = script.drop_last();
    let s2 = choose|s: S|
        ran(pre, h3.drop_last(), s) && #[trigger] S::changed(s, h3.last().op, s3, h3.last().result);
    let h2 = h3.drop_last();
    let s1 = choose|s: S|
        ran(pre, h2.drop_last(), s) && #[trigger] S::changed(s, h2.last().op, s2, h2.last().result);
    assert(h2.last() == script[1] && h3.last() == script[2] && script.last() == script[3]);
    assert(h2.last().result is Ok);
    assert(s2.holds().board_layout == Some(former));
    lemma_layout_untouched(s2, script[2], s3, default_interval_s);
    lemma_layout_untouched(s3, script[3], post, default_interval_s);
}

/// Erasing credentials does not touch the board layout.
proof fn lemma_layout_untouched<S: PlatformStorage>(
    pre: S,
    step: Step,
    post: S,
    default_interval_s: u32,
)
    requires
        keeps_promises::<S>(default_interval_s),
        S::changed(pre, step.op, post, step.result),
        step.op == StorageOp::EraseKey || step.op == StorageOp::ErasePeerPayload,
    ensures
        post.holds().board_layout == pre.holds().board_layout,
{
    if step.result is Err {
        assert(post.holds().after(step.op, 0) == pre.holds().after(step.op, 0));
        assert(post.holds().after(step.op, 0).board_layout == post.holds().board_layout);
        assert(pre.holds().after(step.op, 0).board_layout == pre.holds().board_layout);
    }
}

/// The channel is written last: a provision that brings no board layout and
/// could not be stored leaves the channel as it was, where failed changes change
/// nothing.
pub proof fn law_failed_provision_keeps_the_channel<S: PlatformStorage>(
    pre: S,
    maps: MapsView,
    provision: Provision,
    paired_on_entry: bool,
    post: S,
    maps_after: MapsView,
    default_interval_s: u32,
)
    requires
        fails_cleanly::<S>(default_interval_s),
        provision.board_layout is Absent,
        pre.holds().board_layout is Some,
        was_provisioned(
            pre,
            maps,
            provision,
            false,
            paired_on_entry,
            post,
            maps_after,
            NODE_ACK_STORAGE_ERROR,
        ),
    ensures
        post.holds().channel == pre.holds().channel,
        post.holds().board_layout == pre.holds().board_layout,
{
    let (head, mid) = choose|head: Seq<Step>, mid: S| #[trigger]
        ran(pre, head, mid) && was_stored_along(
            provision,
            head,
            mid,
            post,
            NODE_ACK_STORAGE_ERROR,
        );
    let writes = head.drop_first();
    let failed = head.len() > 1 && head.last().result is Err;
    assert forall|i: int| 0 <= i < head.len() implies keeps_channel_and_layout(#[trigger] head[i])
        || (i == 4 && !failed) by {
        if i > 0 {
            assert(head[i] == writes[i - 1]);
            if i == head.len() - 1 {
                assert(head[i] == head.last());
            }
        }
    }
    if failed {
        lemma_channel_and_layout_kept(pre, head, mid, default_interval_s);
        let tail = choose|tail: Seq<Step>| #[trigger]
            ran(mid, tail, post) && regardless(rollback_ops(head.len() - 2), tail);
        assert forall|i: int| 0 <= i < tail.len() implies keeps_channel_and_layout(
            #[trigger] tail[i],
        ) by {
        }
        lemma_channel_and_layout_kept(mid, tail, post, default_interval_s);
    } else {
        let before = head.drop_last();
        let s = choose|s: S|
            ran(pre, before, s) && #[trigger] S::changed(
                s,
                head.last().op,
                mid,
                head.last().result,
            );
        assert forall|i: int| 0 <= i < before.len() implies keeps_channel_and_layout(
            #[trigger] before[i],
        ) by {
            assert(before[i] == head[i]);
        }
        lemma_channel_and_layout_kept(pre, before, s, default_interval_s);
        assert(writes.len() == 4);
        assert(head.last() == writes[3]);
        assert(mid.holds().board_layout is Some);
    }
}

/// Whether a change leaves the channel and the board layout alone, for what it
/// is about or because it failed.
pub open spec fn keeps_channel_and_layout(step: Step) -> bool {
    step.result is Err || !(step.op is WriteChannel || step.op is WriteBoardLayout)
}

/// See `law_failed_provision_keeps_the_channel`.
proof fn lemma_channel_and_layout_kept<S: PlatformStorage>(
    pre: S,
    script: Seq<Step>,
    post: S,
    default_interval_s: u32,
)
    requires
        fails_cleanly::<S>(default_interval_s),
        ran(pre, script, post),
        forall|i: int| 0 <= i < script.len() ==> keeps_channel_and_layout(#[trigger] script[i]),
    ensures
        post.holds().channel == pre.holds().channel,
        post.holds().board_layout == pre.holds().board_layout,
    decreases script.len(),
{
    if script.len() > 0 {
        let rest = script.drop_last();
        let mid = choose|mid: S|
            ran(pre, rest, mid) && #[trigger] S::changed(
                mid,
                script.last().op,
                post,
                script.last().result,
            );
        assert(script.last() == script[script.len() - 1]);
        assert forall|i: int| 0 <= i < rest.len() implies keeps_channel_and_layout(
            #[trigger] rest[i],
        ) by {
            assert(rest[i] == script[i]);
        }
        lemma_channel_and_layout_kept(pre, rest, mid, default_interval_s);
    }
}

/// A provision stands for what it holds.
pub proof fn law_provisions_stand_for_themselves(provision: NodeProvision)
    ensures
        provision@.key_hint == provision.key_hint,
        provision@.psk == provision.psk@,
        provision@.rf_channel == provision.rf_channel,
        provision@.encrypted_payload == provision.encrypted_payload@,
        provision@.board_layout == provision.board_layout,
{
}

/// A node without a key can be provisioned: where nothing can be erased and
/// every write succeeds, the provision succeeds.
pub proof fn law_missing_key_stops_no_provision<S: PlatformStorage>(
    pre: S,
    maps: MapsView,
    provision: Provision,
    post: S,
    maps_after: MapsView,
    status: u8,
)
    requires
        forall|s: S, op: StorageOp, t: S, r: crate::node::error::NodeResult<()>| #[trigger]
            S::changed(s, op, t, r) ==> (r is Err <==> op is EraseKey),
        was_provisioned(pre, maps, provision, false, false, post, maps_after, status),
    ensures
        status == 0,
        maps_after == maps,
{
    let (head, mid) = choose|head: Seq<Step>, mid: S| #[trigger]
        ran(pre, head, mid) && was_stored_along(provision, head, mid, post, status);
    let writes = head.drop_first();
    if head.len() > 1 {
        let s = choose|s: S|
            ran(pre, head.drop_last(), s) && #[trigger] S::changed(
                s,
                head.last().op,
                mid,
                head.last().result,
            );
        assert(head.last() == writes.last());
        assert(writes.last() == writes[writes.len() - 1]);
        assert(!(head.last().op is EraseKey));
    }
    match layout_to_write(provision.board_layout, mid.holds().board_layout) {
        None => {},
        Some(l) => {
            let script = choose|script: Seq<Step>| #[trigger]
                ran(mid, script, post) && script.len() > 0 && script[0].op == (
                StorageOp::WriteBoardLayout { layout: l }) && (if script[0].result is Ok {
                    script.len() == 1 && status == NODE_ACK_SUCCESS
                } else {
                    regardless(
                        layout_rollback_ops(provision.board_layout, mid.holds().board_layout),
                        script.drop_first(),
                    ) && status == NODE_ACK_STORAGE_ERROR
                });
            lemma_first_step(mid, script, post);
        },
    }
}

/// The first change of a script starts from where the script does.
proof fn lemma_first_step<S: PlatformStorage>(pre: S, script: Seq<Step>, post: S)
    requires
        ran(pre, script, post),
        script.len() > 0,
    ensures
        exists|t: S| #[trigger] S::changed(pre, script[0].op, t, script[0].result),
    decreases script.len(),
{
    let mid = choose|mid: S|
        ran(pre, script.drop_last(), mid) && #[trigger] S::changed(
            mid,
            script.last().op,
            post,
            script.last().result,
        );
    if script.len() > 1 {
        assert(script.drop_last()[0] == script[0]);
        lemma_first_step(pre, script.drop_last(), mid);
    } else {
        assert(S::changed(pre, script[0].op, post, script[0].result));
    }
}

} // verus!
