//! How the node's persistent state maps to non-volatile storage.
//!
//! Non-volatile storage (NVS) holds numbers and blobs under fixed keys.  It is
//! accessed from outside: a read hands in what the keys hold, and a write
//! returns the steps to take, in order.  The first step that fails ends the
//! write with the step's own error.

use vstd::prelude::*;

use crate::bytes::copy_bytes;
use crate::node::ble_pairing::PEER_PAYLOAD_MAX_LEN;
use crate::node::error::{NodeError, NodeResult};
use crate::node::types::BoardLayout;

verus! {

/// Marks a complete key.
pub const MAGIC_VALUE: u32 = 0xDEAD_BEEF;

/// Default wake interval in seconds.
pub const DEFAULT_INTERVAL_S: u32 = 300;

/// Largest program image.
pub const MAX_PROGRAM_SIZE: usize = 4096;

/// Highest GPIO number of a legacy pin.
pub const MAX_GPIO: u32 = 21;

/// The keys of non-volatile storage.
#[derive(Clone, Copy, Debug, PartialEq, Eq, Structural)]
pub enum NvsKey {
    Psk,
    KeyHint,
    Magic,
    Interval,
    ActivePartition,
    ProgramA,
    ProgramB,
    Channel,
    PeerPayload,
    RegComplete,
    Layout,
    LegacySda,
    LegacyScl,
}

/// The name of a key.
pub open spec fn key_name(key: NvsKey) -> &'static str {
    match key {
        NvsKey::Psk => "psk",
        NvsKey::KeyHint => "key_hint",
        NvsKey::Magic => "magic",
        NvsKey::Interval => "interval",
        NvsKey::ActivePartition => "active_p",
        NvsKey::ProgramA => "prog_a",
        NvsKey::ProgramB => "prog_b",
        NvsKey::Channel => "channel",
        NvsKey::PeerPayload => "peer_payload",
        NvsKey::RegComplete => "reg_complete",
        NvsKey::Layout => "board_layout",
        NvsKey::LegacySda => "i2c0_sda",
        NvsKey::LegacyScl => "i2c0_scl",
    }
}

impl NvsKey {
    /// The name of the key.
    pub fn name(&self) -> (name: &'static str)
        ensures
            name == key_name(*self),
    {
        match self {
            NvsKey::Psk => "psk",
            NvsKey::KeyHint => "key_hint",
            NvsKey::Magic => "magic",
            NvsKey::Interval => "interval",
            NvsKey::ActivePartition => "active_p",
            NvsKey::ProgramA => "prog_a",
            NvsKey::ProgramB => "prog_b",
            NvsKey::Channel => "channel",
            NvsKey::PeerPayload => "peer_payload",
            NvsKey::RegComplete => "reg_complete",
            NvsKey::Layout => "board_layout",
            NvsKey::LegacySda => "i2c0_sda",
            NvsKey::LegacyScl => "i2c0_scl",
        }
    }
}

/// A change of non-volatile storage.
#[derive(Debug, PartialEq, Eq)]
pub enum NvsOp {
    SetNumber(NvsKey, u32),
    SetBlob(NvsKey, Vec<u8>),
    Remove(NvsKey),
}

/// A change, and the error where it fails.
#[derive(Debug, PartialEq, Eq)]
pub struct NvsStep {
    pub op: NvsOp,
    pub error: &'static str,
}

/// A step as mathematical values.
pub ghost enum NvsChange {
    SetNumber { key: NvsKey, value: u32 },
    SetBlob { key: NvsKey, data: Seq<u8> },
    Remove { key: NvsKey },
}

impl View for NvsStep {
    type V = (NvsChange, &'static str);

    open spec fn view(&self) -> (NvsChange, &'static str) {
        (
            match self.op {
                NvsOp::SetNumber(key, value) => NvsChange::SetNumber { key, value },
                NvsOp::SetBlob(key, data) => NvsChange::SetBlob { key, data: data@ },
                NvsOp::Remove(key) => NvsChange::Remove { key },
            },
            self.error,
        )
    }
}

/// Steps as mathematical values.
pub open spec fn steps_view(steps: Seq<NvsStep>) -> Seq<(NvsChange, &'static str)> {
    steps.map_values(|s: NvsStep| s@)
}

/// What non-volatile storage holds.
pub ghost struct Nvs {
    pub numbers: Map<NvsKey, u32>,
    pub blobs: Map<NvsKey, Seq<u8>>,
}

impl Nvs {
    /// The number under a key.
    pub open spec fn number(self, key: NvsKey) -> Option<u32> {
        if self.numbers.contains_key(key) {
            Some(self.numbers[key])
        } else {
            None
        }
    }

    /// The blob under a key.
    pub open spec fn blob(self, key: NvsKey) -> Option<Seq<u8>> {
        if self.blobs.contains_key(key) {
            Some(self.blobs[key])
        } else {
            None
        }
    }

    /// What is held after a change.
    pub open spec fn after(self, change: NvsChange) -> Nvs {
        match change {
            NvsChange::SetNumber { key, value } => Nvs {
                numbers: self.numbers.insert(key, value),
                ..self
            },
            NvsChange::SetBlob { key, data } => Nvs { blobs: self.blobs.insert(key, data), ..self },
            NvsChange::Remove { key } => Nvs {
                numbers: self.numbers.remove(key),
                blobs: self.blobs.remove(key),
            },
        }
    }

    /// What is held after all steps have succeeded.
    pub open spec fn after_steps(self, steps: Seq<(NvsChange, &'static str)>) -> Nvs
        decreases steps.len(),
    {
        if steps.len() == 0 {
            self
        } else {
            self.after(steps[0].0).after_steps(steps.drop_first())
        }
    }

    /// The stored key.
    pub open spec fn key(self) -> Option<(u16, Seq<u8>)> {
        key_from(self.number(NvsKey::Magic), self.number(NvsKey::KeyHint), self.blob(NvsKey::Psk))
    }
}

/// The key that the three entries of the key partition stand for: it is there
/// only if all of them are complete.
pub open spec fn key_from(
    magic: Option<u32>,
    key_hint: Option<u32>,
    psk: Option<Seq<u8>>,
) -> Option<(u16, Seq<u8>)> {
    match (magic, key_hint, psk) {
        (Some(m), Some(hint), Some(bytes)) => if m == MAGIC_VALUE && hint <= 0xffff && bytes.len()
            == 32 {
            Some((hint as u16, bytes))
        } else {
            None
        },
        _ => None,
    }
}

/// Decode the key partition.
pub fn decode_key(magic: Option<u32>, key_hint: Option<u32>, psk: Option<&[u8]>) -> (key: Option<
    (u16, [u8; 32]),
>)
    ensures
        match key {
            Some((hint, bytes)) => key_from(
                magic,
                key_hint,
                match psk {
                    Some(p) => Some(p@),
                    None => None,
                },
            ) == Some((hint, bytes@)),
            None => key_from(
                magic,
                key_hint,
                match psk {
                    Some(p) => Some(p@),
                    None => None,
                },
            ) is None,
        },
{
    match magic {
        Some(m) => if m != MAGIC_VALUE {
            return None;
        },
        None => {
            return None;
        },
    }
    let hint = match key_hint {
        Some(h) => if h > 0xffff {
            return None;
        } else {
            h as u16
        },
        None => {
            return None;
        },
    };
    let psk = match psk {
        Some(p) => p,
        None => {
            return None;
        },
    };
    if psk.len() != 32 {
        return None;
    }
    let mut bytes: [u8; 32] = [0u8; 32];
    let mut i: usize = 0;
    while i < 32
        invariant
            i <= 32,
            psk@.len() == 32,
            forall|j: int| 0 <= j < i ==> bytes@[j] == psk@[j],
        decreases 32 - i,
    {
        bytes[i] = psk[i];
        i = i + 1;
    }
    assert(bytes@ =~= psk@);
    Some((hint, bytes))
}

/// The steps that store a key; the marker that completes it comes last.
pub open spec fn key_steps(key_hint: u16, psk: Seq<u8>) -> Seq<(NvsChange, &'static str)> {
    seq![
        (NvsChange::SetBlob { key: NvsKey::Psk, data: psk }, "psk write failed"),
        (
            NvsChange::SetNumber { key: NvsKey::KeyHint, value: key_hint as u32 },
            "key_hint write failed",
        ),
        (NvsChange::SetNumber { key: NvsKey::Magic, value: MAGIC_VALUE }, "magic write failed"),
    ]
}

/// Store a key, unless one is stored.
pub fn write_key(paired: bool, key_hint: u16, psk: &[u8; 32]) -> (steps: NodeResult<Vec<NvsStep>>)
    ensures
        match steps {
            Ok(s) => !paired && steps_view(s@) == key_steps(key_hint, psk@),
            Err(error) => paired && error == NodeError::StorageError("already paired"),
        },
{
    if paired {
        return Err(NodeError::StorageError("already paired"));
    }
    let mut steps: Vec<NvsStep> = Vec::new();
    steps.push(
        NvsStep {
            op: NvsOp::SetBlob(NvsKey::Psk, copy_bytes(psk.as_slice())),
            error: "psk write failed",
        },
    );
    steps.push(
        NvsStep {
            op: NvsOp::SetNumber(NvsKey::KeyHint, key_hint as u32),
            error: "key_hint write failed",
        },
    );
    steps.push(
        NvsStep { op: NvsOp::SetNumber(NvsKey::Magic, MAGIC_VALUE), error: "magic write failed" },
    );
    assert(steps_view(steps@) =~= key_steps(key_hint, psk@));
    Ok(steps)
}

/// The steps that erase the key.
pub open spec fn erase_key_steps() -> Seq<(NvsChange, &'static str)> {
    seq![
        (NvsChange::Remove { key: NvsKey::Psk }, "erase psk failed"),
        (NvsChange::Remove { key: NvsKey::KeyHint }, "erase key_hint failed"),
        (NvsChange::Remove { key: NvsKey::Magic }, "erase magic failed"),
    ]
}

/// Erase the key.
pub fn erase_key() -> (steps: Vec<NvsStep>)
    ensures
        steps_view(steps@) == erase_key_steps(),
{
    let mut steps: Vec<NvsStep> = Vec::new();
    steps.push(NvsStep { op: NvsOp::Remove(NvsKey::Psk), error: "erase psk failed" });
    steps.push(NvsStep { op: NvsOp::Remove(NvsKey::KeyHint), error: "erase key_hint failed" });
    steps.push(NvsStep { op: NvsOp::Remove(NvsKey::Magic), error: "erase magic failed" });
    assert(steps_view(steps@) =~= erase_key_steps());
    steps
}

/// The wake interval and the active partition; each has a default.
pub fn decode_schedule(interval: Option<u32>, active: Option<u32>) -> (schedule: (u32, u8))
    ensures
        schedule.0 == (match interval {
            Some(i) => i,
            None => DEFAULT_INTERVAL_S,
        }),
        schedule.1 == (match active {
            Some(a) => if a >= 1 {
                1u8
            } else {
                0u8
            },
            None => 0u8,
        }),
{
    let interval_s: u32 = match interval {
        Some(i) => i,
        None => DEFAULT_INTERVAL_S,
    };
    let partition: u8 = match active {
        Some(a) => if a >= 1 {
            1
        } else {
            0
        },
        None => 0,
    };
    (interval_s, partition)
}

/// A single step that sets a number.
fn number_step(key: NvsKey, value: u32, error: &'static str) -> (steps: Vec<NvsStep>)
    ensures
        steps_view(steps@) == seq![(NvsChange::SetNumber { key, value }, error)],
{
    let mut steps: Vec<NvsStep> = Vec::new();
    steps.push(NvsStep { op: NvsOp::SetNumber(key, value), error });
    assert(steps_view(steps@) =~= seq![(NvsChange::SetNumber { key, value }, error)]);
    steps
}

/// Store the wake interval.
pub fn write_schedule_interval(interval_s: u32) -> (steps: Vec<NvsStep>)
    ensures
        steps_view(steps@) == seq![
            (
                NvsChange::SetNumber { key: NvsKey::Interval, value: interval_s },
                "interval write failed",
            ),
        ],
{
    number_step(NvsKey::Interval, interval_s, "interval write failed")
}

/// Store the active partition, which is the first or the second.
pub fn write_active_partition(partition: u8) -> (steps: NodeResult<Vec<NvsStep>>)
    ensures
        match steps {
            Ok(s) => partition <= 1 && steps_view(s@) == seq![
                (
                    NvsChange::SetNumber { key: NvsKey::ActivePartition, value: partition as u32 },
                    "active_p write failed",
                ),
            ],
            Err(error) => partition > 1 && error == NodeError::StorageError(
                "invalid active partition index (must be 0 or 1)",
            ),
        },
{
    if partition > 1 {
        return Err(NodeError::StorageError("invalid active partition index (must be 0 or 1)"));
    }
    Ok(number_step(NvsKey::ActivePartition, partition as u32, "active_p write failed"))
}

/// The steps that go back to the default schedule.
pub open spec fn reset_schedule_steps() -> Seq<(NvsChange, &'static str)> {
    seq![
        (
            NvsChange::SetNumber { key: NvsKey::Interval, value: DEFAULT_INTERVAL_S },
            "interval reset failed",
        ),
        (NvsChange::SetNumber { key: NvsKey::ActivePartition, value: 0 }, "active_p reset failed"),
    ]
}

/// Go back to the default schedule.
pub fn reset_schedule() -> (steps: Vec<NvsStep>)
    ensures
        steps_view(steps@) == reset_schedule_steps(),
{
    let mut steps: Vec<NvsStep> = Vec::new();
    steps.push(
        NvsStep {
            op: NvsOp::SetNumber(NvsKey::Interval, DEFAULT_INTERVAL_S),
            error: "interval reset failed",
        },
    );
    steps.push(
        NvsStep {
            op: NvsOp::SetNumber(NvsKey::ActivePartition, 0),
            error: "active_p reset failed",
        },
    );
    assert(steps_view(steps@) =~= reset_schedule_steps());
    steps
}

/// The key of a program partition.
pub open spec fn program_key_of(partition: u8) -> NvsKey {
    if partition == 0 {
        NvsKey::ProgramA
    } else {
        NvsKey::ProgramB
    }
}

/// The key of a program partition; there are two.
pub fn program_key(partition: u8) -> (key: Option<NvsKey>)
    ensures
        key == (if partition <= 1 {
            Some(program_key_of(partition))
        } else {
            None::<NvsKey>
        }),
{
    match partition {
        0 => Some(NvsKey::ProgramA),
        1 => Some(NvsKey::ProgramB),
        _ => None,
    }
}

/// Store a program image.
pub fn write_program(partition: u8, image: &[u8]) -> (steps: NodeResult<Vec<NvsStep>>)
    ensures
        match steps {
            Ok(s) => {
                &&& partition <= 1 && image@.len() <= MAX_PROGRAM_SIZE
                &&& steps_view(s@) == seq![
                    (
                        NvsChange::SetBlob { key: program_key_of(partition), data: image@ },
                        "program write failed",
                    ),
                ]
            },
            Err(error) => error == (if partition > 1 {
                NodeError::StorageError("invalid program partition index (must be 0 or 1)")
            } else {
                NodeError::StorageError("program image too large (max 4096 bytes)")
            }) && (partition > 1 || image@.len() > MAX_PROGRAM_SIZE),
        },
{
    let key = match program_key(partition) {
        Some(key) => key,
        None => {
            return Err(NodeError::StorageError("invalid program partition index (must be 0 or 1)"));
        },
    };
    if image.len() > MAX_PROGRAM_SIZE {
        return Err(NodeError::StorageError("program image too large (max 4096 bytes)"));
    }
    let mut steps: Vec<NvsStep> = Vec::new();
    steps.push(
        NvsStep { op: NvsOp::SetBlob(key, copy_bytes(image)), error: "program write failed" },
    );
    assert(steps_view(steps@) =~= seq![
        (
            NvsChange::SetBlob { key: program_key_of(partition), data: image@ },
            "program write failed",
        ),
    ]);
    Ok(steps)
}

/// Erase a program image.
pub fn erase_program(partition: u8) -> (steps: NodeResult<Vec<NvsStep>>)
    ensures
        match steps {
            Ok(s) => partition <= 1 && steps_view(s@) == seq![
                (
                    NvsChange::Remove { key: program_key_of(partition) },
                    "program erase failed",
                ),
            ],
            Err(error) => partition > 1 && error == NodeError::StorageError(
                "invalid program partition index (must be 0 or 1)",
            ),
        },
{
    let key = match program_key(partition) {
        Some(key) => key,
        None => {
            return Err(NodeError::StorageError("invalid program partition index (must be 0 or 1)"));
        },
    };
    let mut steps: Vec<NvsStep> = Vec::new();
    steps.push(NvsStep { op: NvsOp::Remove(key), error: "program erase failed" });
    assert(steps_view(steps@) =~= seq![
        (NvsChange::Remove { key: program_key_of(partition) }, "program erase failed"),
    ]);
    Ok(steps)
}

/// The channel that a stored number stands for: one from 1 to 13.
pub open spec fn channel_from(stored: Option<u32>) -> Option<u8> {
    match stored {
        Some(ch) => if 1 <= ch <= 13 {
            Some(ch as u8)
        } else {
            None
        },
        None => None,
    }
}

/// Decode the stored channel.
pub fn decode_channel(stored: Option<u32>) -> (channel: Option<u8>)
    ensures
        channel == channel_from(stored),
{
    match stored {
        Some(ch) => if ch >= 1 && ch <= 13 {
            Some(ch as u8)
        } else {
            None
        },
        None => None,
    }
}

/// Store a channel from 1 to 13.
pub fn write_channel(channel: u8) -> (steps: NodeResult<Vec<NvsStep>>)
    ensures
        match steps {
            Ok(s) => 1 <= channel <= 13 && steps_view(s@) == seq![
                (
                    NvsChange::SetNumber { key: NvsKey::Channel, value: channel as u32 },
                    "channel write failed",
                ),
            ],
            Err(error) => !(1 <= channel <= 13) && error == NodeError::StorageError(
                "invalid WiFi channel (must be 1-13)",
            ),
        },
{
    if channel < 1 || channel > 13 {
        return Err(NodeError::StorageError("invalid WiFi channel (must be 1-13)"));
    }
    Ok(number_step(NvsKey::Channel, channel as u32, "channel write failed"))
}

/// Store the payload for the gateway.
pub fn write_peer_payload(payload: &[u8]) -> (steps: NodeResult<Vec<NvsStep>>)
    ensures
        match steps {
            Ok(s) => payload@.len() <= PEER_PAYLOAD_MAX_LEN && steps_view(s@) == seq![
                (
                    NvsChange::SetBlob { key: NvsKey::PeerPayload, data: payload@ },
                    "peer_payload write failed",
                ),
            ],
            Err(error) => payload@.len() > PEER_PAYLOAD_MAX_LEN && error
                == NodeError::StorageError(
                "peer_payload too large (max 202 bytes for PEER_REQUEST frame)",
            ),
        },
{
    if payload.len() > PEER_PAYLOAD_MAX_LEN {
        return Err(
            NodeError::StorageError("peer_payload too large (max 202 bytes for PEER_REQUEST frame)"),
        );
    }
    let mut steps: Vec<NvsStep> = Vec::new();
    steps.push(
        NvsStep {
            op: NvsOp::SetBlob(NvsKey::PeerPayload, copy_bytes(payload)),
            error: "peer_payload write failed",
        },
    );
    assert(steps_view(steps@) =~= seq![
        (
            NvsChange::SetBlob { key: NvsKey::PeerPayload, data: payload@ },
            "peer_payload write failed",
        ),
    ]);
    Ok(steps)
}

/// The result of erasing the payload: a payload that was not there in the
/// first place counts as erased.
pub fn peer_payload_erased(removed: bool, still_there: bool) -> (result: NodeResult<()>)
    ensures
        result == (if removed || !still_there {
            Ok::<(), NodeError>(())
        } else {
            Err(NodeError::StorageError("peer_payload erase failed"))
        }),
{
    if removed || !still_there {
        Ok(())
    } else {
        Err(NodeError::StorageError("peer_payload erase failed"))
    }
}

/// Whether the node is registered; it is not where nothing is stored.
pub fn decode_reg_complete(stored: Option<u32>) -> (complete: bool)
    ensures
        complete == (stored matches Some(v) && v != 0),
{
    match stored {
        Some(v) => v != 0,
        None => false,
    }
}

/// Store whether the node is registered.
pub fn write_reg_complete(complete: bool) -> (steps: Vec<NvsStep>)
    ensures
        steps_view(steps@) == seq![
            (
                NvsChange::SetNumber {
                    key: NvsKey::RegComplete,
                    value: if complete {
                        1
                    } else {
                        0
                    },
                },
                "reg_complete write failed",
            ),
        ],
{
    let value: u32 = if complete {
        1
    } else {
        0
    };
    number_step(NvsKey::RegComplete, value, "reg_complete write failed")
}

/// The pin that a legacy entry stands for: a GPIO number.
pub open spec fn legacy_pin_from(stored: Option<u32>) -> Option<u8> {
    match stored {
        Some(v) => if v <= MAX_GPIO {
            Some(v as u8)
        } else {
            None
        },
        None => None,
    }
}

/// Decode a legacy pin.
pub fn legacy_pin(stored: Option<u32>) -> (pin: Option<u8>)
    ensures
        pin == legacy_pin_from(stored),
{
    match stored {
        Some(v) => if v <= MAX_GPIO {
            Some(v as u8)
        } else {
            None
        },
        None => None,
    }
}

/// The pins of the legacy I2C bus: where they are missing or equal, the first
/// two.
pub open spec fn legacy_pins_from(sda: Option<u32>, scl: Option<u32>) -> (u8, u8) {
    let data = match legacy_pin_from(sda) {
        Some(p) => p,
        None => 0u8,
    };
    let clock = match legacy_pin_from(scl) {
        Some(p) => p,
        None => 1u8,
    };
    if data == clock {
        (0u8, 1u8)
    } else {
        (data, clock)
    }
}

/// The pins of the legacy I2C bus.
pub fn legacy_i2c0_pins(sda: Option<u32>, scl: Option<u32>) -> (pins: (u8, u8))
    ensures
        pins == legacy_pins_from(sda, scl),
        pins.0 != pins.1,
{
    let data: u8 = match legacy_pin(sda) {
        Some(p) => p,
        None => 0,
    };
    let clock: u8 = match legacy_pin(scl) {
        Some(p) => p,
        None => 1,
    };
    if data == clock {
        return (0, 1);
    }
    (data, clock)
}

/// The board layout: the stored one, else one made of the legacy pins, where
/// there are any.  `decoded` is the stored layout; `None` if there is none or
/// it does not decode.
pub fn read_board_layout(decoded: Option<BoardLayout>, sda: Option<u32>, scl: Option<u32>) -> (layout:
    Option<BoardLayout>)
    ensures
        layout == (match decoded {
            Some(l) => Some(l),
            None => if sda is Some || scl is Some {
                Some(
                    BoardLayout {
                        i2c0_sda: Some(legacy_pins_from(sda, scl).0),
                        i2c0_scl: Some(legacy_pins_from(sda, scl).1),
                        one_wire_data: None,
                        battery_adc: None,
                        sensor_enable: None,
                    },
                )
            } else {
                None
            },
        }),
{
    if decoded.is_some() {
        return decoded;
    }
    if sda.is_some() || scl.is_some() {
        let (i2c0_sda, i2c0_scl) = legacy_i2c0_pins(sda, scl);
        return Some(
            BoardLayout {
                i2c0_sda: Some(i2c0_sda),
                i2c0_scl: Some(i2c0_scl),
                one_wire_data: None,
                battery_adc: None,
                sensor_enable: None,
            },
        );
    }
    None
}

/// The step that makes a legacy entry hold `pin`.
pub open spec fn legacy_pin_step(
    key: NvsKey,
    pin: Option<u8>,
    write_error: &'static str,
    erase_error: &'static str,
) -> (NvsChange, &'static str) {
    match pin {
        Some(p) => (NvsChange::SetNumber { key, value: p as u32 }, write_error),
        None => (NvsChange::Remove { key }, erase_error),
    }
}

/// The steps that make the legacy entries hold these pins.
pub open spec fn legacy_pin_steps(sda: Option<u8>, scl: Option<u8>) -> Seq<
    (NvsChange, &'static str),
> {
    seq![
        legacy_pin_step(
            NvsKey::LegacySda,
            sda,
            "legacy i2c0_sda write failed",
            "legacy i2c0_sda erase failed",
        ),
        legacy_pin_step(
            NvsKey::LegacyScl,
            scl,
            "legacy i2c0_scl write failed",
            "legacy i2c0_scl erase failed",
        ),
    ]
}

/// Make the legacy entries hold these pins.
pub fn restore_legacy_i2c0_pins(sda: Option<u8>, scl: Option<u8>) -> (steps: Vec<NvsStep>)
    ensures
        steps_view(steps@) == legacy_pin_steps(sda, scl),
{
    let mut steps: Vec<NvsStep> = Vec::new();
    push_pin_step(
        &mut steps,
        NvsKey::LegacySda,
        sda,
        "legacy i2c0_sda write failed",
        "legacy i2c0_sda erase failed",
    );
    push_pin_step(
        &mut steps,
        NvsKey::LegacyScl,
        scl,
        "legacy i2c0_scl write failed",
        "legacy i2c0_scl erase failed",
    );
    assert(steps_view(steps@) =~= legacy_pin_steps(sda, scl));
    steps
}

/// Append the step that makes a legacy entry hold `pin`.
fn push_pin_step(
    steps: &mut Vec<NvsStep>,
    key: NvsKey,
    pin: Option<u8>,
    write_error: &'static str,
    erase_error: &'static str,
)
    ensures
        steps_view(final(steps)@) == steps_view(old(steps)@).push(
            legacy_pin_step(key, pin, write_error, erase_error),
        ),
{
    let ghost before = steps@;
    match pin {
        Some(p) => {
            steps.push(NvsStep { op: NvsOp::SetNumber(key, p as u32), error: write_error });
        },
        None => {
            steps.push(NvsStep { op: NvsOp::Remove(key), error: erase_error });
        },
    }
    assert(steps_view(steps@) =~= steps_view(before).push(
        legacy_pin_step(key, pin, write_error, erase_error),
    ));
}

/// The step that makes the layout entry hold `blob`.
pub open spec fn layout_blob_step(blob: Option<Seq<u8>>) -> (NvsChange, &'static str) {
    match blob {
        Some(data) => (
            NvsChange::SetBlob { key: NvsKey::Layout, data },
            "board_layout rollback failed",
        ),
        None => (NvsChange::Remove { key: NvsKey::Layout }, "board_layout erase failed"),
    }
}

/// The steps that go back to a previous layout and previous legacy pins.
pub open spec fn layout_rollback(
    blob: Option<Seq<u8>>,
    sda: Option<u8>,
    scl: Option<u8>,
) -> Seq<(NvsChange, &'static str)> {
    seq![layout_blob_step(blob)] + legacy_pin_steps(sda, scl)
}

/// Go back to a previous layout and previous legacy pins.
pub fn rollback_board_layout_update(
    blob: Option<&[u8]>,
    sda: Option<u8>,
    scl: Option<u8>,
) -> (steps: Vec<NvsStep>)
    ensures
        steps_view(steps@) == layout_rollback(
            match blob {
                Some(b) => Some(b@),
                None => None,
            },
            sda,
            scl,
        ),
{
    let mut steps: Vec<NvsStep> = Vec::new();
    match blob {
        Some(b) => {
            steps.push(
                NvsStep {
                    op: NvsOp::SetBlob(NvsKey::Layout, copy_bytes(b)),
                    error: "board_layout rollback failed",
                },
            );
        },
        None => {
            steps.push(
                NvsStep { op: NvsOp::Remove(NvsKey::Layout), error: "board_layout erase failed" },
            );
        },
    }
    push_pin_step(
        &mut steps,
        NvsKey::LegacySda,
        sda,
        "legacy i2c0_sda write failed",
        "legacy i2c0_sda erase failed",
    );
    push_pin_step(
        &mut steps,
        NvsKey::LegacyScl,
        scl,
        "legacy i2c0_scl write failed",
        "legacy i2c0_scl erase failed",
    );
    assert(steps_view(steps@) =~= layout_rollback(
        match blob {
            Some(b) => Some(b@),
            None => None,
        },
        sda,
        scl,
    ));
    steps
}

/// The steps that store an encoded layout and its legacy pins.
pub open spec fn layout_steps(encoded: Seq<u8>, layout: BoardLayout) -> Seq<
    (NvsChange, &'static str),
> {
    seq![
        (
            NvsChange::SetBlob { key: NvsKey::Layout, data: encoded },
            "board_layout write failed",
        ),
    ] + legacy_pin_steps(layout.i2c0_sda, layout.i2c0_scl)
}

/// Store a layout; `encoded` is its encoded form, `None` if it cannot be
/// encoded.
pub fn write_board_layout(encoded: Option<&[u8]>, layout: &BoardLayout) -> (steps: NodeResult<
    Vec<NvsStep>,
>)
    ensures
        match steps {
            Ok(s) => encoded matches Some(e) && steps_view(s@) == layout_steps(e@, *layout),
            Err(error) => encoded is None && error == NodeError::StorageError(
                "board_layout encode failed",
            ),
        },
{
    match encoded {
        None => Err(NodeError::StorageError("board_layout encode failed")),
        Some(e) => {
            let mut steps: Vec<NvsStep> = Vec::new();
            steps.push(
                NvsStep {
                    op: NvsOp::SetBlob(NvsKey::Layout, copy_bytes(e)),
                    error: "board_layout write failed",
                },
            );
            push_pin_step(
                &mut steps,
                NvsKey::LegacySda,
                layout.i2c0_sda,
                "legacy i2c0_sda write failed",
                "legacy i2c0_sda erase failed",
            );
            push_pin_step(
                &mut steps,
                NvsKey::LegacyScl,
                layout.i2c0_scl,
                "legacy i2c0_scl write failed",
                "legacy i2c0_scl erase failed",
            );
            assert(steps_view(steps@) =~= layout_steps(e@, *layout));
            Ok(steps)
        },
    }
}

/// The result of storing a layout, where step number `failed_at` failed with
/// `error` and the previous state was then restored, or could not be.
///
/// A failed rollback is reported only where the layout itself had been
/// written.
pub fn board_layout_written(failed: Option<(usize, &'static str)>, rolled_back: bool) -> (result:
    NodeResult<()>)
    ensures
        result == (match failed {
            None => Ok::<(), NodeError>(()),
            Some((failed_at, error)) => if failed_at > 0 && !rolled_back {
                Err(NodeError::StorageError("board_layout rollback failed"))
            } else {
                Err(NodeError::StorageError(error))
            },
        }),
{
    match failed {
        None => Ok(()),
        Some((failed_at, error)) => if failed_at > 0 && !rolled_back {
            Err(NodeError::StorageError("board_layout rollback failed"))
        } else {
            Err(NodeError::StorageError(error))
        },
    }
}

/// A stored key is read back as it was.
pub proof fn law_key_round_trip(nvs: Nvs, key_hint: u16, psk: Seq<u8>)
    requires
        psk.len() == 32,
    ensures
        nvs.after_steps(key_steps(key_hint, psk)).key() == Some((key_hint, psk)),
{
    reveal_with_fuel(Nvs::after_steps, 4);
    let steps = key_steps(key_hint, psk);
    assert(steps.drop_first().drop_first().drop_first() =~= Seq::<
        (NvsChange, &'static str),
    >::empty());
}

/// A key that is written is there only once all steps have succeeded: where
/// none was complete before, none is after the first two steps either.
pub proof fn law_partial_key_is_no_key(nvs: Nvs, key_hint: u16, psk: Seq<u8>, done: int)
    requires
        nvs.number(NvsKey::Magic) != Some(MAGIC_VALUE),
        0 <= done < 3,
    ensures
        nvs.after_steps(key_steps(key_hint, psk).take(done)).key() is None,
{
    reveal_with_fuel(Nvs::after_steps, 4);
    let steps = key_steps(key_hint, psk).take(done);
    if done == 1 {
        assert(steps.drop_first() =~= Seq::<(NvsChange, &'static str)>::empty());
    } else if done == 2 {
        assert(steps.drop_first().drop_first() =~= Seq::<(NvsChange, &'static str)>::empty());
    }
}

/// After erasing, and already after its first step, there is no key.
pub proof fn law_erased_key_is_gone(nvs: Nvs, done: int)
    requires
        0 < done <= 3,
    ensures
        nvs.after_steps(erase_key_steps().take(done)).key() is None,
{
    reveal_with_fuel(Nvs::after_steps, 4);
    let steps = erase_key_steps().take(done);
    if done == 1 {
        assert(steps.drop_first() =~= Seq::<(NvsChange, &'static str)>::empty());
    } else if done == 2 {
        assert(steps.drop_first().drop_first() =~= Seq::<(NvsChange, &'static str)>::empty());
    } else {
        assert(steps.drop_first().drop_first().drop_first() =~= Seq::<
            (NvsChange, &'static str),
        >::empty());
    }
}

/// Rolling back restores the layout entry and the legacy pins, whatever steps
/// of an update had been taken.
pub proof fn law_rollback_restores(nvs: Nvs, blob: Option<Seq<u8>>, sda: Option<u8>, scl: Option<u8>)
    ensures
        ({
            let after = nvs.after_steps(layout_rollback(blob, sda, scl));
            &&& after.blob(NvsKey::Layout) == blob
            &&& after.number(NvsKey::LegacySda) == (match sda {
                Some(p) => Some(p as u32),
                None => None,
            })
            &&& after.number(NvsKey::LegacyScl) == (match scl {
                Some(p) => Some(p as u32),
                None => None,
            })
        }),
{
    reveal_with_fuel(Nvs::after_steps, 4);
    let steps = layout_rollback(blob, sda, scl);
    assert(steps[0] == layout_blob_step(blob));
    assert(steps.drop_first()[0] == legacy_pin_steps(sda, scl)[0]);
    assert(steps.drop_first().drop_first()[0] == legacy_pin_steps(sda, scl)[1]);
    assert(steps.drop_first().drop_first().drop_first() =~= Seq::<
        (NvsChange, &'static str),
    >::empty());
}

/// Entries are found under the same names by every version of the firmware.
pub proof fn law_entries_keep_their_names()
    ensures
        key_name(NvsKey::Psk) == "psk",
        key_name(NvsKey::KeyHint) == "key_hint",
        key_name(NvsKey::Magic) == "magic",
        key_name(NvsKey::Interval) == "interval",
        key_name(NvsKey::ActivePartition) == "active_p",
        key_name(NvsKey::ProgramA) == "prog_a",
        key_name(NvsKey::ProgramB) == "prog_b",
        key_name(NvsKey::Channel) == "channel",
        key_name(NvsKey::PeerPayload) == "peer_payload",
        key_name(NvsKey::RegComplete) == "reg_complete",
        key_name(NvsKey::Layout) == "board_layout",
        key_name(NvsKey::LegacySda) == "i2c0_sda",
        key_name(NvsKey::LegacyScl) == "i2c0_scl",
{
}

/// A key is read exactly where its marker, a hint of 16 bits and 32 bytes are
/// there, and it is that hint and those bytes.
pub proof fn law_only_complete_keys_are_read(
    magic: Option<u32>,
    key_hint: Option<u32>,
    psk: Option<Seq<u8>>,
)
    ensures
        key_from(magic, key_hint, psk) is Some <==> {
            &&& magic == Some(0xDEAD_BEEFu32)
            &&& key_hint is Some && key_hint->0 < 65536
            &&& psk is Some && psk->0.len() == 32
        },
        key_from(magic, key_hint, psk) matches Some((hint, bytes)) ==> key_hint == Some(hint as u32)
            && psk == Some(bytes),
{
}

/// Storing or erasing a key touches only the entries of the key.
pub proof fn law_keys_are_stored_apart(nvs: Nvs, key_hint: u16, psk: Seq<u8>, other: NvsKey)
    requires
        other != NvsKey::Psk,
        other != NvsKey::KeyHint,
        other != NvsKey::Magic,
    ensures
        nvs.after_steps(key_steps(key_hint, psk)).number(other) == nvs.number(other),
        nvs.after_steps(key_steps(key_hint, psk)).blob(other) == nvs.blob(other),
        nvs.after_steps(erase_key_steps()).number(other) == nvs.number(other),
        nvs.after_steps(erase_key_steps()).blob(other) == nvs.blob(other),
        nvs.after_steps(erase_key_steps()).blob(NvsKey::Psk) is None,
        nvs.after_steps(erase_key_steps()).number(NvsKey::KeyHint) is None,
        nvs.after_steps(erase_key_steps()).number(NvsKey::Magic) is None,
{
    reveal_with_fuel(Nvs::after_steps, 4);
    let store = key_steps(key_hint, psk);
    let erase = erase_key_steps();
    assert(store.drop_first().drop_first().drop_first() =~= Seq::<
        (NvsChange, &'static str),
    >::empty());
    assert(erase.drop_first().drop_first().drop_first() =~= Seq::<
        (NvsChange, &'static str),
    >::empty());
    assert(store.drop_first()[0] == store[1] && store.drop_first().drop_first()[0] == store[2]);
    assert(erase.drop_first()[0] == erase[1] && erase.drop_first().drop_first()[0] == erase[2]);
}

/// The default schedule is a wake every five minutes with the first partition
/// active, and resetting it touches nothing else.
pub proof fn law_default_schedule_is_restored(nvs: Nvs, other: NvsKey)
    ensures
        ({
            let after = nvs.after_steps(reset_schedule_steps());
            &&& after.number(NvsKey::Interval) == Some(300u32)
            &&& after.number(NvsKey::ActivePartition) == Some(0u32)
            &&& other != NvsKey::Interval && other != NvsKey::ActivePartition ==> after.number(
                other,
            ) == nvs.number(other)
            &&& after.blobs == nvs.blobs
        }),
        DEFAULT_INTERVAL_S == 300,
        MAX_PROGRAM_SIZE == 4096,
{
    reveal_with_fuel(Nvs::after_steps, 3);
    let steps = reset_schedule_steps();
    assert(steps.drop_first()[0] == steps[1]);
    assert(steps.drop_first().drop_first() =~= Seq::<(NvsChange, &'static str)>::empty());
}

/// The two partitions have entries of their own.
pub proof fn law_partitions_are_stored_apart()
    ensures
        program_key_of(0) == NvsKey::ProgramA,
        program_key_of(1) == NvsKey::ProgramB,
{
}

/// A stored channel is read back where it is one from 1 to 13; any other number
/// is no channel.
pub proof fn law_channels_are_read_back(stored: u32)
    ensures
        1 <= stored <= 13 ==> channel_from(Some(stored)) == Some(stored as u8),
        stored == 0 || stored > 13 ==> channel_from(Some(stored)) is None,
        channel_from(None) is None,
{
}

/// The pins of a legacy bus are two different GPIO numbers of at most 21: the
/// stored ones where they are, and pins 0 and 1 in place of missing, invalid or
/// equal ones.
pub proof fn law_legacy_pins_are_usable(sda: Option<u32>, scl: Option<u32>)
    ensures
        legacy_pins_from(sda, scl).0 != legacy_pins_from(sda, scl).1,
        legacy_pins_from(sda, scl).0 <= 21 && legacy_pins_from(sda, scl).1 <= 21,
        sda is Some && scl is Some && sda->0 <= 21 && scl->0 <= 21 && sda->0 != scl->0
            ==> legacy_pins_from(sda, scl) == (sda->0 as u8, scl->0 as u8),
        sda is Some && 21 >= sda->0 && sda->0 != 1 && (scl is None || scl->0 > 21)
            ==> legacy_pins_from(sda, scl) == (sda->0 as u8, 1u8),
        scl is Some && 21 >= scl->0 && scl->0 != 0 && (sda is None || sda->0 > 21)
            ==> legacy_pins_from(sda, scl) == (0u8, scl->0 as u8),
        sda is Some && sda == scl ==> legacy_pins_from(sda, scl) == (0u8, 1u8),
        (sda is None || sda->0 > 21) && (scl is None || scl->0 > 21) ==> legacy_pins_from(sda, scl)
            == (0u8, 1u8),
{
}

/// Storing a layout makes the layout entry hold its encoded form and the legacy
/// entries its bus pins, which an older firmware reads, and touches nothing
/// else; the legacy pins alone can be put back, too.
pub proof fn law_layouts_are_stored_with_legacy_pins(
    nvs: Nvs,
    encoded: Seq<u8>,
    layout: BoardLayout,
    other: NvsKey,
)
    ensures
        ({
            let after = nvs.after_steps(layout_steps(encoded, layout));
            &&& after.blob(NvsKey::Layout) == Some(encoded)
            &&& after.number(NvsKey::LegacySda) == (match layout.i2c0_sda {
                Some(p) => Some(p as u32),
                None => None,
            })
            &&& after.number(NvsKey::LegacyScl) == (match layout.i2c0_scl {
                Some(p) => Some(p as u32),
                None => None,
            })
            &&& other != NvsKey::Layout && other != NvsKey::LegacySda && other != NvsKey::LegacyScl
                ==> after.number(other) == nvs.number(other) && after.blob(other) == nvs.blob(other)
        }),
        ({
            let after = nvs.after_steps(legacy_pin_steps(layout.i2c0_sda, layout.i2c0_scl));
            &&& after.number(NvsKey::LegacySda) == (match layout.i2c0_sda {
                Some(p) => Some(p as u32),
                None => None,
            })
            &&& after.number(NvsKey::LegacyScl) == (match layout.i2c0_scl {
                Some(p) => Some(p as u32),
                None => None,
            })
            &&& after.blob(NvsKey::Layout) == nvs.blob(NvsKey::Layout)
        }),
{
    reveal_with_fuel(Nvs::after_steps, 4);
    let steps = layout_steps(encoded, layout);
    let pins = legacy_pin_steps(layout.i2c0_sda, layout.i2c0_scl);
    assert(steps[0].0 == NvsChange::SetBlob { key: NvsKey::Layout, data: encoded });
    assert(steps.drop_first()[0] == pins[0]);
    assert(steps.drop_first().drop_first()[0] == pins[1]);
    assert(steps.drop_first().drop_first().drop_first() =~= Seq::<
        (NvsChange, &'static str),
    >::empty());
    assert(pins.drop_first()[0] == pins[1]);
    assert(pins.drop_first().drop_first() =~= Seq::<(NvsChange, &'static str)>::empty());
}

/// A step stands for its change and its error, and steps for themselves in
/// order.
pub proof fn law_steps_stand_for_themselves(steps: Seq<NvsStep>, i: int)
    requires
        0 <= i < steps.len(),
    ensures
        steps_view(steps).len() == steps.len(),
        steps_view(steps)[i].1 == steps[i].error,
        steps[i].op matches NvsOp::SetNumber(key, value) ==> steps_view(steps)[i].0 == (
        NvsChange::SetNumber { key, value }),
        steps[i].op matches NvsOp::SetBlob(key, data) ==> steps_view(steps)[i].0 == (
        NvsChange::SetBlob { key, data: data@ }),
        steps[i].op matches NvsOp::Remove(key) ==> steps_view(steps)[i].0 == (NvsChange::Remove {
            key,
        }),
{
}

} // verus!
