//! The board layout that is kept in sleep-retained memory.

use vstd::prelude::*;

use crate::node::types::BoardLayout;

verus! {

/// Marks a record that was written by this firmware.
pub const RTC_LAYOUT_MAGIC: u32 = 0x534C_5954;

/// A board layout in sleep-retained memory; a pin that is not provided is
/// stored as a negative number.
#[derive(Clone, Copy, Debug, PartialEq, Eq, Structural)]
pub struct RtcBoardLayout {
    pub magic: u32,
    pub i2c0_sda: i16,
    pub i2c0_scl: i16,
    pub one_wire_data: i16,
    pub battery_adc: i16,
    pub sensor_enable: i16,
}

/// The stored form of a pin.
pub open spec fn pin_code(pin: Option<u8>) -> i16 {
    match pin {
        Some(p) => p as i16,
        None => (-1) as i16,
    }
}

/// The pin that a stored form stands for.
pub open spec fn pin_of(code: i16) -> Option<u8> {
    if code < 0 {
        None
    } else {
        Some((code as int % 256) as u8)
    }
}

/// Encode a pin for storage.
pub fn encode_pin(pin: Option<u8>) -> (code: i16)
    ensures
        code == pin_code(pin),
{
    match pin {
        Some(p) => p as i16,
        None => -1,
    }
}

/// Decode a stored pin.
pub fn decode_pin(code: i16) -> (pin: Option<u8>)
    ensures
        pin == pin_of(code),
{
    if code < 0 {
        None
    } else {
        Some((code % 256) as u8)
    }
}

/// The record that stages `layout`.
pub open spec fn staged_layout(layout: BoardLayout) -> RtcBoardLayout {
    RtcBoardLayout {
        magic: RTC_LAYOUT_MAGIC,
        i2c0_sda: pin_code(layout.i2c0_sda),
        i2c0_scl: pin_code(layout.i2c0_scl),
        one_wire_data: pin_code(layout.one_wire_data),
        battery_adc: pin_code(layout.battery_adc),
        sensor_enable: pin_code(layout.sensor_enable),
    }
}

/// The layout that a record holds, if it is one of this firmware's.
pub open spec fn layout_of(record: RtcBoardLayout) -> Option<BoardLayout> {
    if record.magic != RTC_LAYOUT_MAGIC {
        None
    } else {
        Some(
            BoardLayout {
                i2c0_sda: pin_of(record.i2c0_sda),
                i2c0_scl: pin_of(record.i2c0_scl),
                one_wire_data: pin_of(record.one_wire_data),
                battery_adc: pin_of(record.battery_adc),
                sensor_enable: pin_of(record.sensor_enable),
            },
        )
    }
}

impl RtcBoardLayout {
    /// A record that holds no layout: without the marker, and without pins.
    pub fn empty() -> (record: RtcBoardLayout)
        ensures
            record == (RtcBoardLayout {
                magic: 0,
                i2c0_sda: pin_code(None),
                i2c0_scl: pin_code(None),
                one_wire_data: pin_code(None),
                battery_adc: pin_code(None),
                sensor_enable: pin_code(None),
            }),
            layout_of(record) is None,
    {
        RtcBoardLayout {
            magic: 0,
            i2c0_sda: -1,
            i2c0_scl: -1,
            one_wire_data: -1,
            battery_adc: -1,
            sensor_enable: -1,
        }
    }
}

/// Keep `layout` for the current wake cycle.
pub fn stage_runtime_board_layout(record: &mut RtcBoardLayout, layout: &BoardLayout)
    ensures
        *final(record) == staged_layout(*layout),
{
    record.magic = RTC_LAYOUT_MAGIC;
    record.i2c0_sda = encode_pin(layout.i2c0_sda);
    record.i2c0_scl = encode_pin(layout.i2c0_scl);
    record.one_wire_data = encode_pin(layout.one_wire_data);
    record.battery_adc = encode_pin(layout.battery_adc);
    record.sensor_enable = encode_pin(layout.sensor_enable);
}

/// The layout kept for the current wake cycle, if any.
pub fn runtime_board_layout(record: &RtcBoardLayout) -> (layout: Option<BoardLayout>)
    ensures
        layout == layout_of(*record),
{
    if record.magic != RTC_LAYOUT_MAGIC {
        return None;
    }
    Some(
        BoardLayout {
            i2c0_sda: decode_pin(record.i2c0_sda),
            i2c0_scl: decode_pin(record.i2c0_scl),
            one_wire_data: decode_pin(record.one_wire_data),
            battery_adc: decode_pin(record.battery_adc),
            sensor_enable: decode_pin(record.sensor_enable),
        },
    )
}

/// A staged layout is read back as it was.
pub proof fn law_staged_layout_round_trip(layout: BoardLayout)
    ensures
        layout_of(staged_layout(layout)) == Some(layout),
{
}

/// A stored pin is read back as it was.
pub proof fn law_pin_round_trip(pin: Option<u8>)
    ensures
        pin_of(pin_code(pin)) == pin,
{
}

/// A pin is stored as its number, and a missing one as a negative number, which
/// no pin has; a record without the marker holds no layout.
pub proof fn law_pins_are_stored_as_numbers(pin: u8, code: i16, record: RtcBoardLayout)
    ensures
        pin_code(Some(pin)) == pin,
        pin_code(None) == -1,
        code < 0 ==> pin_of(code) is None,
        0 <= code < 256 ==> pin_of(code) == Some(code as u8),
        layout_of(record) is Some <==> record.magic == 0x534C_5954,
{
}

/// Every pin of a layout has its own place in the record.
pub proof fn law_pins_are_stored_in_place(layout: BoardLayout)
    ensures
        staged_layout(layout).i2c0_sda == pin_code(layout.i2c0_sda),
        staged_layout(layout).i2c0_scl == pin_code(layout.i2c0_scl),
        staged_layout(layout).one_wire_data == pin_code(layout.one_wire_data),
        staged_layout(layout).battery_adc == pin_code(layout.battery_adc),
        staged_layout(layout).sensor_enable == pin_code(layout.sensor_enable),
        staged_layout(layout).magic == 0x534C_5954,
{
}

} // verus!
