//! Call numbers of the BPF helpers.  They are part of the firmware's interface
//! and do not change between versions.

use vstd::prelude::*;

verus! {

pub const I2C_READ: u32 = 1;

pub const I2C_WRITE: u32 = 2;

pub const I2C_WRITE_READ: u32 = 3;

pub const SPI_TRANSFER: u32 = 4;

pub const GPIO_READ: u32 = 5;

pub const GPIO_WRITE: u32 = 6;

pub const ADC_READ: u32 = 7;

pub const SEND: u32 = 8;

pub const SEND_RECV: u32 = 9;

pub const MAP_LOOKUP_ELEM: u32 = 10;

pub const MAP_UPDATE_ELEM: u32 = 11;

pub const GET_TIME: u32 = 12;

pub const GET_BATTERY_MV: u32 = 13;

pub const DELAY_US: u32 = 14;

pub const SET_NEXT_WAKE: u32 = 15;

pub const BPF_TRACE_PRINTK: u32 = 16;

pub const SEND_ASYNC: u32 = 17;

} // verus!
