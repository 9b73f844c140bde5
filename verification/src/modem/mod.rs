//! The radio modem: bridges a USB serial link, an ESP-NOW radio and a BLE
//! pairing service.  The modem relays opaque frames; it does not interpret
//! what it forwards.

pub mod ble;
pub mod bridge;
pub mod button;
pub mod display;
pub mod espnow;
pub mod message;
pub mod peer_table;
pub mod status;
pub mod usb_cdc;
