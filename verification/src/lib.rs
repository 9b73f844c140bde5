//! Verified logic of a low-power sensor network: the USB/ESP-NOW/BLE radio
//! modem (`modem`) and the battery-powered sensor node (`node`).

pub mod bytes;
pub mod i2c;
pub mod modem;
pub mod node;
pub mod text;
