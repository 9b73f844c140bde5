//! The sensor node: pairing, storage, boot decisions, radio transport and the
//! helpers of its BPF programs.

pub mod async_queue;
pub mod ble_pairing;
pub mod ble_session;
pub mod board_layout;
pub mod boot;
pub mod bpf_dispatch;
pub mod bpf_helpers;
pub mod bpf_memory;
pub mod bpf_runtime;
pub mod crypto;
pub mod error;
pub mod esp_hal;
pub mod hal;
pub mod helper_ids;
pub mod key_store;
pub mod map_storage;
pub mod nvs_storage;
pub mod pairing_serial;
pub mod retained;
pub mod script;
pub mod sleep;
pub mod test_mode;
pub mod traits;
pub mod transport;
pub mod types;
