//! The helpers that BPF programs call.

use sonde::node::async_queue::{AsyncQueue, MAX_BLOB_SIZE};
use sonde::node::bpf_dispatch::{
    clear, helper_adc_read, helper_bpf_trace_printk, helper_delay_us, helper_get_battery_mv,
    helper_get_time, helper_gpio_read, helper_gpio_write, helper_i2c_read, helper_i2c_write,
    helper_i2c_write_read, helper_map_lookup_elem, helper_map_update_elem, helper_send,
    helper_send_async, helper_send_recv, helper_set_next_wake, helper_spi_transfer, install,
    log_helper_call, register_all, send_done, send_recv_done, DispatchGuard, Dispatcher,
    MapPtrIndex, MapPtrInsertError, SendRecvOutcome, SendRequest, MAX_DELAY_US, MAX_MAPS,
    MAX_TRACE_ENTRIES, SEND_RECV_TIMEOUT_MS,
};
use sonde::node::bpf_helpers::ProgramClass;
use sonde::node::bpf_memory::{BpfMemory, MemRegion};
use sonde::node::bpf_runtime::{BpfError, BpfInterpreter, Helper};
use sonde::node::hal::{i2c_handle, spi_handle, Hal};
use sonde::node::key_store::NodeIdentity;
use sonde::node::map_storage::{MapDef, MapStorage};
use sonde::node::sleep::{SleepManager, WakeReason};
use sonde::node::traits::Clock;

struct TestHal {
    i2c_read_data: Vec<u8>,
    i2c_written: Vec<Vec<u8>>,
    i2c_return: i32,
    gpio_states: [i32; 32],
    adc_values: [i32; 8],
}

impl TestHal {
    fn new() -> Self {
        TestHal {
            i2c_read_data: Vec::new(),
            i2c_written: Vec::new(),
            i2c_return: 0,
            gpio_states: [0; 32],
            adc_values: [0; 8],
        }
    }

    fn fill(&self, buf: &mut [u8]) -> i32 {
        if self.i2c_return != 0 {
            return self.i2c_return;
        }
        let copy_len = buf.len().min(self.i2c_read_data.len());
        buf[..copy_len].copy_from_slice(&self.i2c_read_data[..copy_len]);
        0
    }
}

impl Hal for TestHal {
    fn i2c_read(&mut self, _handle: u32, buf: &mut [u8]) -> i32 {
        self.fill(buf)
    }

    fn i2c_write(&mut self, _handle: u32, data: &[u8]) -> i32 {
        self.i2c_written.push(data.to_vec());
        self.i2c_return
    }

    fn i2c_write_read(&mut self, _handle: u32, write_data: &[u8], read_buf: &mut [u8]) -> i32 {
        self.i2c_written.push(write_data.to_vec());
        self.fill(read_buf)
    }

    fn spi_transfer(&mut self, _handle: u32, buf: &mut [u8]) -> i32 {
        // Received bytes are the sent ones with all bits flipped.
        for b in buf.iter_mut() {
            *b ^= 0xFF;
        }
        0
    }

    fn gpio_read(&mut self, pin: u32) -> i32 {
        self.gpio_states.get(pin as usize).copied().unwrap_or(-1)
    }

    fn gpio_write(&mut self, pin: u32, value: u32) -> i32 {
        if let Some(slot) = self.gpio_states.get_mut(pin as usize) {
            *slot = value as i32;
            0
        } else {
            -1
        }
    }

    fn adc_read(&mut self, channel: u32) -> i32 {
        self.adc_values.get(channel as usize).copied().unwrap_or(-1)
    }
}

struct TestClock {
    elapsed_ms: u64,
    delays_us: Vec<u32>,
}

impl Clock for TestClock {
    fn elapsed_ms(&mut self) -> u64 {
        self.elapsed_ms
    }

    fn delay_ms(&mut self, _ms: u32) {}

    fn delay_us(&mut self, us: u32) {
        self.delays_us.push(us);
    }
}

fn default_identity() -> NodeIdentity {
    NodeIdentity {
        key_hint: 1,
        psk: [0xAA; 32],
    }
}

/// What a test wants to find in the context.
struct Setup {
    hal: TestHal,
    elapsed_ms: u64,
    maps: MapStorage,
    map_pointers: Vec<u64>,
    base_interval_s: u32,
    class: ProgramClass,
    queue: AsyncQueue,
    seq: u64,
}

impl Setup {
    fn new() -> Self {
        Setup {
            hal: TestHal::new(),
            elapsed_ms: 0,
            maps: MapStorage::new(4096),
            map_pointers: Vec::new(),
            base_interval_s: 60,
            class: ProgramClass::Resident,
            queue: AsyncQueue::new(),
            seq: 0,
        }
    }

    fn ephemeral() -> Self {
        Setup {
            class: ProgramClass::Ephemeral,
            ..Setup::new()
        }
    }

    fn with_map(mut self) -> Self {
        self.maps
            .allocate(&[MapDef {
                map_type: 1,
                key_size: 4,
                value_size: 4,
                max_entries: 4,
            }])
            .unwrap();
        self.map_pointers = vec![MAP_PTR];
        self
    }

    fn install(self) -> Dispatcher<TestHal, TestClock> {
        let mut dispatcher = Dispatcher::new();
        install(
            &mut dispatcher,
            self.hal,
            TestClock {
                elapsed_ms: self.elapsed_ms,
                delays_us: Vec::new(),
            },
            self.maps,
            &self.map_pointers,
            SleepManager::new(self.base_interval_s, WakeReason::Scheduled),
            default_identity(),
            self.seq,
            self.class,
            Vec::new(),
            self.queue,
            1_710_000_000_000,
            100,
            3300,
        );
        dispatcher
    }
}

/// Where the buffers of a test lie in the program's memory.
const A: u64 = 0x1000;
const B: u64 = 0x2000;
const MAP_PTR: u64 = 0x8000;

fn memory(regions: &[(u64, &[u8])]) -> BpfMemory {
    BpfMemory {
        regions: regions
            .iter()
            .map(|(base, data)| MemRegion {
                base: *base,
                data: data.to_vec(),
            })
            .collect(),
    }
}

const FAILED: u64 = (-1i64) as u64;

#[test]
fn test_context_lifecycle() {
    let mut d = Setup {
        elapsed_ms: 1000,
        ..Setup::new()
    }
    .install();
    // 1_710_000_000_000 + (1000 - 100)
    assert_eq!(helper_get_time(&mut d, 0, 0, 0, 0, 0), 1_710_000_000_900);

    assert!(clear(&mut d).is_some());
    assert_eq!(helper_get_time(&mut d, 0, 0, 0, 0, 0), 0);
    assert!(clear(&mut d).is_none());
}

#[test]
fn test_helper_i2c_read() {
    let mut setup = Setup::new();
    setup.hal.i2c_read_data = vec![0x1A, 0x2B];
    let mut d = setup.install();
    let mut mem = memory(&[(A, &[0, 0])]);
    let handle = i2c_handle(0, 0x48);
    assert_eq!(helper_i2c_read(&mut d, &mut mem, handle as u64, A, 2, 0, 0), 0);
    assert_eq!(mem.read(A, 2), Some(vec![0x1A, 0x2B]));
}

#[test]
fn test_helper_i2c_error() {
    let mut setup = Setup::new();
    setup.hal.i2c_return = -1;
    let mut d = setup.install();
    let mut mem = memory(&[(A, &[0, 0])]);
    let result = helper_i2c_read(&mut d, &mut mem, 0x0048, A, 2, 0, 0);
    assert_eq!(result as i64, -1);
}

#[test]
fn test_helper_i2c_write_read_rejects_zero_length() {
    let mut d = Setup::new().install();
    let mut mem = memory(&[(A, &[0x42; 2]), (B, &[0; 2])]);
    let handle = i2c_handle(0, 0x48) as u64;

    let result = helper_i2c_write_read(&mut d, &mut mem, handle, A, 0, B, 2);
    assert_eq!(result as i64, -1, "zero write_len should be rejected");

    let result = helper_i2c_write_read(&mut d, &mut mem, handle, A, 2, B, 0);
    assert_eq!(result as i64, -1, "zero read_len should be rejected");
}

#[test]
fn test_helper_spi_transfer() {
    let mut d = Setup::new().install();
    let mut mem = memory(&[(A, &[0xDE, 0xAD, 0xBE, 0xEF])]);
    let handle = spi_handle(0) as u64;
    assert_eq!(helper_spi_transfer(&mut d, &mut mem, handle, A, 4, 0, 0), 0);
    assert_eq!(
        mem.read(A, 4),
        Some(vec![0xDE ^ 0xFF, 0xAD ^ 0xFF, 0xBE ^ 0xFF, 0xEF ^ 0xFF])
    );
}

#[test]
fn test_helper_gpio_and_adc() {
    let mut setup = Setup::new();
    setup.hal.gpio_states[5] = 1;
    setup.hal.adc_values[0] = 2048;
    let mut d = setup.install();
    assert_eq!(helper_gpio_read(&mut d, 5, 0, 0, 0, 0), 1);
    assert_eq!(helper_adc_read(&mut d, 0, 0, 0, 0, 0), 2048);
}

#[test]
fn test_helper_map_lookup_update() {
    let mut d = Setup::new().with_map().install();
    let mem = memory(&[(A, &0u32.to_le_bytes()), (B, &42u32.to_le_bytes())]);

    assert_eq!(helper_map_update_elem(&mut d, &mem, MAP_PTR, A, B, 0, 0), 0);

    let ptr = helper_map_lookup_elem(&d, &mem, MAP_PTR, A, 0, 0, 0);
    assert_ne!(ptr, 0, "lookup should return non-null pointer");
    assert_eq!(ptr, MAP_PTR);

    let ctx = clear(&mut d).unwrap();
    let value = ctx.map_storage.get(0).unwrap().lookup(0).unwrap();
    assert_eq!(value, &42u32.to_le_bytes());
}

#[test]
fn test_helper_map_update_ephemeral_rejected() {
    let mut d = Setup::ephemeral().with_map().install();
    let mem = memory(&[(A, &0u32.to_le_bytes()), (B, &99u32.to_le_bytes())]);
    let result = helper_map_update_elem(&mut d, &mem, MAP_PTR, A, B, 0, 0);
    assert_eq!(result as i64, -1, "ephemeral should be rejected");

    // The map is unchanged.
    let ctx = clear(&mut d).unwrap();
    let val = ctx.map_storage.get(0).unwrap().lookup(0).unwrap();
    assert!(val.iter().all(|&b| b == 0));
}

#[test]
fn test_helper_get_time_and_battery() {
    let mut d = Setup {
        elapsed_ms: 200,
        ..Setup::new()
    }
    .install();
    assert_eq!(helper_get_time(&mut d, 0, 0, 0, 0, 0), 1_710_000_000_100);
    assert_eq!(helper_get_battery_mv(&d, 0, 0, 0, 0, 0), 3300);
}

#[test]
fn test_helper_delay_us() {
    let mut d = Setup::new().install();
    assert_eq!(helper_delay_us(&mut d, 1000, 0, 0, 0, 0), 0);
    assert_eq!(helper_delay_us(&mut d, 0, 0, 0, 0, 0), 0);
}

#[test]
fn test_helper_delay_us_max_enforcement() {
    let mut d = Setup::new().install();

    // Exactly at the limit: the clock is used.
    assert_eq!(helper_delay_us(&mut d, 1_000_000, 0, 0, 0, 0), 0);
    let ctx = clear(&mut d).unwrap();
    assert_eq!(
        ctx.clock.delays_us,
        vec![1_000_000],
        "accepted delay must invoke clock"
    );

    // Over the limit: it is not.
    let mut d = Setup::new().install();
    assert_eq!(
        helper_delay_us(&mut d, 1_000_001, 0, 0, 0, 0),
        (-1i64) as u64,
        "delay exceeding MAX_DELAY_US must return error"
    );
    assert_eq!(
        helper_delay_us(&mut d, u64::MAX, 0, 0, 0, 0),
        (-1i64) as u64,
        "extremely large delay must return error"
    );
    let ctx = clear(&mut d).unwrap();
    assert_eq!(
        ctx.clock.delays_us.len(),
        0,
        "rejected delay must not invoke clock"
    );
}

#[test]
fn test_helper_set_next_wake() {
    let mut d = Setup {
        base_interval_s: 300,
        ..Setup::new()
    }
    .install();
    assert_eq!(helper_set_next_wake(&mut d, 10, 0, 0, 0, 0), 0);
    assert_eq!(clear(&mut d).unwrap().sleep_mgr.effective_sleep_s(), 10);
}

#[test]
fn test_helper_set_next_wake_ephemeral_rejected() {
    let mut d = Setup {
        base_interval_s: 300,
        ..Setup::ephemeral()
    }
    .install();
    assert_eq!(helper_set_next_wake(&mut d, 10, 0, 0, 0, 0) as i64, -1);
    assert_eq!(clear(&mut d).unwrap().sleep_mgr.effective_sleep_s(), 300);
}

#[test]
fn test_helper_bpf_trace_printk() {
    let mut d = Setup::new().install();
    let mem = memory(&[(A, b"hello")]);
    assert_eq!(helper_bpf_trace_printk(&mut d, &mem, A, 5, 0, 0, 0), 0);
    assert_eq!(clear(&mut d).unwrap().trace_log, vec!["hello".to_string()]);
}

#[test]
fn test_helper_send() {
    let mut d = Setup {
        seq: 100,
        ..Setup::new()
    }
    .install();
    let blob: Vec<u8> = vec![0xAA, 0xBB];
    let mem = memory(&[(A, &blob)]);

    let request = helper_send(&d, &mem, A, blob.len() as u64, 0, 0, 0).unwrap();
    assert_eq!(
        request,
        SendRequest {
            identity: default_identity(),
            seq: 100,
            blob: vec![0xAA, 0xBB],
        }
    );
    let result = send_done(&mut d, true);
    assert_eq!(result, 0);

    assert_eq!(clear(&mut d).unwrap().current_seq, 101);
}

#[test]
fn test_helper_send_recv() {
    let mut d = Setup {
        seq: 100,
        ..Setup::new()
    }
    .install();
    let mut mem = memory(&[(A, &[0x01, 0x02]), (B, &[0; 16])]);
    let request = helper_send_recv(&d, &mem, A, 2, B, 16, 0).unwrap();
    assert_eq!(request.blob, vec![0x01, 0x02]);
    assert_eq!(request.seq, 100);
    assert_eq!(request.identity, default_identity());

    let reply = SendRecvOutcome::Reply(vec![0xCC, 0xDD]);
    let result = send_recv_done(&mut d, &mut mem, B, 16, reply);
    assert_eq!(result, 2); // 2 bytes received

    assert_eq!(mem.read(B, 2), Some(vec![0xCC, 0xDD]));
    assert_eq!(clear(&mut d).unwrap().current_seq, 101);
}

#[test]
fn test_helper_send_recv_timeout() {
    let mut d = Setup {
        seq: 50,
        ..Setup::new()
    }
    .install();
    let mut mem = memory(&[(A, &[0x01]), (B, &[0; 16])]);
    let request = helper_send_recv(&d, &mem, A, 1, B, 16, 0).unwrap();
    assert_eq!(request.timeout_ms, SEND_RECV_TIMEOUT_MS);
    let result = send_recv_done(&mut d, &mut mem, B, 16, SendRecvOutcome::NoReply);
    assert_eq!(result as i64, -1);
}

#[test]
fn sequence_numbers_advance_with_sent_blobs() {
    let mut d = Setup {
        seq: u64::MAX - 1,
        ..Setup::new()
    }
    .install();
    let mut mem = memory(&[(A, &[1]), (B, &[0; 4])]);
    let next = |d: &Dispatcher<TestHal, TestClock>, mem: &BpfMemory| {
        helper_send(d, mem, A, 1, 0, 0, 0).unwrap().seq
    };
    // What was not sent uses no number up.
    assert_eq!(send_done(&mut d, false), FAILED);
    assert_eq!(next(&d, &mem), u64::MAX - 1);
    let unsent = send_recv_done(&mut d, &mut mem, B, 4, SendRecvOutcome::Unsent);
    assert_eq!(unsent, FAILED);
    assert_eq!(next(&d, &mem), u64::MAX - 1);
    // What was sent does, without a reply too.
    let unanswered = send_recv_done(&mut d, &mut mem, B, 4, SendRecvOutcome::NoReply);
    assert_eq!(unanswered, FAILED);
    assert_eq!(next(&d, &mem), u64::MAX);
    assert_eq!(send_done(&mut d, true), 0);
    assert_eq!(next(&d, &mem), 0);
}

#[test]
fn test_map_ptr_index_basic_insert_and_get() {
    let mut idx = MapPtrIndex::new();
    assert!(idx.insert(0x1000, 0).is_ok());
    assert!(idx.insert(0x2000, 1).is_ok());
    assert_eq!(idx.get(0x1000), Some(0));
    assert_eq!(idx.get(0x2000), Some(1));
    assert_eq!(idx.get(0x3000), None);
}

#[test]
fn test_map_ptr_index_overflow_returns_error() {
    let mut idx = MapPtrIndex::new();
    for i in 0..MAX_MAPS {
        assert!(
            idx.insert(0x1000 + i as u64, i).is_ok(),
            "insert {i} should succeed"
        );
    }
    assert_eq!(
        idx.insert(0xFFFF, MAX_MAPS),
        Err(MapPtrInsertError::Overflow)
    );
}

#[test]
fn test_map_ptr_index_duplicate_returns_error() {
    let mut idx = MapPtrIndex::new();
    assert!(idx.insert(0x1000, 0).is_ok());
    assert_eq!(idx.insert(0x1000, 1), Err(MapPtrInsertError::Duplicate),);
    assert_eq!(idx.get(0x1000), Some(0));
}

#[test]
fn test_map_ptr_index_get_returns_first_match() {
    let mut idx = MapPtrIndex::new();
    assert!(idx.insert(0x1000, 0).is_ok());
    assert!(idx.insert(0x2000, 1).is_ok());
    assert!(idx.insert(0x3000, 2).is_ok());
    assert_eq!(idx.get(0x2000), Some(1));
}

#[test]
fn test_bus_helpers_available_to_ephemeral() {
    let mut setup = Setup::ephemeral();
    setup.hal.i2c_read_data = vec![0xAA, 0xBB];
    setup.hal.gpio_states[3] = 1;
    setup.hal.adc_values[1] = 1024;
    let mut d = setup.install();
    let mut mem = memory(&[(A, &[0, 0])]);

    let handle = i2c_handle(0, 0x48) as u64;
    let result = helper_i2c_read(&mut d, &mut mem, handle, A, 2, 0, 0);
    assert_eq!(result, 0, "i2c_read must work for ephemeral programs");
    assert_eq!(
        helper_gpio_read(&mut d, 3, 0, 0, 0, 0),
        1,
        "gpio_read must work for ephemeral programs"
    );
    assert_eq!(
        helper_adc_read(&mut d, 1, 0, 0, 0, 0),
        1024,
        "adc_read must work for ephemeral programs"
    );
    assert_eq!(mem.read(A, 2), Some(vec![0xAA, 0xBB]));
}

#[test]
fn test_spi_transfer_available_to_ephemeral() {
    let mut d = Setup::ephemeral().install();
    let mut mem = memory(&[(A, &[0xCA, 0xFE])]);
    let handle = spi_handle(0) as u64;
    let result = helper_spi_transfer(&mut d, &mut mem, handle, A, 2, 0, 0);
    assert_eq!(result, 0, "spi_transfer must work for ephemeral programs");
    assert_eq!(mem.read(A, 2), Some(vec![0xCA ^ 0xFF, 0xFE ^ 0xFF]));
}

#[test]
fn test_delay_us_max_value_rejected() {
    let mut d = Setup::new().install();
    assert_eq!(
        helper_delay_us(&mut d, MAX_DELAY_US as u64, 0, 0, 0, 0),
        0,
        "delay_us at max value must succeed"
    );
    assert_eq!(
        helper_delay_us(&mut d, MAX_DELAY_US as u64 + 1, 0, 0, 0, 0) as i64,
        -1,
        "delay_us exceeding max must return -1"
    );
    assert_eq!(
        helper_delay_us(&mut d, 10_000_000, 0, 0, 0, 0) as i64,
        -1,
        "delay_us(10s) must return -1"
    );
}

#[test]
fn test_helper_delay_us_exceeds_max_rejected() {
    let mut d = Setup::new().install();
    assert_eq!(helper_delay_us(&mut d, 1_000_001, 0, 0, 0, 0), (-1i64) as u64);
    assert_eq!(helper_delay_us(&mut d, u64::MAX, 0, 0, 0, 0), (-1i64) as u64);
}

#[test]
fn test_helper_delay_us_exact_max_succeeds() {
    let mut d = Setup::new().install();
    assert_eq!(helper_delay_us(&mut d, 1_000_000, 0, 0, 0, 0), 0);
}

#[test]
fn test_helper_bus_helpers_ephemeral_succeed() {
    let mut setup = Setup::ephemeral();
    setup.hal.i2c_read_data = vec![0x1A, 0x2B];
    setup.hal.gpio_states[5] = 1;
    setup.hal.adc_values[0] = 2048;
    let mut d = setup.install();
    let (read_buf, write_data, wr_buf, w, spi_buf) = (0x100, 0x200, 0x300, 0x400, 0x500);
    let mut mem = memory(&[
        (read_buf, &[0; 2]),
        (write_data, &[0x55; 2]),
        (wr_buf, &[0; 2]),
        (w, &[0x01]),
        (spi_buf, &[0xAA, 0xBB]),
    ]);
    let handle = i2c_handle(0, 0x48) as u64;

    let r = helper_i2c_read(&mut d, &mut mem, handle, read_buf, 2, 0, 0);
    assert_eq!(r, 0, "i2c_read should succeed for ephemeral");
    assert_eq!(mem.read(read_buf, 2), Some(vec![0x1A, 0x2B]));

    let r = helper_i2c_write(&mut d, &mem, handle, write_data, 2, 0, 0);
    assert_eq!(r, 0, "i2c_write should succeed for ephemeral");

    let r = helper_i2c_write_read(&mut d, &mut mem, handle, w, 1, wr_buf, 2);
    assert_eq!(r, 0, "i2c_write_read should succeed for ephemeral");
    assert_eq!(mem.read(wr_buf, 2), Some(vec![0x1A, 0x2B]));

    let spi_h = spi_handle(0) as u64;
    let r = helper_spi_transfer(&mut d, &mut mem, spi_h, spi_buf, 2, 0, 0);
    assert_eq!(r, 0, "spi_transfer should succeed for ephemeral");
    assert_eq!(mem.read(spi_buf, 2), Some(vec![0xAA ^ 0xFF, 0xBB ^ 0xFF]));

    let r = helper_gpio_read(&mut d, 5, 0, 0, 0, 0);
    assert_eq!(r as i64, 1, "gpio_read should return pin state for ephemeral");

    let r = helper_gpio_write(&mut d, 5, 0, 0, 0, 0);
    assert_eq!(r, 0, "gpio_write should succeed for ephemeral");

    let ctx = clear(&mut d).unwrap();
    assert_eq!(ctx.hal.gpio_states[5], 0, "gpio_write(5, 0) must clear pin");
    assert_eq!(ctx.hal.i2c_written, vec![vec![0x55, 0x55], vec![0x01]]);

    // ADC read in a separate context.
    let mut d = Setup {
        hal: ctx.hal,
        ..Setup::ephemeral()
    }
    .install();
    let r = helper_adc_read(&mut d, 0, 0, 0, 0, 0);
    assert_eq!(r as i64, 2048, "adc_read should return value for ephemeral");
}

#[test]
fn test_helper_map_lookup_out_of_range_key_returns_null() {
    let d = Setup::new().with_map().install();
    let mem = memory(&[(A, &0u32.to_le_bytes()), (B, &4u32.to_le_bytes())]);

    let in_range_ptr = helper_map_lookup_elem(&d, &mem, MAP_PTR, A, 0, 0, 0);
    assert_ne!(
        in_range_ptr, 0,
        "lookup of in-range never-updated key must return non-NULL (zero-initialized)"
    );

    let ptr = helper_map_lookup_elem(&d, &mem, MAP_PTR, B, 0, 0, 0);
    assert_eq!(ptr, 0, "lookup of out-of-range key must return NULL");
}

#[test]
fn test_helper_set_next_wake_clamped_to_base_interval() {
    let mut d = Setup {
        base_interval_s: 300,
        ..Setup::new()
    }
    .install();
    let result = helper_set_next_wake(&mut d, 600, 0, 0, 0, 0);
    assert_eq!(result, 0, "set_next_wake should return success");
    let sleep = clear(&mut d).unwrap().sleep_mgr;
    assert_eq!(
        sleep.effective_sleep_s(),
        300,
        "effective sleep must be min(600, 300) = 300"
    );
    assert!(
        !sleep.will_wake_early(),
        "requesting longer than base should not count as early wake"
    );
}

#[test]
fn test_helper_send_async_success() {
    let mut d = Setup::new().install();
    let mem = memory(&[(A, &[0x42; 10])]);
    let result = helper_send_async(&mut d, &mem, A, 10, 0, 0, 0);
    assert_eq!(result, 0, "send_async should succeed");
    // The blob is queued.
    let mut ctx = clear(&mut d).unwrap();
    assert_eq!(ctx.async_queue.drain(), vec![vec![0x42; 10]]);
}

#[test]
fn test_helper_send_async_ephemeral() {
    let mut d = Setup::ephemeral().install();
    let mem = memory(&[(A, &[0x42; 10])]);
    let result = helper_send_async(&mut d, &mem, A, 10, 0, 0, 0);
    assert_eq!(
        result, 0,
        "send_async should succeed from ephemeral program"
    );
    let mut ctx = clear(&mut d).unwrap();
    assert_eq!(ctx.async_queue.drain(), vec![vec![0x42; 10]]);
}

#[test]
fn test_helper_send_async_queue_full() {
    let mut setup = Setup::new();
    for _ in 0..10 {
        let _ = setup.queue.push(vec![0x42]);
    }
    let mut d = setup.install();
    let mem = memory(&[(A, &[0x42; 4])]);
    let result = helper_send_async(&mut d, &mem, A, 4, 0, 0, 0);
    assert_eq!(result as i64, -1, "queue full should return -1");
}

#[test]
fn test_helper_send_async_oversized() {
    let mut d = Setup::new().install();
    let mem = memory(&[(A, &[0x42; MAX_BLOB_SIZE + 1])]);
    let result = helper_send_async(&mut d, &mem, A, MAX_BLOB_SIZE as u64 + 1, 0, 0, 0);
    assert_eq!(result as i64, -2, "oversized blob should return -2");
}

#[test]
fn test_helper_send_async_null_ptr() {
    let mut d = Setup::new().install();
    let mem = memory(&[]);
    let result = helper_send_async(&mut d, &mem, 0, 10, 0, 0, 0);
    assert_eq!(result as i64, -2, "null ptr should return -2");
}

#[test]
fn test_helper_i2c_read_emits_debug_log() {
    let mut d = Setup::new().install();
    let mut mem = memory(&[(A, &[0, 0])]);
    let handle = i2c_handle(0, 0x48) as u64;
    let result = helper_i2c_read(&mut d, &mut mem, handle, A, 2, 0, 0);
    let msg = log_helper_call(Helper::I2cRead, result).expect("i2c_read is logged");
    assert!(msg.contains("bpf helper i2c_read"));
    assert!(msg.contains("result="));
}

#[test]
fn test_helper_gpio_read_emits_debug_log() {
    let mut setup = Setup::new();
    setup.hal.gpio_states[3] = 1;
    let mut d = setup.install();
    let result = helper_gpio_read(&mut d, 3, 0, 0, 0, 0);
    let msg = log_helper_call(Helper::GpioRead, result).expect("gpio_read is logged");
    assert!(msg.contains("bpf helper gpio_read"));
    assert!(msg.contains("result="));
    assert_eq!(msg, "bpf helper gpio_read: result=1");
}

#[test]
fn test_non_io_helper_does_not_emit_debug_log() {
    let mut d = Setup {
        elapsed_ms: 1_000,
        ..Setup::new()
    }
    .install();
    let time = helper_get_time(&mut d, 0, 0, 0, 0, 0);
    let battery = helper_get_battery_mv(&d, 0, 0, 0, 0, 0);
    let delay = helper_delay_us(&mut d, 10, 0, 0, 0, 0);
    assert_eq!(log_helper_call(Helper::GetTime, time), None);
    assert_eq!(log_helper_call(Helper::GetBatteryMv, battery), None);
    assert_eq!(log_helper_call(Helper::DelayUs, delay), None);
}

#[test]
fn logged_results_are_signed() {
    assert_eq!(
        log_helper_call(Helper::SendAsync, (-2i64) as u64),
        Some("bpf helper send_async: result=-2".to_string())
    );
    assert_eq!(
        log_helper_call(Helper::AdcRead, i64::MIN as u64),
        Some("bpf helper adc_read: result=-9223372036854775808".to_string())
    );
}

#[test]
fn guard_clears_the_context() {
    let mut d = Setup::new().install();
    {
        let guard = DispatchGuard { dispatcher: &mut d };
        assert_eq!(helper_get_battery_mv(guard.dispatcher, 0, 0, 0, 0, 0), 3300);
    }
    assert!(clear(&mut d).is_none());
}

#[test]
fn helpers_fail_without_a_context() {
    let mut d: Dispatcher<TestHal, TestClock> = Dispatcher::new();
    let mut mem = memory(&[(A, &[0; 4]), (B, &[0; 4])]);
    assert_eq!(helper_i2c_read(&mut d, &mut mem, 0, A, 4, 0, 0), FAILED);
    assert_eq!(helper_i2c_write(&mut d, &mem, 0, A, 4, 0, 0), FAILED);
    assert_eq!(helper_i2c_write_read(&mut d, &mut mem, 0, A, 4, B, 4), FAILED);
    assert_eq!(helper_spi_transfer(&mut d, &mut mem, 0, A, 4, 0, 0), FAILED);
    assert_eq!(helper_gpio_read(&mut d, 0, 0, 0, 0, 0), FAILED);
    assert_eq!(helper_gpio_write(&mut d, 0, 0, 0, 0, 0), FAILED);
    assert_eq!(helper_adc_read(&mut d, 0, 0, 0, 0, 0), FAILED);
    assert_eq!(helper_send(&d, &mem, A, 4, 0, 0, 0), Err(FAILED));
    assert_eq!(helper_send_recv(&d, &mem, A, 4, B, 4, 0), Err(FAILED));
    assert_eq!(send_done(&mut d, true), FAILED);
    let reply = SendRecvOutcome::Reply(vec![1]);
    assert_eq!(send_recv_done(&mut d, &mut mem, B, 4, reply), FAILED);
    assert_eq!(mem.read(B, 4), Some(vec![0; 4]));
    assert_eq!(helper_map_lookup_elem(&d, &mem, 0, A, 0, 0, 0), 0);
    assert_eq!(helper_map_update_elem(&mut d, &mem, 0, A, B, 0, 0), FAILED);
    assert_eq!(helper_get_battery_mv(&d, 0, 0, 0, 0, 0), 0);
    assert_eq!(helper_delay_us(&mut d, 1, 0, 0, 0, 0), FAILED);
    assert_eq!(helper_set_next_wake(&mut d, 1, 0, 0, 0, 0), FAILED);
    assert_eq!(helper_bpf_trace_printk(&mut d, &mem, A, 4, 0, 0, 0), FAILED);
    assert_eq!(helper_send_async(&mut d, &mem, A, 4, 0, 0, 0), FAILED);
}

#[test]
fn pointers_outside_of_memory_are_refused() {
    let mut d = Setup::new().install();
    let mut mem = memory(&[(A, &[0; 4])]);
    assert_eq!(helper_i2c_read(&mut d, &mut mem, 0, A + 1, 4, 0, 0), FAILED);
    assert_eq!(helper_i2c_read(&mut d, &mut mem, 0, 0, 4, 0, 0), FAILED);
    assert_eq!(helper_i2c_read(&mut d, &mut mem, 0, A, 4097, 0, 0), FAILED);
    assert_eq!(helper_spi_transfer(&mut d, &mut mem, 0, B, 1, 0, 0), FAILED);
    assert_eq!(helper_send_async(&mut d, &mem, A, 5, 0, 0, 0) as i64, -2);
}

#[test]
fn trace_takes_valid_text_only() {
    let mut d = Setup::new().install();
    let mem = memory(&[(A, &[0xC3, 0x28]), (B, "grüße".as_bytes())]);
    assert_eq!(helper_bpf_trace_printk(&mut d, &mem, A, 2, 0, 0, 0), FAILED);
    assert_eq!(helper_bpf_trace_printk(&mut d, &mem, B, 7, 0, 0, 0), 0);
    assert_eq!(helper_bpf_trace_printk(&mut d, &mem, B, 0, 0, 0, 0), FAILED);
    assert_eq!(helper_bpf_trace_printk(&mut d, &mem, B, 257, 0, 0, 0), FAILED);
    assert_eq!(clear(&mut d).unwrap().trace_log, vec!["grüße".to_string()]);
}

#[test]
fn trace_is_limited() {
    let mut d = Setup::new().install();
    let mem = memory(&[(A, b"x")]);
    for _ in 0..MAX_TRACE_ENTRIES + 5 {
        assert_eq!(helper_bpf_trace_printk(&mut d, &mem, A, 1, 0, 0, 0), 0);
    }
    assert_eq!(clear(&mut d).unwrap().trace_log.len(), 64);
}

#[test]
fn lookups_lead_to_the_values() {
    let d = Setup::new().with_map().install();
    let mem = memory(&[(A, &3u32.to_le_bytes())]);
    assert_eq!(
        helper_map_lookup_elem(&d, &mem, MAP_PTR, A, 0, 0, 0),
        MAP_PTR + 12
    );
    assert_eq!(helper_map_lookup_elem(&d, &mem, MAP_PTR + 4, A, 0, 0, 0), 0);
    assert_eq!(helper_map_lookup_elem(&d, &mem, MAP_PTR, 0, 0, 0, 0), 0);
}

#[test]
fn looked_up_addresses_hold_the_values() {
    let mut d = Setup::new().with_map().install();
    let mem = memory(&[
        (A, &2u32.to_le_bytes()),
        (B, &[0xDE, 0xAD, 0xBE, 0xEF]),
        (0x3000, &1u32.to_le_bytes()),
    ]);
    assert_eq!(helper_map_update_elem(&mut d, &mem, MAP_PTR, A, B, 0, 0), 0);
    let stored = helper_map_lookup_elem(&d, &mem, MAP_PTR, A, 0, 0, 0);
    let fresh = helper_map_lookup_elem(&d, &mem, MAP_PTR, 0x3000, 0, 0, 0);

    // The values of the map, as they lie in memory from its address on.
    let ctx = clear(&mut d).unwrap();
    let map = ctx.map_storage.get(0).unwrap();
    let data: Vec<u8> = (0..4).flat_map(|key| map.lookup(key).unwrap().to_vec()).collect();
    let at = |address: u64| &data[(address - MAP_PTR) as usize..][..4];
    assert_eq!(at(stored), &[0xDE, 0xAD, 0xBE, 0xEF]);
    assert_eq!(at(fresh), &[0; 4]);
}

#[test]
fn map_updates_need_a_key_and_a_value() {
    let mut d = Setup::new().with_map().install();
    let mem = memory(&[(A, &4u32.to_le_bytes()), (B, &[1, 2, 3])]);
    // The key is out of range.
    assert_eq!(helper_map_update_elem(&mut d, &mem, MAP_PTR, A, A, 0, 0), FAILED);
    // The value is too short, absent, or the map is unknown.
    let mem = memory(&[(A, &1u32.to_le_bytes()), (B, &[1, 2, 3])]);
    assert_eq!(helper_map_update_elem(&mut d, &mem, MAP_PTR, A, B, 0, 0), FAILED);
    assert_eq!(helper_map_update_elem(&mut d, &mem, MAP_PTR, A, 0, 0, 0), FAILED);
    assert_eq!(helper_map_update_elem(&mut d, &mem, 0x9000, A, A, 0, 0), FAILED);
    assert_eq!(helper_map_update_elem(&mut d, &mem, MAP_PTR, A, A, 0, 0), 0);
}

#[test]
fn replies_are_waited_for_within_limits() {
    let d = Setup::new().install();
    let mem = memory(&[(A, &[1])]);
    let wait = |r5: u64| helper_send_recv(&d, &mem, A, 1, B, 4, r5).unwrap().timeout_ms;
    assert_eq!(wait(0), 200);
    assert_eq!(wait(1), 1);
    assert_eq!(wait(4999), 4999);
    assert_eq!(wait(60_000), 5000);
    assert_eq!(wait(1 << 32), 0);
    assert_eq!(helper_send_recv(&d, &mem, A, 1, B, 0, 0), Err(FAILED));
    assert_eq!(helper_send_recv(&d, &mem, A, 1, 0, 4, 0), Err(FAILED));
}

#[test]
fn replies_must_fit() {
    let mut d = Setup::new().install();
    let mut mem = memory(&[(B, &[0; 4])]);
    let reply = || SendRecvOutcome::Reply(vec![1, 2, 3]);
    assert_eq!(send_recv_done(&mut d, &mut mem, B, 2, reply()), FAILED);
    assert_eq!(mem.read(B, 4), Some(vec![0; 4]));
    assert_eq!(send_recv_done(&mut d, &mut mem, B, 3, reply()), 3);
    assert_eq!(mem.read(B, 4), Some(vec![1, 2, 3, 0]));
    assert_eq!(clear(&mut d).unwrap().current_seq, 2);
}

#[test]
fn time_does_not_run_backwards() {
    // The clock reads less than at the command.
    let mut d = Setup {
        elapsed_ms: 50,
        ..Setup::new()
    }
    .install();
    assert_eq!(helper_get_time(&mut d, 0, 0, 0, 0, 0), 1_710_000_000_000);
}

#[test]
fn next_wake_must_fit_in_a_word() {
    let mut d = Setup::new().install();
    assert_eq!(helper_set_next_wake(&mut d, 1 << 32, 0, 0, 0, 0), FAILED);
    assert_eq!(helper_set_next_wake(&mut d, (1 << 32) - 1, 0, 0, 0, 0), 0);
}

struct Registry {
    seen: Vec<(u32, Helper)>,
    fail_at: u32,
}

impl BpfInterpreter for Registry {
    fn register_helper(&mut self, id: u32, helper: Helper) -> Result<(), BpfError> {
        if id == self.fail_at {
            return Err(BpfError::LoadError("table full"));
        }
        self.seen.push((id, helper));
        Ok(())
    }

    fn load(&mut self, _code: &[u8], _ptrs: &[u64], _defs: &[MapDef]) -> Result<(), BpfError> {
        Ok(())
    }

    fn execute(&mut self, _ctx_ptr: u64, _budget: u64) -> Result<u64, BpfError> {
        Ok(0)
    }
}

#[test]
fn all_helpers_are_registered() {
    let mut registry = Registry {
        seen: Vec::new(),
        fail_at: 0,
    };
    assert_eq!(register_all(&mut registry), Ok(()));
    assert_eq!(registry.seen.len(), 17);
    assert_eq!(registry.seen[0], (1, Helper::I2cRead));
    assert_eq!(registry.seen[8], (9, Helper::SendRecv));
    assert_eq!(registry.seen[16], (17, Helper::SendAsync));
}

#[test]
fn registration_stops_at_the_first_failure() {
    let mut registry = Registry {
        seen: Vec::new(),
        fail_at: 4,
    };
    assert_eq!(
        register_all(&mut registry),
        Err(BpfError::LoadError("table full"))
    );
    assert_eq!(registry.seen.len(), 3);
}
