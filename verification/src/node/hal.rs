//! Hardware abstraction: bus handles, peripherals and ADC conversion.

use vstd::prelude::*;

verus! {

/// The handle of an I2C device: the bus number and the low seven bits of the
/// address.
pub open spec fn i2c_handle_of(bus: u16, addr: u8) -> int {
    bus as int * 0x1_0000 + addr as int % 128
}

/// The bus number in a handle.
pub open spec fn bus_of(handle: u32) -> int {
    handle as int / 0x1_0000
}

/// The device address in a handle.
pub open spec fn addr_of(handle: u32) -> int {
    handle as int % 128
}

/// Encode an I2C handle.
pub fn i2c_handle(bus: u16, addr: u8) -> (handle: u32)
    ensures
        handle as int == i2c_handle_of(bus, addr),
{
    proof {
        assert(((bus as u32) << 16) | ((addr as u32) & 0x7F) == (bus as u32) * 0x1_0000 + (
        addr as u32) % 128) by (bit_vector);
    }
    ((bus as u32) << 16) | ((addr as u32) & 0x7F)
}

/// Encode an SPI handle.
pub fn spi_handle(bus: u16) -> (handle: u32)
    ensures
        handle as int == bus as int * 0x1_0000,
{
    proof {
        assert((bus as u32) << 16 == (bus as u32) * 0x1_0000) by (bit_vector);
    }
    (bus as u32) << 16
}

/// The bus number of an I2C or SPI handle.
pub fn handle_bus(handle: u32) -> (bus: u16)
    ensures
        bus as int == bus_of(handle),
{
    proof {
        assert(handle >> 16 == handle / 0x1_0000 && handle >> 16 < 0x1_0000) by (bit_vector);
    }
    (handle >> 16) as u16
}

/// The device address of an I2C handle.
pub fn handle_addr(handle: u32) -> (addr: u8)
    ensures
        addr as int == addr_of(handle),
{
    proof {
        assert(handle & 0x7F == handle % 128) by (bit_vector);
    }
    (handle & 0x7F) as u8
}

/// An I2C handle gives back its bus and its seven-bit address.
pub proof fn law_i2c_handle_round_trip(bus: u16, addr: u8, handle: u32)
    requires
        handle as int == i2c_handle_of(bus, addr),
    ensures
        bus_of(handle) == bus,
        addr_of(handle) == addr as int % 128,
        addr < 128 ==> addr_of(handle) == addr,
{
}

/// An SPI handle gives back its bus.
pub proof fn law_spi_handle_round_trip(bus: u16, handle: u32)
    requires
        handle as int == bus as int * 0x1_0000,
    ensures
        bus_of(handle) == bus,
{
}

/// Full scale of the ADC in millivolts.
pub const ADC_APPROX_FULL_SCALE_MV: i64 = 2500;

/// Largest raw ADC code.
pub const ADC_APPROX_RAW_MAX: i64 = 2047;

/// `n` as a 32-bit two's complement number.
pub open spec fn wrapped_i32(n: int) -> int {
    let low = n % 0x1_0000_0000;
    if low >= 0x8000_0000 {
        low - 0x1_0000_0000
    } else {
        low
    }
}

/// Millivolts for a raw ADC code; an error code stays as it is.
pub open spec fn millivolts(raw: i32) -> int {
    if raw < 0 {
        raw as int
    } else {
        wrapped_i32(raw * 2500 / 2047)
    }
}

/// Convert a raw ADC code to millivolts, by the range that was observed.
pub fn approximate_mv(raw: i32) -> (mv: i32)
    ensures
        mv as int == millivolts(raw),
{
    if raw < 0 {
        return raw;
    }
    let mv: i64 = (raw as i64) * ADC_APPROX_FULL_SCALE_MV / ADC_APPROX_RAW_MAX;
    if mv > 0x7fff_ffff {
        (mv - 0x1_0000_0000) as i32
    } else {
        mv as i32
    }
}

/// Within the ADC's range, the conversion is exact at both ends and never
/// decreases.
pub proof fn law_conversion_is_monotonic(a: i32, b: i32)
    requires
        0 <= a <= b <= 2047,
    ensures
        0 <= millivolts(a) <= millivolts(b) <= 2500,
        millivolts(0) == 0,
        millivolts(2047) == 2500,
{
}

/// Bus peripherals.
///
/// All methods return a negative number on error.  The BPF program decides how
/// to handle errors.  The `*_was_*` functions say what a call may do; an
/// implementation that leaves them as they are promises nothing.
pub trait Hal: Sized {
    /// What an I2C read may do.
    open spec fn i2c_was_read(
        pre: Self,
        handle: u32,
        before: Seq<u8>,
        post: Self,
        after: Seq<u8>,
        code: i32,
    ) -> bool {
        true
    }

    /// What an I2C write may do.
    open spec fn i2c_was_written(pre: Self, handle: u32, data: Seq<u8>, post: Self, code: i32) -> bool {
        true
    }

    /// What a combined I2C write and read may do.
    open spec fn i2c_was_written_and_read(
        pre: Self,
        handle: u32,
        data: Seq<u8>,
        before: Seq<u8>,
        post: Self,
        after: Seq<u8>,
        code: i32,
    ) -> bool {
        true
    }

    /// What an SPI transfer may do.
    open spec fn spi_was_transferred(
        pre: Self,
        handle: u32,
        before: Seq<u8>,
        post: Self,
        after: Seq<u8>,
        code: i32,
    ) -> bool {
        true
    }

    /// What reading a pin may do.
    open spec fn gpio_was_read(pre: Self, pin: u32, post: Self, code: i32) -> bool {
        true
    }

    /// What setting a pin may do.
    open spec fn gpio_was_written(pre: Self, pin: u32, value: u32, post: Self, code: i32) -> bool {
        true
    }

    /// What an ADC read may do.
    open spec fn adc_was_read(pre: Self, channel: u32, post: Self, code: i32) -> bool {
        true
    }

    /// Read from the I2C device at `handle`.
    fn i2c_read(&mut self, handle: u32, buf: &mut [u8]) -> (code: i32)
        ensures
            final(buf)@.len() == old(buf)@.len(),
            Self::i2c_was_read(
                *old(self),
                handle,
                old(buf)@,
                *final(self),
                final(buf)@,
                code,
            ),
    ;

    /// Write to the I2C device at `handle`.
    fn i2c_write(&mut self, handle: u32, data: &[u8]) -> (code: i32)
        ensures
            Self::i2c_was_written(*old(self), handle, data@, *final(self), code),
    ;

    /// Write to and then read from the I2C device at `handle`, in one
    /// transaction.
    fn i2c_write_read(&mut self, handle: u32, write_data: &[u8], read_buf: &mut [u8]) -> (code: i32)
        ensures
            final(read_buf)@.len() == old(read_buf)@.len(),
            Self::i2c_was_written_and_read(
                *old(self),
                handle,
                write_data@,
                old(read_buf)@,
                *final(self),
                final(read_buf)@,
                code,
            ),
    ;

    /// Full-duplex SPI transfer in place.
    fn spi_transfer(&mut self, handle: u32, buf: &mut [u8]) -> (code: i32)
        ensures
            final(buf)@.len() == old(buf)@.len(),
            Self::spi_was_transferred(
                *old(self),
                handle,
                old(buf)@,
                *final(self),
                final(buf)@,
                code,
            ),
    ;

    /// The level of a pin: 0 or 1.
    fn gpio_read(&mut self, pin: u32) -> (code: i32)
        ensures
            Self::gpio_was_read(*old(self), pin, *final(self), code),
    ;

    /// Set the level of a pin.
    fn gpio_write(&mut self, pin: u32, value: u32) -> (code: i32)
        ensures
            Self::gpio_was_written(*old(self), pin, value, *final(self), code),
    ;

    /// Read a raw value from an ADC channel.
    fn adc_read(&mut self, channel: u32) -> (code: i32)
        ensures
            Self::adc_was_read(*old(self), channel, *final(self), code),
    ;

    /// Read an ADC channel and convert it to millivolts.  Unless the
    /// implementation knows better, the conversion is the approximate one.
    fn adc_read_mv(&mut self, channel: u32) -> (mv: i32)
        default_ensures
            exists|raw: i32| #[trigger]
                Self::adc_was_read(*old(self), channel, *final(self), raw) && mv as int
                    == millivolts(raw),
    {
        let raw = self.adc_read(channel);
        approximate_mv(raw)
    }

    /// Read an ADC channel; returns the raw code and the millivolts that the
    /// same sample converts to.
    fn adc_read_diagnostics(&mut self, channel: u32) -> (sample: (i32, i32))
        default_ensures
            Self::adc_was_read(*old(self), channel, *final(self), sample.0),
            sample.1 as int == millivolts(sample.0),
    {
        let raw = self.adc_read(channel);
        (raw, approximate_mv(raw))
    }

    /// Enter the board layout's idle GPIO state, in which the pins float and
    /// the sensor rail is off.  Does nothing, unless the implementation has
    /// pins.
    fn enter_idle_gpio_state(&mut self)
        default_ensures
            *final(self) == *old(self),
    {
    }

    /// Enter the board layout's active GPIO state, in which the buses are
    /// pulled up and the sensor rail is on.  Does nothing, unless the
    /// implementation has pins.
    fn enter_active_gpio_state(&mut self)
        default_ensures
            *final(self) == *old(self),
    {
    }

    /// Release all peripherals right before deep sleep.  Does nothing, unless
    /// the implementation has peripherals.
    fn prepare_for_sleep(&mut self)
        default_ensures
            *final(self) == *old(self),
    {
    }
}

/// The battery voltage.
pub trait BatteryReader: Sized {
    /// The voltage in millivolts.
    spec fn voltage(&self) -> u32;

    /// The voltage in millivolts.
    fn battery_mv(&self) -> (mv: u32)
        ensures
            mv == self.voltage(),
    ;
}

/// A handle holds the bus in its upper half and the seven-bit address in its
/// lowest bits, as BPF programs expect it.
pub proof fn law_handles_have_a_fixed_form(bus: u16, addr: u8, handle: u32)
    ensures
        addr < 128 ==> i2c_handle_of(bus, addr) == 65536 * bus + addr,
        addr >= 128 ==> i2c_handle_of(bus, addr) == i2c_handle_of(bus, (addr - 128) as u8),
        65536 * bus_of(handle) <= handle < 65536 * (bus_of(handle) + 1),
        0 <= addr_of(handle) < 128,
        (handle - addr_of(handle)) % 128 == 0,
{
}

/// The voltage is what a code is of the full scale of 2500 millivolts, rounded
/// down; an error stays an error.
pub proof fn law_codes_are_scaled_to_millivolts(raw: i32)
    ensures
        0 <= raw <= 2047 ==> millivolts(raw) * 2047 <= raw * 2500 < (millivolts(raw) + 1) * 2047,
        raw < 0 ==> millivolts(raw) == raw,
{
}

/// A voltage beyond 32 bits is cut to its low 32 bits.
pub proof fn law_voltages_are_cut_to_32_bits(n: int)
    ensures
        -0x8000_0000 <= wrapped_i32(n) < 0x8000_0000,
        (wrapped_i32(n) - n) % 0x1_0000_0000 == 0,
{
}

} // verus!
