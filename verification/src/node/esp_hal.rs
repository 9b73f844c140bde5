//! Decisions of the hardware layer: lazy initialization of the I2C bus and the
//! ADC, GPIO states, and delays.
//!
//! The peripherals are driven from outside: a plan says what is to be done, and
//! the outcome is handed back.

use vstd::prelude::*;

use crate::i2c::{
    bytes_read, bytes_written, ops_view, read_ops, read_transaction, write_ops, write_read_ops, write_read_transaction,
    write_transaction, BusOp, I2cOp,
};
use crate::node::hal::{addr_of, bus_of, handle_addr, handle_bus};
use crate::node::types::BoardLayout;

verus! {

/// Highest GPIO number.
pub const MAX_PIN: u32 = 39;

/// Number of ADC channels.
pub const ADC_CHANNELS: u32 = 5;

/// Result of an operation that failed or is not possible.
pub const HAL_ERROR: i32 = -1;

/// Milliseconds in `us` microseconds.
pub fn uptime_ms(us: u64) -> (ms: u64)
    ensures
        ms == us / 1000,
{
    us / 1000
}

/// How to wait for `us` microseconds: whole milliseconds are slept, so that
/// other tasks can run, and the rest is spent busily.
pub fn split_delay(us: u32) -> (parts: (u32, u32))
    ensures
        parts.0 == us / 1000,
        parts.1 == us % 1000,
        parts.0 * 1000 + parts.1 == us,
{
    (us / 1000, us % 1000)
}

/// Microseconds of a deep sleep of `seconds`.
pub fn sleep_us(seconds: u32) -> (us: u64)
    ensures
        us == seconds * 1_000_000,
{
    (seconds as u64) * 1_000_000
}

/// The clock: its delays are split by `split_delay`, and its readings come
/// from a microsecond timer.
pub struct EspClock;

impl EspClock {
    /// Milliseconds since boot, for a timer that reads `us` microseconds.
    pub fn elapsed_ms(&self, us: u64) -> (ms: u64)
        ensures
            ms == us / 1000,
    {
        uptime_ms(us)
    }

    /// How to wait for `us` microseconds: milliseconds to sleep, then
    /// microseconds to spend busily.
    pub fn delay_us(&self, us: u32) -> (parts: (u32, u32))
        ensures
            parts.0 * 1000 + parts.1 == us,
            parts.1 < 1000,
    {
        split_delay(us)
    }
}

/// The sleep controller.
pub struct EspSleepController;

impl EspSleepController {
    /// Microseconds that the wake-up timer is set to.
    pub fn timer_us(&self, seconds: u32) -> (us: u64)
        ensures
            us == seconds * 1_000_000,
    {
        sleep_us(seconds)
    }
}

/// What is needed before an I2C bus can be used.
#[derive(Clone, Copy, Debug, PartialEq, Eq, Structural)]
pub enum I2cPort {
    /// The bus is initialized.
    Ready,
    /// The bus has to be initialized on these pins.
    Initialize { sda: u8, scl: u8 },
    /// There is no such bus.
    Unavailable,
}

/// What an I2C request leads to.
#[derive(Debug, PartialEq, Eq)]
pub enum I2cPlan {
    /// Nothing to do on the bus; return this.
    Return(i32),
    /// Perform these operations and return 0, or an error if they fail.
    Transact(Vec<I2cOp>),
}

/// A plan as mathematical values.
pub ghost enum BusPlan {
    Return { code: int },
    Transact { ops: Seq<BusOp> },
}

impl View for I2cPlan {
    type V = BusPlan;

    open spec fn view(&self) -> BusPlan {
        match *self {
            I2cPlan::Return(code) => BusPlan::Return { code: code as int },
            I2cPlan::Transact(ops) => BusPlan::Transact { ops: ops_view(ops@) },
        }
    }
}

/// What is needed before an ADC channel can be used.
#[derive(Clone, Copy, Debug, PartialEq, Eq, Structural)]
pub enum AdcPlan {
    /// There is no such channel.
    Invalid,
    /// The ADC unit has to be created.
    CreateUnit,
    /// The channel has to be configured.
    ConfigureChannel,
    /// The channel has to be calibrated.
    Calibrate,
    /// Nothing.
    Ready,
}

/// What a request to set a pin leads to.
#[derive(Clone, Copy, Debug, PartialEq, Eq, Structural)]
pub enum GpioPlan {
    /// There is no such pin.
    Invalid,
    /// Make the pin an output where `configure` says so, then set its level.
    Write { configure: bool, level: u32 },
}

/// A change of a pin's configuration.
#[derive(Clone, Copy, Debug, PartialEq, Eq, Structural)]
pub enum PinAction {
    /// Input without pull resistors.
    InputNoPull(u8),
    /// Input with a pull-up resistor.
    InputPullUp(u8),
    /// Output at this level.
    Output(u8, u32),
    /// Disconnected during sleep.
    SleepFloating(u8),
    /// Output at this level during sleep.
    SleepOutput(u8, u32),
}

/// The actions for a pin, where the board provides it.
pub open spec fn for_pin(pin: Option<u8>, actions: spec_fn(u8) -> Seq<PinAction>) -> Seq<PinAction> {
    match pin {
        Some(p) => actions(p),
        None => Seq::empty(),
    }
}

/// The actions that put an input to rest.
pub open spec fn rest(pin: u8) -> Seq<PinAction> {
    seq![PinAction::InputNoPull(pin), PinAction::SleepFloating(pin)]
}

/// The actions that switch the sensors off and keep them off during sleep.
pub open spec fn sensors_off(pin: u8) -> Seq<PinAction> {
    seq![PinAction::Output(pin, 1), PinAction::SleepOutput(pin, 1)]
}

/// The idle state of a board: inputs at rest and sensors off.
pub open spec fn idle_actions(layout: BoardLayout) -> Seq<PinAction> {
    for_pin(layout.battery_adc, |p: u8| rest(p)) + for_pin(layout.one_wire_data, |p: u8| rest(p))
        + for_pin(layout.i2c0_sda, |p: u8| rest(p)) + for_pin(layout.i2c0_scl, |p: u8| rest(p))
        + for_pin(layout.sensor_enable, |p: u8| sensors_off(p))
}

/// The active state of a board: sensors on, buses pulled up.
pub open spec fn active_actions(layout: BoardLayout) -> Seq<PinAction> {
    for_pin(layout.sensor_enable, |p: u8| seq![PinAction::Output(p, 0)]) + for_pin(
        layout.i2c0_sda,
        |p: u8| seq![PinAction::InputPullUp(p)],
    ) + for_pin(layout.i2c0_scl, |p: u8| seq![PinAction::InputPullUp(p)]) + for_pin(
        layout.one_wire_data,
        |p: u8| seq![PinAction::InputPullUp(p)],
    ) + for_pin(layout.battery_adc, |p: u8| seq![PinAction::InputNoPull(p)])
}

/// Whether bit `i` of `mask` is set.
pub open spec fn in_mask(mask: u64, i: u64) -> bool {
    mask & (1u64 << i) != 0
}

/// Inputs without pull resistors for the pins in `mask` below `n`, in order.
pub open spec fn released(mask: u64, n: nat) -> Seq<PinAction>
    decreases n,
{
    if n == 0 {
        Seq::empty()
    } else if in_mask(mask, (n - 1) as u64) {
        released(mask, (n - 1) as nat).push(PinAction::InputNoPull((n - 1) as u8))
    } else {
        released(mask, (n - 1) as nat)
    }
}

/// State of the hardware layer.
#[derive(Clone, Copy, Debug, PartialEq, Eq, Structural)]
pub struct HalState {
    pub i2c0_initialized: bool,
    pub board_layout: BoardLayout,
    /// Whether the ADC unit was created.
    pub adc_unit: bool,
    /// Bit mask of the pins that were made outputs.
    pub gpio_output_configured: u64,
    /// Bit mask of the configured ADC channels.
    pub adc_channels_configured: u32,
    /// Bit mask of the calibrated ADC channels.
    pub adc_channels_calibrated: u32,
}

/// Whether bit `i` of `mask` is set.
pub open spec fn in_mask32(mask: u32, i: u32) -> bool {
    mask & (1u32 << i) != 0
}

/// Append one action to those in `out` where the board provides the pin.
fn push_rest(out: &mut Vec<PinAction>, pin: Option<u8>)
    ensures
        final(out)@ == old(out)@ + for_pin(pin, |p: u8| rest(p)),
{
    let ghost before = out@;
    if let Some(p) = pin {
        out.push(PinAction::InputNoPull(p));
        out.push(PinAction::SleepFloating(p));
    }
    assert(out@ =~= before + for_pin(pin, |p: u8| rest(p)));
}

/// Append a pull-up input where the board provides the pin.
fn push_pull_up(out: &mut Vec<PinAction>, pin: Option<u8>)
    ensures
        final(out)@ == old(out)@ + for_pin(pin, |p: u8| seq![PinAction::InputPullUp(p)]),
{
    let ghost before = out@;
    if let Some(p) = pin {
        out.push(PinAction::InputPullUp(p));
    }
    assert(out@ =~= before + for_pin(pin, |p: u8| seq![PinAction::InputPullUp(p)]));
}

impl HalState {
    /// The state at boot, before the idle state is entered.
    pub fn new(board_layout: BoardLayout) -> (state: HalState)
        ensures
            state == (HalState {
                i2c0_initialized: false,
                board_layout,
                adc_unit: false,
                gpio_output_configured: 0,
                adc_channels_configured: 0,
                adc_channels_calibrated: 0,
            }),
    {
        HalState {
            i2c0_initialized: false,
            board_layout,
            adc_unit: false,
            gpio_output_configured: 0,
            adc_channels_configured: 0,
            adc_channels_calibrated: 0,
        }
    }

    /// What is needed before a bus can be used.
    pub open spec fn port(self, bus: int) -> I2cPort {
        if bus != 0 {
            I2cPort::Unavailable
        } else if self.i2c0_initialized {
            I2cPort::Ready
        } else {
            match (self.board_layout.i2c0_sda, self.board_layout.i2c0_scl) {
                (Some(sda), Some(scl)) => I2cPort::Initialize { sda, scl },
                _ => I2cPort::Unavailable,
            }
        }
    }

    /// What is needed before the bus of a handle can be used.  There is one
    /// bus, which is initialized on first use.
    pub fn i2c_port(&self, handle: u32) -> (port: I2cPort)
        ensures
            port == self.port(bus_of(handle)),
    {
        if handle_bus(handle) != 0 {
            return I2cPort::Unavailable;
        }
        if self.i2c0_initialized {
            return I2cPort::Ready;
        }
        match (self.board_layout.i2c0_sda, self.board_layout.i2c0_scl) {
            (Some(sda), Some(scl)) => I2cPort::Initialize { sda, scl },
            _ => I2cPort::Unavailable,
        }
    }

    /// The bus was initialized, or could not be.
    pub fn i2c_initialized(&mut self, ok: bool)
        ensures
            *final(self) == (HalState {
                i2c0_initialized: old(self).i2c0_initialized || ok,
                ..*old(self)
            }),
    {
        if ok {
            self.i2c0_initialized = true;
        }
    }

    /// Plan a read of `len` bytes, on a bus that is available or not.
    pub fn i2c_read(&self, handle: u32, len: usize, available: bool) -> (plan: I2cPlan)
        ensures
            plan@ == (if !available {
                BusPlan::Return { code: -1 }
            } else if len == 0 {
                BusPlan::Return { code: 0 }
            } else {
                BusPlan::Transact {
                    ops: read_transaction(addr_of(handle) as u8, len as nat),
                }
            }),
            plan@ matches BusPlan::Transact { ops } ==> bytes_read(ops) == len && bytes_written(ops)
                == seq![(handle % 128 * 2 + 1) as u8],
    {
        if !available {
            return I2cPlan::Return(HAL_ERROR);
        }
        if len == 0 {
            return I2cPlan::Return(0);
        }
        I2cPlan::Transact(read_ops(handle_addr(handle), len))
    }

    /// Plan a write, on a bus that is available or not.
    pub fn i2c_write(&self, handle: u32, data: &[u8], available: bool) -> (plan: I2cPlan)
        ensures
            plan@ == (if !available {
                BusPlan::Return { code: -1 }
            } else {
                BusPlan::Transact { ops: write_transaction(addr_of(handle) as u8, data@) }
            }),
            plan@ matches BusPlan::Transact { ops } ==> bytes_read(ops) == 0 && bytes_written(ops)
                == seq![(handle % 128 * 2) as u8] + data@,
    {
        if !available {
            return I2cPlan::Return(HAL_ERROR);
        }
        I2cPlan::Transact(write_ops(handle_addr(handle), data))
    }

    /// Plan a write and a read in one transaction, on a bus that is available
    /// or not.  Without bytes to read it is a plain write.
    pub fn i2c_write_read(&self, handle: u32, data: &[u8], len: usize, available: bool) -> (plan:
        I2cPlan)
        ensures
            plan@ == (if !available {
                BusPlan::Return { code: -1 }
            } else if len == 0 {
                BusPlan::Transact { ops: write_transaction(addr_of(handle) as u8, data@) }
            } else {
                BusPlan::Transact {
                    ops: write_read_transaction(addr_of(handle) as u8, data@, len as nat),
                }
            }),
            plan@ matches BusPlan::Transact { ops } ==> bytes_read(ops) == len && bytes_written(ops)
                == (if len == 0 {
                seq![(handle % 128 * 2) as u8] + data@
            } else {
                seq![(handle % 128 * 2) as u8] + data@ + seq![(handle % 128 * 2 + 1) as u8]
            }),
    {
        if !available {
            return I2cPlan::Return(HAL_ERROR);
        }
        if len == 0 {
            return self.i2c_write(handle, data, available);
        }
        I2cPlan::Transact(write_read_ops(handle_addr(handle), data, len))
    }

    /// SPI is not available: it needs a chip-select pin per device.
    pub fn spi_transfer(&self, _handle: u32) -> (code: i32)
        ensures
            code == HAL_ERROR,
    {
        HAL_ERROR
    }

    /// Whether a pin exists.
    pub fn gpio_readable(&self, pin: u32) -> (readable: bool)
        ensures
            readable == (pin <= MAX_PIN),
    {
        pin <= MAX_PIN
    }

    /// Plan to set a pin; it is made an output on first use.
    pub fn gpio_write(&self, pin: u32, value: u32) -> (plan: GpioPlan)
        ensures
            plan == (if pin > MAX_PIN {
                GpioPlan::Invalid
            } else {
                GpioPlan::Write {
                    configure: !in_mask(self.gpio_output_configured, pin as u64),
                    level: if value != 0 {
                        1
                    } else {
                        0
                    },
                }
            }),
    {
        if pin > MAX_PIN {
            return GpioPlan::Invalid;
        }
        let bit: u64 = 1u64 << (pin as u64);
        let level: u32 = if value != 0 {
            1
        } else {
            0
        };
        GpioPlan::Write { configure: self.gpio_output_configured & bit == 0, level }
    }

    /// A pin was made an output.
    pub fn gpio_configured(&mut self, pin: u32)
        requires
            pin <= MAX_PIN,
        ensures
            final(self).gpio_output_configured == old(self).gpio_output_configured | (1u64
                << pin as u64),
            *final(self) == (HalState {
                gpio_output_configured: final(self).gpio_output_configured,
                ..*old(self)
            }),
            in_mask(final(self).gpio_output_configured, pin as u64),
            forall|other: u64|
                other < 64 && other != pin ==> #[trigger] in_mask(
                    final(self).gpio_output_configured,
                    other,
                ) == in_mask(old(self).gpio_output_configured, other),
    {
        let bit: u64 = 1u64 << (pin as u64);
        let before = self.gpio_output_configured;
        self.gpio_output_configured = before | bit;
        proof {
            let p = pin as u64;
            assert((before | (1u64 << p)) & (1u64 << p) != 0) by (bit_vector)
                requires
                    p < 64,
            ;
            assert forall|other: u64| other < 64 && other != pin implies #[trigger] in_mask(
                self.gpio_output_configured,
                other,
            ) == in_mask(before, other) by {
                assert((before | (1u64 << p)) & (1u64 << other) == before & (1u64
                    << other)) by (bit_vector)
                    requires
                        p < 64,
                        other < 64,
                        p != other,
                ;
            }
        }
    }

    /// What is needed before an ADC channel can be read.
    pub open spec fn adc_need(self, channel: u32) -> AdcPlan {
        if channel >= ADC_CHANNELS {
            AdcPlan::Invalid
        } else if !self.adc_unit {
            AdcPlan::CreateUnit
        } else if !in_mask32(self.adc_channels_configured, channel) {
            AdcPlan::ConfigureChannel
        } else {
            AdcPlan::Ready
        }
    }

    /// What is needed before an ADC channel can be read.
    pub fn adc_channel_plan(&self, channel: u32) -> (plan: AdcPlan)
        ensures
            plan == self.adc_need(channel),
    {
        if channel >= ADC_CHANNELS {
            return AdcPlan::Invalid;
        }
        if !self.adc_unit {
            return AdcPlan::CreateUnit;
        }
        if self.adc_channels_configured & (1u32 << channel) == 0 {
            return AdcPlan::ConfigureChannel;
        }
        AdcPlan::Ready
    }

    /// What is needed before readings of an ADC channel can be converted.
    pub fn adc_calibration_plan(&self, channel: u32) -> (plan: AdcPlan)
        ensures
            plan == (if channel >= ADC_CHANNELS {
                AdcPlan::Invalid
            } else if in_mask32(self.adc_channels_calibrated, channel) {
                AdcPlan::Ready
            } else if self.adc_need(channel) == AdcPlan::Ready {
                AdcPlan::Calibrate
            } else {
                self.adc_need(channel)
            }),
    {
        if channel >= ADC_CHANNELS {
            return AdcPlan::Invalid;
        }
        if self.adc_channels_calibrated & (1u32 << channel) != 0 {
            return AdcPlan::Ready;
        }
        match self.adc_channel_plan(channel) {
            AdcPlan::Ready => AdcPlan::Calibrate,
            plan => plan,
        }
    }

    /// What was needed for an ADC channel was done, or could not be.
    pub fn adc_done(&mut self, plan: AdcPlan, channel: u32, ok: bool)
        requires
            channel < ADC_CHANNELS,
        ensures
            *final(self) == (if !ok {
                *old(self)
            } else {
                match plan {
                    AdcPlan::CreateUnit => HalState { adc_unit: true, ..*old(self) },
                    AdcPlan::ConfigureChannel => HalState {
                        adc_channels_configured: old(self).adc_channels_configured | (1u32
                            << channel),
                        ..*old(self)
                    },
                    AdcPlan::Calibrate => HalState {
                        adc_channels_calibrated: old(self).adc_channels_calibrated | (1u32
                            << channel),
                        ..*old(self)
                    },
                    _ => *old(self),
                }
            }),
    {
        if ok {
            match plan {
                AdcPlan::CreateUnit => {
                    self.adc_unit = true;
                },
                AdcPlan::ConfigureChannel => {
                    self.adc_channels_configured = self.adc_channels_configured | (1u32 << channel);
                },
                AdcPlan::Calibrate => {
                    self.adc_channels_calibrated = self.adc_channels_calibrated | (1u32 << channel);
                },
                _ => {},
            }
        }
    }

    /// The state once the idle state was entered.
    pub open spec fn idled(self, driver_deleted: bool) -> HalState {
        HalState {
            i2c0_initialized: self.i2c0_initialized && !driver_deleted,
            board_layout: self.board_layout,
            adc_unit: false,
            gpio_output_configured: 0,
            adc_channels_configured: 0,
            adc_channels_calibrated: 0,
        }
    }

    /// Enter the idle state.  `driver_deleted` says whether the I2C driver
    /// could be removed, where it was installed.  Returns what is to be done
    /// with the pins, in order; all outputs are released first.
    pub fn enter_idle_gpio_state(&mut self, driver_deleted: bool) -> (actions: Vec<PinAction>)
        ensures
            *final(self) == old(self).idled(driver_deleted),
            actions@ == released(old(self).gpio_output_configured, 64) + idle_actions(
                old(self).board_layout,
            ),
    {
        if self.i2c0_initialized && driver_deleted {
            self.i2c0_initialized = false;
        }
        let mask = self.gpio_output_configured;
        let mut actions: Vec<PinAction> = Vec::new();
        let mut pin: u64 = 0;
        while pin < 64
            invariant
                pin <= 64,
                actions@ == released(mask, pin as nat),
            decreases 64 - pin,
        {
            if mask & (1u64 << pin) != 0 {
                actions.push(PinAction::InputNoPull(pin as u8));
            }
            pin = pin + 1;
        }
        let layout = self.board_layout;
        push_rest(&mut actions, layout.battery_adc);
        push_rest(&mut actions, layout.one_wire_data);
        push_rest(&mut actions, layout.i2c0_sda);
        push_rest(&mut actions, layout.i2c0_scl);
        if let Some(p) = layout.sensor_enable {
            actions.push(PinAction::Output(p, 1));
            actions.push(PinAction::SleepOutput(p, 1));
        }
        assert(actions@ =~= released(mask, 64) + idle_actions(layout));
        self.gpio_output_configured = 0;
        self.adc_unit = false;
        self.adc_channels_configured = 0;
        self.adc_channels_calibrated = 0;
        actions
    }

    /// What is to be done with the pins to enter the active state, in order.
    pub fn enter_active_gpio_state(&self) -> (actions: Vec<PinAction>)
        ensures
            actions@ == active_actions(self.board_layout),
    {
        let layout = self.board_layout;
        let mut actions: Vec<PinAction> = Vec::new();
        if let Some(p) = layout.sensor_enable {
            actions.push(PinAction::Output(p, 0));
        }
        push_pull_up(&mut actions, layout.i2c0_sda);
        push_pull_up(&mut actions, layout.i2c0_scl);
        push_pull_up(&mut actions, layout.one_wire_data);
        if let Some(p) = layout.battery_adc {
            actions.push(PinAction::InputNoPull(p));
        }
        assert(actions@ =~= active_actions(layout));
        actions
    }
}

/// The result code of a bus transaction.
pub fn bus_code(ok: bool) -> (code: i32)
    ensures
        code == (if ok {
            0
        } else {
            -1int
        }),
{
    if ok {
        0
    } else {
        HAL_ERROR
    }
}

/// The raw code and the millivolts of an ADC reading: `raw` is `None` where
/// nothing could be read, `mv` where the reading could not be converted.
pub fn adc_diagnostics(raw: Option<i32>, mv: Option<i32>) -> (sample: (i32, i32))
    ensures
        sample == (match raw {
            None => (HAL_ERROR, HAL_ERROR),
            Some(r) => if r < 0 {
                (r, r)
            } else {
                match mv {
                    Some(m) => (r, m),
                    None => (r, HAL_ERROR),
                }
            },
        }),
{
    match raw {
        None => (HAL_ERROR, HAL_ERROR),
        Some(r) => if r < 0 {
            (r, r)
        } else {
            match mv {
                Some(m) => (r, m),
                None => (r, HAL_ERROR),
            }
        },
    }
}

/// After the idle state is entered no pin counts as an output, and the ADC has
/// to be set up again before it is read.
pub proof fn law_idle_forgets_outputs(
    state: HalState,
    driver_deleted: bool,
    pin: u64,
    channel: u32,
)
    requires
        pin < 64,
        channel < ADC_CHANNELS,
    ensures
        !in_mask(state.idled(driver_deleted).gpio_output_configured, pin),
        state.idled(driver_deleted).adc_need(channel) == AdcPlan::CreateUnit,
{
    assert(0u64 & (1u64 << pin) == 0) by (bit_vector);
}

/// In the idle state the sensors are off and in the active state they are on,
/// where the board has a pin for that: the last word on that pin is high or
/// low.
pub proof fn law_sensor_rail(layout: BoardLayout, pin: u8)
    requires
        layout.sensor_enable == Some(pin),
    ensures
        idle_actions(layout).last() == PinAction::SleepOutput(pin, 1),
        active_actions(layout)[0] == PinAction::Output(pin, 0),
{
    let tail = for_pin(layout.sensor_enable, |p: u8| sensors_off(p));
    assert(idle_actions(layout).last() == tail.last());
}

/// Number of pins that a board provides.
pub open spec fn pin_count(layout: BoardLayout) -> nat {
    one_if(layout.i2c0_sda is Some) + one_if(layout.i2c0_scl is Some) + one_if(
        layout.one_wire_data is Some,
    ) + one_if(layout.battery_adc is Some) + one_if(layout.sensor_enable is Some)
}

/// One where something holds, else zero.
pub open spec fn one_if(holds: bool) -> nat {
    if holds {
        1
    } else {
        0
    }
}

/// In the idle state every input of the board is without pull resistors and
/// disconnected during sleep, the sensors are switched off and kept off during
/// sleep, and nothing else is done.
pub proof fn law_idle_boards_draw_no_current(layout: BoardLayout, pin: u8)
    requires
        layout.i2c0_sda == Some(pin) || layout.i2c0_scl == Some(pin) || layout.one_wire_data
            == Some(pin) || layout.battery_adc == Some(pin) || layout.sensor_enable == Some(pin),
    ensures
        layout.sensor_enable != Some(pin) ==> idle_actions(layout).contains(
            PinAction::InputNoPull(pin),
        ) && idle_actions(layout).contains(PinAction::SleepFloating(pin)),
        layout.sensor_enable == Some(pin) ==> idle_actions(layout).contains(
            PinAction::Output(pin, 1),
        ) && idle_actions(layout).contains(PinAction::SleepOutput(pin, 1)),
        idle_actions(layout).len() == 2 * pin_count(layout),
{
    let a = for_pin(layout.battery_adc, |p: u8| rest(p));
    let b = for_pin(layout.one_wire_data, |p: u8| rest(p));
    let c = for_pin(layout.i2c0_sda, |p: u8| rest(p));
    let d = for_pin(layout.i2c0_scl, |p: u8| rest(p));
    let e = for_pin(layout.sensor_enable, |p: u8| sensors_off(p));
    let all = idle_actions(layout);
    assert(all == a + b + c + d + e);
    let (na, nb, nc, nd) = (a.len() as int, b.len() as int, c.len() as int, d.len() as int);
    if layout.sensor_enable == Some(pin) {
        let n = na + nb + nc + nd;
        assert(all[n] == e[0] && all[n + 1] == e[1]);
    } else {
        let n = if layout.battery_adc == Some(pin) {
            0
        } else if layout.one_wire_data == Some(pin) {
            na
        } else if layout.i2c0_sda == Some(pin) {
            na + nb
        } else {
            na + nb + nc
        };
        assert(all[n] == PinAction::InputNoPull(pin));
        assert(all[n + 1] == PinAction::SleepFloating(pin));
    }
}

/// In the active state the sensors are switched on, the pins of the buses are
/// pulled up, that of the battery is not, and nothing else is done.
pub proof fn law_active_boards_are_powered(layout: BoardLayout, pin: u8)
    ensures
        layout.sensor_enable == Some(pin) ==> active_actions(layout).contains(
            PinAction::Output(pin, 0),
        ),
        layout.i2c0_sda == Some(pin) || layout.i2c0_scl == Some(pin) || layout.one_wire_data
            == Some(pin) ==> active_actions(layout).contains(PinAction::InputPullUp(pin)),
        layout.battery_adc == Some(pin) ==> active_actions(layout).contains(
            PinAction::InputNoPull(pin),
        ),
        active_actions(layout).len() == pin_count(layout),
{
    let a = for_pin(layout.sensor_enable, |p: u8| seq![PinAction::Output(p, 0)]);
    let b = for_pin(layout.i2c0_sda, |p: u8| seq![PinAction::InputPullUp(p)]);
    let c = for_pin(layout.i2c0_scl, |p: u8| seq![PinAction::InputPullUp(p)]);
    let d = for_pin(layout.one_wire_data, |p: u8| seq![PinAction::InputPullUp(p)]);
    let e = for_pin(layout.battery_adc, |p: u8| seq![PinAction::InputNoPull(p)]);
    let all = active_actions(layout);
    assert(all == a + b + c + d + e);
    let (na, nb, nc, nd) = (a.len() as int, b.len() as int, c.len() as int, d.len() as int);
    if layout.sensor_enable == Some(pin) {
        assert(all[0] == PinAction::Output(pin, 0));
    }
    if layout.i2c0_sda == Some(pin) {
        assert(all[na] == PinAction::InputPullUp(pin));
    } else if layout.i2c0_scl == Some(pin) {
        assert(all[na + nb] == PinAction::InputPullUp(pin));
    } else if layout.one_wire_data == Some(pin) {
        assert(all[na + nb + nc] == PinAction::InputPullUp(pin));
    }
    if layout.battery_adc == Some(pin) {
        assert(all[na + nb + nc + nd] == PinAction::InputNoPull(pin));
    }
}

/// Exactly the pins that were made outputs are released, each once and in order.
pub proof fn law_all_outputs_are_released(mask: u64, n: nat, pin: nat)
    requires
        n <= 64,
    ensures
        pin < n && in_mask(mask, pin as u64) ==> released(mask, n).contains(
            PinAction::InputNoPull(pin as u8),
        ),
        forall|i: int|
            0 <= i < released(mask, n).len() ==> (#[trigger] released(mask, n)[i] matches
                PinAction::InputNoPull(p) && p < n && in_mask(mask, p as u64)),
        forall|i: int, j: int|
            0 <= i < j < released(mask, n).len() ==> (#[trigger] released(mask, n)[i]
                != #[trigger] released(mask, n)[j]),
    decreases n,
{
    if n > 0 {
        let m = (n - 1) as nat;
        law_all_outputs_are_released(mask, m, pin);
        let before = released(mask, m);
        let all = released(mask, n);
        if in_mask(mask, m as u64) {
            assert(all.last() == PinAction::InputNoPull(m as u8));
            assert(all[all.len() - 1] == all.last());
            assert forall|i: int| 0 <= i < all.len() implies (#[trigger] all[i] matches
                PinAction::InputNoPull(p) && p < n && in_mask(mask, p as u64)) by {
                if i < before.len() {
                    assert(all[i] == before[i]);
                }
            }
            assert forall|i: int, j: int| 0 <= i < j < all.len() implies #[trigger] all[i]
                != #[trigger] all[j] by {
                assert(all[i] == before[i]);
                if j < before.len() {
                    assert(all[j] == before[j]);
                }
            }
            if pin < m && in_mask(mask, pin as u64) {
                let k = choose|k: int|
                    0 <= k < before.len() && before[k] == PinAction::InputNoPull(pin as u8);
                assert(all[k] == before[k]);
            }
        }
    }
}

/// There is one bus, numbered 0; it is initialized on first use, on the pins of
/// the board, and is not available where the board lacks one of them.
pub proof fn law_one_bus_is_available(state: HalState, bus: int)
    ensures
        bus != 0 ==> state.port(bus) is Unavailable,
        state.i2c0_initialized ==> state.port(0) is Ready,
        !state.i2c0_initialized ==> (state.port(0) is Unavailable <==> (
        state.board_layout.i2c0_sda is None || state.board_layout.i2c0_scl is None)),
        state.port(0) matches I2cPort::Initialize { sda, scl } ==> state.board_layout.i2c0_sda
            == Some(sda) && state.board_layout.i2c0_scl == Some(scl),
        !state.i2c0_initialized ==> !(state.port(0) is Ready),
{
}

/// There are five ADC channels; a channel is read once the unit exists and the
/// channel is configured, in that order.  Pins are numbered up to 39.
pub proof fn law_adc_is_set_up_in_order(state: HalState, channel: u32)
    ensures
        state.adc_need(channel) is Invalid <==> channel >= 5,
        channel < 5 && !state.adc_unit ==> state.adc_need(channel) is CreateUnit,
        channel < 5 && state.adc_unit ==> (state.adc_need(channel) is Ready <==> in_mask32(
            state.adc_channels_configured,
            channel,
        )),
        channel < 5 && state.adc_unit && !(state.adc_need(channel) is Ready) ==> state.adc_need(
            channel,
        ) is ConfigureChannel,
        MAX_PIN == 39,
        HAL_ERROR == -1,
{
}

/// The idle state keeps the layout and forgets everything that was set up; a bus
/// whose driver could not be removed stays initialized.
pub proof fn law_idle_state_is_set_up_again(state: HalState, driver_deleted: bool)
    ensures
        ({
            let after = state.idled(driver_deleted);
            &&& after.board_layout == state.board_layout
            &&& !after.adc_unit && after.adc_channels_configured == 0
            &&& after.adc_channels_calibrated == 0 && after.gpio_output_configured == 0
            &&& driver_deleted ==> !after.i2c0_initialized
            &&& !driver_deleted ==> after.i2c0_initialized == state.i2c0_initialized
        }),
{
}

/// A bit of a mask stands for one pin or channel alone.
pub proof fn law_masks_tell_pins_apart(i: u64, j: u64)
    requires
        i < 64,
        j < 64,
    ensures
        in_mask(1u64 << i, j) <==> i == j,
        !in_mask(0, i),
{
    assert(((1u64 << i) & (1u64 << j) != 0) == (i == j)) by (bit_vector)
        requires
            i < 64,
            j < 64,
    ;
    assert(0u64 & (1u64 << i) == 0) by (bit_vector);
}

/// A bit of a mask stands for one channel alone.
pub proof fn law_masks_tell_channels_apart(i: u32, j: u32)
    requires
        i < 32,
        j < 32,
    ensures
        in_mask32(1u32 << i, j) <==> i == j,
        !in_mask32(0, i),
{
    assert(((1u32 << i) & (1u32 << j) != 0) == (i == j)) by (bit_vector)
        requires
            i < 32,
            j < 32,
    ;
    assert(0u32 & (1u32 << i) == 0) by (bit_vector);
}

/// A plan stands for its code or its operations.
pub proof fn law_plans_stand_for_themselves(plan: I2cPlan)
    ensures
        plan matches I2cPlan::Return(code) ==> plan@ == (BusPlan::Return { code: code as int }),
        plan matches I2cPlan::Transact(ops) ==> plan@ == (BusPlan::Transact {
            ops: ops_view(ops@),
        }),
{
}

} // verus!
