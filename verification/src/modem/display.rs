//! SSD1306 OLED display logic: frame flushing page by page, panel power
//! management and the degraded mode without a panel.
//!
//! The I2C bus is driven from outside: a poll says what is to be written, and
//! the outcome of the write is handed back.

use vstd::prelude::*;

use crate::i2c::{
    bytes_read, bytes_written, control_ops, control_transaction, is_transaction,
    law_control_byte_comes_first, ops_view, I2cOp,
};

verus! {

/// Timeout of one I2C transaction, in milliseconds.
pub const I2C_TIMEOUT_MS: u32 = 25;

/// I2C address of the panel.
pub const OLED_ADDR: u8 = 0x3C;

/// Time without a new frame after which the panel is put to sleep, in
/// nanoseconds.
pub const DISPLAY_IDLE_TIMEOUT_NS: u64 = 300_000_000_000;

/// Command that switches the panel off.
pub const SSD1306_DISPLAY_OFF: u8 = 0xAE;

/// Command that switches the panel on.
pub const SSD1306_DISPLAY_ON: u8 = 0xAF;

/// Control byte that introduces commands.
pub const CONTROL_COMMANDS: u8 = 0x00;

/// Control byte that introduces display data.
pub const CONTROL_DATA: u8 = 0x40;

/// The panel's initialization sequence.
pub const SSD1306_INIT: [u8; 28] = [
    0xAE,
    0x20,
    0x02,
    0xB0,
    0xC8,
    0x00,
    0x10,
    0x40,
    0x81,
    0x7F,
    0xA1,
    0xA6,
    0xA8,
    0x3F,
    0xA4,
    0xD3,
    0x00,
    0xD5,
    0x80,
    0xD9,
    0xF1,
    0xDA,
    0x12,
    0xDB,
    0x20,
    0x8D,
    0x14,
    0xAF,
];

/// A display write failed.
#[derive(Clone, Copy, Debug, PartialEq, Eq, Structural)]
pub enum DisplayError {
    WriteFailed,
}

/// What the panel's power state calls for.
#[derive(Clone, Copy, Debug, PartialEq, Eq, Structural)]
pub enum PanelPowerCommand {
    Keep,
    Wake,
    Sleep,
}

/// Power management of the panel: it sleeps after a while without a frame and
/// wakes for the next one.
#[derive(Clone, Copy, Debug, PartialEq, Eq, Structural)]
pub struct IdlePowerState {
    pub panel_awake: bool,
    pub last_frame_at: Option<u64>,
}

impl Default for IdlePowerState {
    fn default() -> (state: IdlePowerState)
        ensures
            state == (IdlePowerState { panel_awake: false, last_frame_at: None }),
    {
        IdlePowerState { panel_awake: false, last_frame_at: None }
    }
}

impl IdlePowerState {
    /// Whether the last frame is so old at `now_ns` that an awake panel is put
    /// to sleep.
    pub open spec fn idle_at(self, now_ns: u64) -> bool {
        self.panel_awake && match self.last_frame_at {
            Some(at) => now_ns - at >= DISPLAY_IDLE_TIMEOUT_NS,
            None => false,
        }
    }

    /// What a poll calls for.
    pub open spec fn command_at(
        self,
        now_ns: u64,
        flush_pending: bool,
        initialized: bool,
    ) -> PanelPowerCommand {
        if flush_pending {
            if initialized && !self.panel_awake {
                PanelPowerCommand::Wake
            } else {
                PanelPowerCommand::Keep
            }
        } else if self.idle_at(now_ns) {
            PanelPowerCommand::Sleep
        } else {
            PanelPowerCommand::Keep
        }
    }

    /// The power state once the command is carried out.
    pub open spec fn following(self, command: PanelPowerCommand) -> IdlePowerState {
        match command {
            PanelPowerCommand::Keep => self,
            PanelPowerCommand::Wake => IdlePowerState { panel_awake: true, ..self },
            PanelPowerCommand::Sleep => IdlePowerState { panel_awake: false, ..self },
        }
    }

    /// A new frame was accepted.
    pub fn note_frame_accepted_at(&mut self, now_ns: u64)
        ensures
            *final(self) == (IdlePowerState { last_frame_at: Some(now_ns), ..*old(self) }),
    {
        self.last_frame_at = Some(now_ns);
    }

    /// The panel was initialized, which switches it on.
    pub fn mark_initialized(&mut self)
        ensures
            *final(self) == (IdlePowerState { panel_awake: true, ..*old(self) }),
    {
        self.panel_awake = true;
    }

    /// A display reset keeps the sleep deadline.
    pub fn reset(&mut self)
        ensures
            *final(self) == *old(self),
    {
    }

    /// Decide what the panel's power state calls for.
    pub fn poll_at(
        &mut self,
        now_ns: u64,
        flush_pending: bool,
        initialized: bool,
    ) -> (command: PanelPowerCommand)
        ensures
            command == old(self).command_at(now_ns, flush_pending, initialized),
            *final(self) == old(self).following(command),
    {
        if flush_pending {
            if initialized && !self.panel_awake {
                self.panel_awake = true;
                return PanelPowerCommand::Wake;
            }
            return PanelPowerCommand::Keep;
        }
        if self.panel_awake {
            if let Some(at) = self.last_frame_at {
                if now_ns.saturating_sub(at) >= DISPLAY_IDLE_TIMEOUT_NS {
                    self.panel_awake = false;
                    return PanelPowerCommand::Sleep;
                }
            }
        }
        PanelPowerCommand::Keep
    }
}

/// Whether the pixel in column `x` and row `y` of a frame is lit.  Rows are 16
/// bytes long, and a byte's high bit is its leftmost pixel.
pub open spec fn pixel(frame: Seq<u8>, x: int, y: int) -> bool {
    frame[y * 16 + x / 8] & (0x80u8 >> ((x % 8) as u8)) != 0
}

/// Whether bit `bit` of `byte` is set.
pub open spec fn bit_of(byte: u8, bit: u8) -> bool {
    byte & (1u8 << bit) != 0
}

/// Whether `column` is what the panel shows in column `x` of page `page`: one
/// bit for each of the page's eight rows, the top row lowest.
pub open spec fn shows_column(frame: Seq<u8>, page: int, x: int, column: u8) -> bool {
    forall|bit: u8| bit < 8 ==> #[trigger] bit_of(column, bit) == pixel(frame, x, page * 8 + bit)
}

/// Whether `data` is what the panel shows on page `page`.
pub open spec fn shows_page(frame: Seq<u8>, page: int, data: Seq<u8>) -> bool {
    &&& data.len() == 128
    &&& forall|x: int| 0 <= x < 128 ==> shows_column(frame, page, x, #[trigger] data[x])
}

/// What a poll asks to be written to the panel.
#[derive(Clone, Copy, Debug, PartialEq, Eq, Structural)]
pub enum DisplayStep {
    /// Nothing to write.
    Nothing,
    /// Switch the panel off.
    SleepPanel,
    /// Run the initialization sequence.
    InitPanel,
    /// Switch the panel on.
    WakePanel,
    /// Select a page and write its data.
    FlushPage { page: u8 },
}

/// The commands that a step writes.
pub open spec fn step_commands(step: DisplayStep) -> Seq<u8> {
    match step {
        DisplayStep::Nothing => Seq::empty(),
        DisplayStep::SleepPanel => seq![SSD1306_DISPLAY_OFF],
        DisplayStep::InitPanel => SSD1306_INIT@,
        DisplayStep::WakePanel => seq![SSD1306_DISPLAY_ON],
        DisplayStep::FlushPage { page } => seq![(0xB0 + page) as u8, 0x00u8, 0x10u8],
    }
}

/// The commands that a step writes.
pub fn commands(step: DisplayStep) -> (bytes: Vec<u8>)
    requires
        step matches DisplayStep::FlushPage { page } ==> page < 8,
    ensures
        bytes@ == step_commands(step),
        last_power(bytes@) == (match step {
            DisplayStep::InitPanel => Some(true),
            DisplayStep::WakePanel => Some(true),
            DisplayStep::SleepPanel => Some(false),
            _ => None,
        }),
        step is InitPanel ==> bytes@ == SSD1306_INIT@,
{
    let mut bytes: Vec<u8> = Vec::new();
    match step {
        DisplayStep::Nothing => {},
        DisplayStep::SleepPanel => {
            bytes.push(SSD1306_DISPLAY_OFF);
        },
        DisplayStep::InitPanel => {
            let init = SSD1306_INIT;
            bytes = crate::bytes::copy_bytes(init.as_slice());
        },
        DisplayStep::WakePanel => {
            bytes.push(SSD1306_DISPLAY_ON);
        },
        DisplayStep::FlushPage { page } => {
            bytes.push(0xB0 + page);
            bytes.push(0x00);
            bytes.push(0x10);
        },
    }
    assert(bytes@ =~= step_commands(step));
    proof {
        law_commands_switch_power(step);
    }
    bytes
}

/// The I2C operations that write commands to the panel.
pub fn command_ops(bytes: &[u8]) -> (ops: Vec<I2cOp>)
    ensures
        ops_view(ops@) == control_transaction(OLED_ADDR, CONTROL_COMMANDS, bytes@),
{
    control_ops(OLED_ADDR, CONTROL_COMMANDS, bytes)
}

/// The I2C operations that write display data to the panel.
pub fn data_ops(bytes: &[u8]) -> (ops: Vec<I2cOp>)
    ensures
        ops_view(ops@) == control_transaction(OLED_ADDR, CONTROL_DATA, bytes@),
{
    control_ops(OLED_ADDR, CONTROL_DATA, bytes)
}

/// The least `n` with `n * 1000 >= 25 * rate`, but at least one, where the
/// product is capped at the largest `u32`.
pub open spec fn timeout_ticks(tick_rate_hz: u32) -> int {
    let rate = if tick_rate_hz == 0 {
        1int
    } else {
        tick_rate_hz as int
    };
    let product = if I2C_TIMEOUT_MS * rate > u32::MAX {
        u32::MAX as int
    } else {
        I2C_TIMEOUT_MS * rate
    };
    (product + 999) / 1000
}

/// Timeout of one I2C transaction in scheduler ticks, rounded up.
pub fn i2c_timeout_ticks(tick_rate_hz: u32) -> (ticks: u32)
    ensures
        ticks as int == timeout_ticks(tick_rate_hz),
        ticks >= 1,
{
    let rate: u64 = if tick_rate_hz < 1 {
        1
    } else {
        tick_rate_hz as u64
    };
    let product: u64 = (I2C_TIMEOUT_MS as u64) * rate;
    let capped: u64 = if product > 0xffff_ffff {
        0xffff_ffff
    } else {
        product
    };
    ((capped + 999) / 1000) as u32
}

/// The display's state as mathematical values.
pub ghost struct DisplayView {
    pub frame: Seq<u8>,
    /// Data of the page that was prepared last.
    pub page_data: Seq<u8>,
    pub flush_page: u8,
    pub flush_pending: bool,
    pub initialized: bool,
    pub power: IdlePowerState,
}

impl DisplayView {
    /// A frame is 1024 bytes and a page 128; there are eight pages.
    pub open spec fn wf(self) -> bool {
        self.frame.len() == 1024 && self.page_data.len() == 128 && self.flush_page < 8
    }

    /// What a poll at `now_ns` asks to be written.
    pub open spec fn step_at(self, now_ns: u64) -> DisplayStep {
        if !self.flush_pending {
            if self.power.idle_at(now_ns) {
                DisplayStep::SleepPanel
            } else {
                DisplayStep::Nothing
            }
        } else if !self.initialized {
            DisplayStep::InitPanel
        } else if !self.power.panel_awake {
            DisplayStep::WakePanel
        } else {
            DisplayStep::FlushPage { page: self.flush_page }
        }
    }

    /// The power state after a poll has decided on `step`.
    pub open spec fn power_after(self, step: DisplayStep) -> IdlePowerState {
        match step {
            DisplayStep::SleepPanel => IdlePowerState { panel_awake: false, ..self.power },
            DisplayStep::WakePanel => IdlePowerState { panel_awake: true, ..self.power },
            _ => self.power,
        }
    }

    /// The state once the write that `step` asked for has ended.
    pub open spec fn after_write(self, step: DisplayStep, ok: bool) -> DisplayView {
        match step {
            DisplayStep::Nothing => self,
            DisplayStep::SleepPanel => self,
            DisplayStep::InitPanel => if ok {
                DisplayView {
                    initialized: true,
                    power: IdlePowerState { panel_awake: true, ..self.power },
                    ..self
                }
            } else {
                DisplayView { flush_pending: false, ..self }
            },
            DisplayStep::WakePanel => if ok {
                self
            } else {
                DisplayView { flush_pending: false, ..self }
            },
            DisplayStep::FlushPage { page } => if !ok || page == 7 {
                DisplayView { flush_pending: false, ..self }
            } else {
                DisplayView { flush_page: (self.flush_page + 1) as u8, ..self }
            },
        }
    }
}

/// Framebuffer and flush state of an SSD1306 panel.
pub struct EspSsd1306Display {
    framebuffer: [u8; 1024],
    page_buffer: [u8; 128],
    flush_page: u8,
    flush_pending: bool,
    initialized: bool,
    idle_power: IdlePowerState,
}

impl View for EspSsd1306Display {
    type V = DisplayView;

    closed spec fn view(&self) -> DisplayView {
        DisplayView {
            frame: self.framebuffer@,
            page_data: self.page_buffer@,
            flush_page: self.flush_page,
            flush_pending: self.flush_pending,
            initialized: self.initialized,
            power: self.idle_power,
        }
    }
}

impl EspSsd1306Display {
    /// A dark display whose panel is not initialized yet.
    pub fn new() -> (display: EspSsd1306Display)
        ensures
            display@.wf(),
            display@ == (DisplayView {
                frame: Seq::new(1024, |i: int| 0u8),
                page_data: Seq::new(128, |i: int| 0u8),
                flush_page: 0,
                flush_pending: false,
                initialized: false,
                power: IdlePowerState { panel_awake: false, last_frame_at: None },
            }),
    {
        let display = EspSsd1306Display {
            framebuffer: [0u8; 1024],
            page_buffer: [0u8; 128],
            flush_page: 0,
            flush_pending: false,
            initialized: false,
            idle_power: IdlePowerState { panel_awake: false, last_frame_at: None },
        };
        assert(display@.frame =~= Seq::new(1024, |i: int| 0u8));
        assert(display@.page_data =~= Seq::new(128, |i: int| 0u8));
        display
    }

    /// Queue a frame; it is flushed from its first page on.
    pub fn queue_frame(&mut self, framebuffer: [u8; 1024], now_ns: u64)
        requires
            old(self)@.wf(),
        ensures
            final(self)@.wf(),
            final(self)@ == (DisplayView {
                frame: framebuffer@,
                flush_page: 0,
                flush_pending: true,
                power: IdlePowerState { last_frame_at: Some(now_ns), ..old(self)@.power },
                ..old(self)@
            }),
    {
        self.framebuffer = framebuffer;
        self.flush_page = 0;
        self.flush_pending = true;
        self.idle_power.note_frame_accepted_at(now_ns);
    }

    /// Abandon a flush that is under way.
    pub fn reset(&mut self)
        requires
            old(self)@.wf(),
        ensures
            final(self)@.wf(),
            final(self)@ == (DisplayView { flush_page: 0, flush_pending: false, ..old(self)@ }),
    {
        self.flush_page = 0;
        self.flush_pending = false;
        self.idle_power.reset();
    }

    /// Data of the page that was prepared last.
    pub fn page_data(&self) -> (data: &[u8])
        ensures
            data@ == self@.page_data,
    {
        self.page_buffer.as_slice()
    }

    /// Prepare the data of a page: the frame's rows become the panel's
    /// columns.
    fn fill_page_buffer(&mut self, page: u8)
        requires
            old(self)@.wf(),
            page < 8,
        ensures
            final(self)@.wf(),
            shows_page(old(self)@.frame, page as int, final(self)@.page_data),
            final(self)@ == (DisplayView { page_data: final(self)@.page_data, ..old(self)@ }),
    {
        let ghost before = self@;
        let page_y: usize = (page as usize) * 8;
        let mut x: usize = 0;
        while x < 128
            invariant
                x <= 128,
                page < 8,
                page_y == page * 8,
                self@.wf(),
                self@.frame == before.frame,
                self@ == (DisplayView { page_data: self@.page_data, ..before }),
                forall|c: int|
                    0 <= c < x ==> shows_column(
                        before.frame,
                        page as int,
                        c,
                        #[trigger] self@.page_data[c],
                    ),
            decreases 128 - x,
        {
            let mut page_byte: u8 = 0;
            let mut bit: u8 = 0;
            proof {
                assert forall|b: u8| b < 8 implies !#[trigger] bit_of(0u8, b) by {
                    assert(0u8 & (1u8 << b) == 0) by (bit_vector);
                }
            }
            while bit < 8
                invariant
                    bit <= 8,
                    x < 128,
                    page < 8,
                    page_y == page * 8,
                    self@.wf(),
                    self@.frame == before.frame,
                    forall|b: u8|
                        b < 8 ==> #[trigger] bit_of(page_byte, b) == (b < bit && pixel(
                            before.frame,
                            x as int,
                            page * 8 + b,
                        )),
                decreases 8 - bit,
            {
                let y: usize = page_y + bit as usize;
                let src_index: usize = y * 16 + (x / 8);
                let shift: u8 = (x % 8) as u8;
                let src_mask: u8 = 0x80u8 >> shift;
                let ghost was = page_byte;
                if self.framebuffer[src_index] & src_mask != 0 {
                    page_byte = page_byte | (1u8 << bit);
                }
                proof {
                    assert forall|b: u8| b < 8 implies #[trigger] bit_of(page_byte, b) == (b < bit
                        + 1 && pixel(before.frame, x as int, page * 8 + b)) by {
                        assert(bit_of(was, b) == (b < bit && pixel(
                            before.frame,
                            x as int,
                            page * 8 + b,
                        )));
                        assert((was | (1u8 << bit)) & (1u8 << b) != 0 <==> (was & (1u8 << b) != 0
                            || b == bit)) by (bit_vector)
                            requires
                                b < 8,
                                bit < 8,
                        ;
                    }
                }
                bit = bit + 1;
            }
            self.page_buffer[x] = page_byte;
            x = x + 1;
        }
    }

    /// Decide what to write next.  For a page, its data is prepared.
    pub fn poll(&mut self, now_ns: u64) -> (step: DisplayStep)
        requires
            old(self)@.wf(),
        ensures
            final(self)@.wf(),
            step == old(self)@.step_at(now_ns),
            final(self)@ == (DisplayView {
                page_data: final(self)@.page_data,
                power: old(self)@.power_after(step),
                ..old(self)@
            }),
            match step {
                DisplayStep::FlushPage { page } => page < 8 && shows_page(
                    old(self)@.frame,
                    page as int,
                    final(self)@.page_data,
                ),
                _ => final(self)@.page_data == old(self)@.page_data,
            },
    {
        if !self.flush_pending {
            return match self.idle_power.poll_at(now_ns, false, self.initialized) {
                PanelPowerCommand::Sleep => DisplayStep::SleepPanel,
                _ => DisplayStep::Nothing,
            };
        }
        if !self.initialized {
            return DisplayStep::InitPanel;
        }
        match self.idle_power.poll_at(now_ns, true, self.initialized) {
            PanelPowerCommand::Wake => DisplayStep::WakePanel,
            _ => {
                let page = self.flush_page;
                self.fill_page_buffer(page);
                DisplayStep::FlushPage { page }
            },
        }
    }

    /// The write that `step` asked for has ended.  A failed write abandons the
    /// flush.
    pub fn write_done(&mut self, step: DisplayStep, ok: bool) -> (result: Result<(), DisplayError>)
        requires
            old(self)@.wf(),
            step matches DisplayStep::FlushPage { page } ==> page == old(self)@.flush_page,
        ensures
            final(self)@.wf(),
            final(self)@ == old(self)@.after_write(step, ok),
            result == (if ok || step == DisplayStep::Nothing {
                Ok::<(), DisplayError>(())
            } else {
                Err(DisplayError::WriteFailed)
            }),
    {
        match step {
            DisplayStep::Nothing => return Ok(()),
            DisplayStep::SleepPanel => {},
            DisplayStep::InitPanel => {
                if ok {
                    self.initialized = true;
                    self.idle_power.mark_initialized();
                } else {
                    self.flush_pending = false;
                }
            },
            DisplayStep::WakePanel => {
                if !ok {
                    self.flush_pending = false;
                }
            },
            DisplayStep::FlushPage { page } => {
                if !ok || page == 7 {
                    self.flush_pending = false;
                } else {
                    self.flush_page = self.flush_page + 1;
                }
            },
        }
        if ok {
            Ok(())
        } else {
            Err(DisplayError::WriteFailed)
        }
    }
}

/// Display that reports recoverable write failures where there is no panel.
pub struct ModemDisplay {
    inner: Option<EspSsd1306Display>,
    pending_error: bool,
}

/// A modem display as mathematical values.
pub ghost struct ModemDisplayView {
    pub inner: Option<DisplayView>,
    pub pending_error: bool,
}

impl View for ModemDisplay {
    type V = ModemDisplayView;

    closed spec fn view(&self) -> ModemDisplayView {
        ModemDisplayView {
            inner: match self.inner {
                Some(display) => Some(display@),
                None => None,
            },
            pending_error: self.pending_error,
        }
    }
}

impl ModemDisplayView {
    /// The panel's state, where there is a panel, is a valid one.
    pub open spec fn wf(self) -> bool {
        self.inner matches Some(display) ==> display.wf()
    }
}

impl ModemDisplay {
    /// A display with a panel.
    pub fn new(inner: EspSsd1306Display) -> (display: ModemDisplay)
        ensures
            display@ == (ModemDisplayView { inner: Some(inner@), pending_error: false }),
    {
        ModemDisplay { inner: Some(inner), pending_error: false }
    }

    /// A display without a panel.
    pub fn disabled() -> (display: ModemDisplay)
        ensures
            display@ == (ModemDisplayView { inner: None, pending_error: false }),
    {
        ModemDisplay { inner: None, pending_error: false }
    }

    /// Queue a frame; without a panel the next poll reports a failure.
    pub fn queue_frame(&mut self, framebuffer: [u8; 1024], now_ns: u64)
        requires
            old(self)@.wf(),
        ensures
            final(self)@.wf(),
            match old(self)@.inner {
                Some(display) => {
                    &&& final(self)@.inner == Some(
                        DisplayView {
                            frame: framebuffer@,
                            flush_page: 0,
                            flush_pending: true,
                            power: IdlePowerState { last_frame_at: Some(now_ns), ..display.power },
                            ..display
                        },
                    )
                    &&& final(self)@.pending_error == old(self)@.pending_error
                },
                None => final(self)@ == (ModemDisplayView { inner: None, pending_error: true }),
            },
    {
        match &mut self.inner {
            Some(display) => {
                display.queue_frame(framebuffer, now_ns);
            },
            None => {
                self.pending_error = true;
            },
        }
    }

    /// Abandon a flush that is under way, and a failure not yet reported.
    pub fn reset(&mut self)
        requires
            old(self)@.wf(),
        ensures
            final(self)@.wf(),
            final(self)@ == (ModemDisplayView {
                inner: match old(self)@.inner {
                    Some(display) => Some(
                        DisplayView { flush_page: 0, flush_pending: false, ..display },
                    ),
                    None => None,
                },
                pending_error: false,
            }),
    {
        self.pending_error = false;
        if let Some(display) = &mut self.inner {
            display.reset();
        }
    }

    /// Decide what to write next, or report the failure of a frame that no
    /// panel could take.
    pub fn poll(&mut self, now_ns: u64) -> (step: Result<DisplayStep, DisplayError>)
        requires
            old(self)@.wf(),
        ensures
            final(self)@.wf(),
            !final(self)@.pending_error,
            match step {
                Err(_) => old(self)@.pending_error && final(self)@.inner == old(self)@.inner,
                Ok(step) => !old(self)@.pending_error && match old(self)@.inner {
                    None => step == DisplayStep::Nothing && final(self)@.inner is None,
                    Some(display) => {
                        &&& step == display.step_at(now_ns)
                        &&& final(self)@.inner matches Some(after)
                        &&& after == (DisplayView {
                            page_data: after.page_data,
                            power: display.power_after(step),
                            ..display
                        })
                        &&& match step {
                            DisplayStep::FlushPage { page } => page < 8 && shows_page(
                                display.frame,
                                page as int,
                                after.page_data,
                            ),
                            _ => after.page_data == display.page_data,
                        }
                    },
                },
            },
    {
        if self.pending_error {
            self.pending_error = false;
            return Err(DisplayError::WriteFailed);
        }
        match &mut self.inner {
            Some(display) => Ok(display.poll(now_ns)),
            None => Ok(DisplayStep::Nothing),
        }
    }

    /// The write that `step` asked for has ended.
    pub fn write_done(&mut self, step: DisplayStep, ok: bool) -> (result: Result<(), DisplayError>)
        requires
            old(self)@.wf(),
            step matches DisplayStep::FlushPage { page } ==> old(self)@.inner matches Some(display)
                && page == display.flush_page,
        ensures
            final(self)@.wf(),
            final(self)@ == (ModemDisplayView {
                inner: match old(self)@.inner {
                    Some(display) => Some(display.after_write(step, ok)),
                    None => None,
                },
                ..old(self)@
            }),
            result == (if ok || step == DisplayStep::Nothing || old(self)@.inner is None {
                Ok::<(), DisplayError>(())
            } else {
                Err(DisplayError::WriteFailed)
            }),
    {
        match &mut self.inner {
            Some(display) => display.write_done(step, ok),
            None => Ok(()),
        }
    }

    /// Data of the page that was prepared last; none without a panel.
    pub fn page_data(&self) -> (data: Option<&[u8]>)
        ensures
            match data {
                Some(bytes) => self@.inner matches Some(display) && bytes@ == display.page_data,
                None => self@.inner is None,
            },
    {
        match &self.inner {
            Some(display) => Some(display.page_data()),
            None => None,
        }
    }
}

/// An awake panel sleeps once the idle timeout has passed since the last
/// frame, stays asleep after that, and not before.
pub proof fn law_panel_sleeps_after_timeout(power: IdlePowerState, frame_ns: u64, now_ns: u64)
    requires
        power.panel_awake,
        power.last_frame_at == Some(frame_ns),
        frame_ns <= now_ns,
    ensures
        power.command_at(now_ns, false, true) == (if now_ns - frame_ns >= DISPLAY_IDLE_TIMEOUT_NS {
            PanelPowerCommand::Sleep
        } else {
            PanelPowerCommand::Keep
        }),
        power.following(PanelPowerCommand::Sleep).command_at(now_ns, false, true)
            == PanelPowerCommand::Keep,
{
}

/// A sleeping panel is woken for a new frame, before the frame is flushed.
pub proof fn law_new_frame_wakes_panel(power: IdlePowerState, frame: DisplayView, now_ns: u64)
    requires
        !power.panel_awake,
        frame.flush_pending,
        frame.initialized,
        frame.power == power,
    ensures
        power.command_at(now_ns, true, true) == PanelPowerCommand::Wake,
        frame.step_at(now_ns) == DisplayStep::WakePanel,
{
}

/// The state of an awake display after `n` successful polls during a flush.
pub open spec fn flushed(display: DisplayView, n: nat) -> DisplayView
    decreases n,
{
    if n == 0 {
        display
    } else {
        let before = flushed(display, (n - 1) as nat);
        before.after_write(DisplayStep::FlushPage { page: before.flush_page }, true)
    }
}

/// A queued frame is flushed page by page, from the first to the last, in
/// eight successful polls, and no more.
pub proof fn law_frame_is_flushed_in_eight_polls(display: DisplayView, n: nat, now_ns: u64)
    requires
        display.flush_pending,
        display.initialized,
        display.power.panel_awake,
        display.flush_page == 0,
        n < 8,
    ensures
        flushed(display, n).step_at(now_ns) == (DisplayStep::FlushPage { page: n as u8 }),
        !flushed(display, 8).flush_pending,
{
    reveal_with_fuel(flushed, 9);
}

/// What the last power command among `commands` leaves the panel at; `None`
/// where there is no power command among them.
pub open spec fn last_power(commands: Seq<u8>) -> Option<bool>
    decreases commands.len(),
{
    if commands.len() == 0 {
        None
    } else if commands.last() == 0xAF {
        Some(true)
    } else if commands.last() == 0xAE {
        Some(false)
    } else {
        last_power(commands.drop_last())
    }
}

/// The power state that the driver keeps is the panel's: after a poll whose
/// write succeeded, the driver counts the panel as awake if the last power
/// command that was written switched it on, as asleep if that switched it off,
/// and as before if there was none.
pub proof fn law_power_state_is_the_panels(display: DisplayView, now_ns: u64)
    requires
        display.wf(),
    ensures
        ({
            let step = display.step_at(now_ns);
            let polled = DisplayView { power: display.power_after(step), ..display };
            let after = polled.after_write(step, true);
            after.power.panel_awake == (match last_power(step_commands(step)) {
                Some(on) => on,
                None => display.power.panel_awake,
            })
        }),
{
    let step = display.step_at(now_ns);
    match step {
        DisplayStep::InitPanel => {
            assert(step_commands(step).last() == 0xAF);
        },
        DisplayStep::FlushPage { page } => {
            reveal_with_fuel(last_power, 4);
            let commands = step_commands(step);
            assert(commands.drop_last().drop_last().last() == (0xB0 + page) as u8);
        },
        _ => {
            reveal_with_fuel(last_power, 2);
        },
    }
}

/// Initialization and waking leave the panel on, sleeping leaves it off, and
/// nothing else switches it.
pub proof fn law_commands_switch_power(step: DisplayStep)
    requires
        step matches DisplayStep::FlushPage { page } ==> page < 8,
    ensures
        last_power(step_commands(step)) == (match step {
            DisplayStep::InitPanel => Some(true),
            DisplayStep::WakePanel => Some(true),
            DisplayStep::SleepPanel => Some(false),
            _ => None,
        }),
        step is SleepPanel || step is WakePanel ==> step_commands(step).len() == 1,
        step is Nothing ==> step_commands(step).len() == 0,
{
    match step {
        DisplayStep::InitPanel => {
            assert(step_commands(step).last() == 0xAF);
        },
        DisplayStep::FlushPage { page } => {
            reveal_with_fuel(last_power, 4);
            let commands = step_commands(step);
            assert(commands.drop_last().drop_last().last() == (0xB0 + page) as u8);
        },
        _ => {
            reveal_with_fuel(last_power, 2);
        },
    }
}

/// Initialization writes the panel's whole initialization sequence: off, page
/// addressing, scan direction and mapping, contrast, multiplexing, timing,
/// charge pump, on.
pub proof fn law_initialization_is_complete()
    ensures
        step_commands(DisplayStep::InitPanel) == seq![
            0xAEu8,
            0x20,
            0x02,
            0xB0,
            0xC8,
            0x00,
            0x10,
            0x40,
            0x81,
            0x7F,
            0xA1,
            0xA6,
            0xA8,
            0x3F,
            0xA4,
            0xD3,
            0x00,
            0xD5,
            0x80,
            0xD9,
            0xF1,
            0xDA,
            0x12,
            0xDB,
            0x20,
            0x8D,
            0x14,
            0xAF,
        ],
{
    assert(step_commands(DisplayStep::InitPanel) =~= SSD1306_INIT@);
}

/// Before the data of a page is written, that page and its first column are
/// selected, so that no two pages are written to the same place.
pub proof fn law_page_is_selected(page: u8, other: u8)
    requires
        page < 8,
        other < 8,
    ensures
        step_commands(DisplayStep::FlushPage { page }) == seq![(176 + page) as u8, 0u8, 16u8],
        step_commands(DisplayStep::FlushPage { page }) == step_commands(
            DisplayStep::FlushPage { page: other },
        ) ==> page == other,
{
    assert(step_commands(DisplayStep::FlushPage { page })[0] == 176 + page);
    assert(step_commands(DisplayStep::FlushPage { page: other })[0] == 176 + other);
}

/// Commands and data reach the panel at address 0x3C, told apart by the byte
/// that follows the address, and nothing is read.
pub proof fn law_commands_and_data_are_told_apart(bytes: Seq<u8>)
    ensures
        is_transaction(control_transaction(OLED_ADDR, CONTROL_COMMANDS, bytes)),
        is_transaction(control_transaction(OLED_ADDR, CONTROL_DATA, bytes)),
        bytes_written(control_transaction(OLED_ADDR, CONTROL_COMMANDS, bytes)) == seq![
            0x78u8,
            0x00u8,
        ] + bytes,
        bytes_written(control_transaction(OLED_ADDR, CONTROL_DATA, bytes)) == seq![0x78u8, 0x40u8]
            + bytes,
        bytes_read(control_transaction(OLED_ADDR, CONTROL_COMMANDS, bytes)) == 0,
        bytes_read(control_transaction(OLED_ADDR, CONTROL_DATA, bytes)) == 0,
{
    law_control_byte_comes_first(OLED_ADDR, CONTROL_COMMANDS, bytes);
    law_control_byte_comes_first(OLED_ADDR, CONTROL_DATA, bytes);
}

/// A poll puts the panel to sleep exactly where no frame waits, the panel is
/// awake and the last frame is five minutes old; it writes nothing else while
/// no frame waits.
pub proof fn law_only_idle_panels_sleep(display: DisplayView, now_ns: u64)
    ensures
        display.step_at(now_ns) is SleepPanel <==> !display.flush_pending
            && display.power.panel_awake && (display.power.last_frame_at matches Some(at) && now_ns
            - at >= 300_000_000_000),
        !display.flush_pending && !(display.step_at(now_ns) is SleepPanel)
            ==> display.step_at(now_ns) is Nothing,
        display.flush_pending ==> !(display.step_at(now_ns) is Nothing),
{
}

/// The state after a poll at `now_ns` whose write ended like this.
pub open spec fn after_poll(display: DisplayView, now_ns: u64, ok: bool) -> DisplayView {
    let step = display.step_at(now_ns);
    DisplayView { power: display.power_after(step), ..display }.after_write(step, ok)
}

/// A panel that was never initialized is initialized before a frame is
/// flushed, and a sleeping one is woken; both once, and then the first page
/// follows.
pub proof fn law_panel_is_on_before_a_page_is_written(
    display: DisplayView,
    now_ns: u64,
    later_ns: u64,
)
    requires
        display.wf(),
        display.flush_pending,
    ensures
        ({
            let step = display.step_at(now_ns);
            let after = after_poll(display, now_ns, true);
            let page = DisplayStep::FlushPage { page: display.flush_page };
            if !display.initialized {
                &&& step is InitPanel
                &&& after.initialized && after.step_at(later_ns) == page
            } else if !display.power.panel_awake {
                &&& step is WakePanel
                &&& after.initialized && after.step_at(later_ns) == page
            } else {
                step == page
            }
        }),
        after_poll(display, now_ns, true).frame == display.frame,
        after_poll(display, now_ns, true).power.last_frame_at == display.power.last_frame_at,
{
}

/// A write that fails abandons the frame: nothing more of it is written.  The
/// panel counts as initialized only once its initialization was written.
pub proof fn law_failed_write_abandons_frame(display: DisplayView, now_ns: u64, later_ns: u64)
    requires
        display.wf(),
    ensures
        ({
            let after = after_poll(display, now_ns, false);
            &&& !after.flush_pending
            &&& after.initialized == display.initialized
            &&& after.frame == display.frame
            &&& after.step_at(later_ns) is Nothing || after.step_at(later_ns) is SleepPanel
        }),
{
}

/// A flush that is under way goes on with the next page, and ends after the
/// eighth.
pub proof fn law_pages_follow_each_other(display: DisplayView, now_ns: u64)
    requires
        display.wf(),
        display.step_at(now_ns) is FlushPage,
    ensures
        ({
            let after = after_poll(display, now_ns, true);
            &&& after.flush_pending <==> display.flush_page < 7
            &&& after.flush_pending ==> after.flush_page == display.flush_page + 1
            &&& after.power == display.power && after.initialized == display.initialized
            &&& after.frame == display.frame
        }),
{
}

/// The pixel in column `x` and row `y` is bit `7 - x % 8` of byte `x / 8` of
/// the row's sixteen bytes, so that the leftmost pixel of a byte is its highest
/// bit, and the panel shows it as bit `y % 8` of column `x` of page `y / 8`.
pub proof fn law_pixels_are_shown_in_place(frame: Seq<u8>, x: int, y: int, data: Seq<u8>)
    requires
        0 <= x < 128,
        0 <= y < 64,
        shows_page(frame, y / 8, data),
    ensures
        ((data[x] >> ((y % 8) as u8)) & 1 == 1) == ((frame[16 * y + x / 8] >> ((7 - x % 8) as u8))
            & 1 == 1),
{
    let page = y / 8;
    let bit = (y % 8) as u8;
    let column = data[x];
    assert(shows_column(frame, page, x, column));
    assert(bit_of(column, bit) == pixel(frame, x, page * 8 + bit));
    assert(page * 8 + bit == y);
    assert((column & (1u8 << bit) != 0) == ((column >> bit) & 1 == 1)) by (bit_vector)
        requires
            bit < 8,
    ;
    let byte = frame[y * 16 + x / 8];
    let shift = (x % 8) as u8;
    let place = (7 - x % 8) as u8;
    assert((byte & (0x80u8 >> shift) != 0) == ((byte >> place) & 1 == 1)) by (bit_vector)
        requires
            shift < 8,
            place == 7 - shift,
    ;
}

/// The timeout in ticks is the least number of ticks, and at least one, that
/// last 25 milliseconds.
pub proof fn law_timeout_is_rounded_up(tick_rate_hz: u32)
    requires
        tick_rate_hz <= 171_798_691,
    ensures
        timeout_ticks(tick_rate_hz) >= 1,
        timeout_ticks(tick_rate_hz) * 1000 >= 25 * tick_rate_hz,
        timeout_ticks(tick_rate_hz) > 1 ==> (timeout_ticks(tick_rate_hz) - 1) * 1000 < 25
            * tick_rate_hz,
{
}

/// A tick rate that is too high to be counted with 32 bits gives the longest
/// timeout there is.
pub proof fn law_timeout_is_capped(tick_rate_hz: u32)
    requires
        tick_rate_hz > 171_798_691,
    ensures
        timeout_ticks(tick_rate_hz) == 4_294_968,
{
}

/// A failed write does not undo the decision on the panel's power: a panel that
/// was to sleep counts as asleep, one that was to be woken as awake, and one
/// whose initialization failed as before.
pub proof fn law_failed_write_keeps_power_decision(display: DisplayView, now_ns: u64)
    requires
        display.wf(),
    ensures
        ({
            let step = display.step_at(now_ns);
            let awake = after_poll(display, now_ns, false).power.panel_awake;
            &&& step is SleepPanel ==> !awake
            &&& step is WakePanel ==> awake
            &&& !(step is SleepPanel || step is WakePanel) ==> awake == display.power.panel_awake
        }),
        after_poll(display, now_ns, false).power.last_frame_at == display.power.last_frame_at,
{
}

} // verus!
