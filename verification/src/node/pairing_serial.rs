//! The USB serial link of pairing mode.

use vstd::prelude::*;

use crate::node::error::{NodeError, NodeResult};

verus! {

/// How long one write to the driver may take, in milliseconds.
pub const WRITE_TIMEOUT_MS: u32 = 1000;

/// Scheduler ticks per millisecond.
pub const TICKS_PER_MS: u32 = 1;

/// How a write goes on.
#[derive(Debug, PartialEq, Eq)]
pub enum SerialWrite {
    /// Write the bytes from this offset on.
    Continue(usize),
    /// The write has ended.
    Finished(NodeResult<()>),
}

/// The USB serial driver, which may have been installed by someone else.
#[derive(Clone, Copy, Debug, PartialEq, Eq, Structural)]
pub struct EspUsbSerialJtag {
    owns_driver: bool,
}

impl EspUsbSerialJtag {
    /// Whether the driver has to be removed in the end.
    pub closed spec fn owned(&self) -> bool {
        self.owns_driver
    }

    /// `installed` says whether the driver could be installed; where it could
    /// not, it is there already and is used as it is.
    pub fn new(installed: bool) -> (serial: EspUsbSerialJtag)
        ensures
            serial.owned() == installed,
    {
        EspUsbSerialJtag { owns_driver: installed }
    }

    /// Whether the driver has to be removed in the end: only if it was
    /// installed here.
    pub fn owns_driver(&self) -> (owns: bool)
        ensures
            owns == self.owned(),
    {
        self.owns_driver
    }

    /// Ticks that a read may take.
    pub fn read_ticks(&self, timeout_ms: u32) -> (ticks: u32)
        ensures
            ticks == timeout_ms,
    {
        timeout_ms / TICKS_PER_MS
    }

    /// The result of a read for which the driver returned `n`.
    pub fn read(&self, n: i32) -> (result: NodeResult<usize>)
        ensures
            match result {
                Ok(len) => n >= 0 && len == n,
                Err(error) => n < 0 && error == NodeError::Transport("USB Serial/JTAG read error"),
            },
    {
        if n < 0 {
            return Err(NodeError::Transport("USB Serial/JTAG read error"));
        }
        Ok(n as usize)
    }

    /// How a write of `len` bytes begins.
    pub fn begin_write(&self, len: usize) -> (step: SerialWrite)
        ensures
            step == (if len == 0 {
                SerialWrite::Finished(Ok(()))
            } else {
                SerialWrite::Continue(0)
            }),
    {
        if len == 0 {
            SerialWrite::Finished(Ok(()))
        } else {
            SerialWrite::Continue(0)
        }
    }

    /// How a write of `len` bytes goes on, of which `written` had been
    /// written, when the driver has returned `n`.  A write that times out
    /// because no host is reading is no failure.
    pub fn write(&self, len: usize, written: usize, n: i32) -> (step: SerialWrite)
        requires
            written < len,
            n <= len - written,
        ensures
            step == (if n < 0 {
                SerialWrite::Finished(
                    Err(NodeError::Transport("USB Serial/JTAG write error")),
                )
            } else if n == 0 || written + n == len {
                SerialWrite::Finished(Ok(()))
            } else {
                SerialWrite::Continue((written + n) as usize)
            }),
    {
        if n < 0 {
            return SerialWrite::Finished(
                Err(NodeError::Transport("USB Serial/JTAG write error")),
            );
        }
        if n == 0 || written + n as usize == len {
            return SerialWrite::Finished(Ok(()));
        }
        SerialWrite::Continue(written + n as usize)
    }
}

} // verus!
