//! Connectivity of the USB-CDC serial link.
//!
//! Whether a host is there is inferred from the success of reads and writes.
//! Writes are always attempted, so that critical messages are never silently
//! dropped.

use vstd::prelude::*;

verus! {

/// How a write goes on.
#[derive(Clone, Copy, Debug, PartialEq, Eq, Structural)]
pub enum WriteStep {
    /// Write the bytes from this offset on.
    Continue(usize),
    /// All bytes were written, or the write has failed.
    Finished(bool),
}

/// Connection state of the serial link.
#[derive(Clone, Copy, Debug, PartialEq, Eq, Structural)]
pub struct UsbCdcState {
    pub connected: bool,
}

impl UsbCdcState {
    /// The link counts as connected at boot, so that the boot message is sent.
    pub fn new() -> (state: UsbCdcState)
        ensures
            state.connected,
    {
        UsbCdcState { connected: true }
    }

    /// The connection was dropped.
    pub fn set_disconnected(&mut self)
        ensures
            !final(self).connected,
    {
        self.connected = false;
    }

    /// The connection is there; returns whether it was not before.
    pub fn set_connected(&mut self) -> (reconnected: bool)
        ensures
            final(self).connected,
            reconnected == !old(self).connected,
    {
        let was = self.connected;
        self.connected = true;
        !was
    }

    /// A read has ended with this many bytes, or with an error (`None`).
    /// Returns the number of bytes, and whether connectivity was just
    /// re-established.
    pub fn on_read(&mut self, outcome: Option<usize>) -> (read: (usize, bool))
        ensures
            match outcome {
                Some(n) => read.0 == n && read_result(*old(self), n, *final(self), read.1),
                None => read == (0usize, false) && !final(self).connected,
            },
    {
        match outcome {
            Some(n) => if n == 0 {
                (0, false)
            } else {
                let reconnected = self.set_connected();
                (n, reconnected)
            },
            None => {
                self.connected = false;
                (0, false)
            },
        }
    }

    /// A write of `len` bytes begins.
    pub fn begin_write(&mut self, len: usize) -> (step: WriteStep)
        ensures
            step == (if len == 0 {
                WriteStep::Finished(true)
            } else {
                WriteStep::Continue(0)
            }),
            final(self).connected == (len == 0 || old(self).connected),
    {
        if len == 0 {
            self.connected = true;
            WriteStep::Finished(true)
        } else {
            WriteStep::Continue(0)
        }
    }

    /// Of `len` bytes, `written` had been written, and the driver has now
    /// taken some more, or failed (`None`).  The write has failed where it
    /// took none.
    pub fn on_write(&mut self, len: usize, written: usize, outcome: Option<usize>) -> (step:
        WriteStep)
        requires
            written < len,
            outcome matches Some(n) ==> n <= len - written,
        ensures
            match outcome {
                Some(n) => if n == 0 {
                    step == WriteStep::Finished(false) && !final(self).connected
                } else if written + n == len {
                    step == WriteStep::Finished(true) && final(self).connected
                } else {
                    step == WriteStep::Continue((written + n) as usize) && final(self).connected
                        == old(self).connected
                },
                None => step == WriteStep::Finished(false) && !final(self).connected,
            },
    {
        match outcome {
            Some(n) => if n == 0 {
                self.connected = false;
                WriteStep::Finished(false)
            } else if written + n == len {
                self.connected = true;
                WriteStep::Finished(true)
            } else {
                WriteStep::Continue(written + n)
            },
            None => {
                self.connected = false;
                WriteStep::Finished(false)
            },
        }
    }

    /// Whether data was recently exchanged.
    pub fn is_connected(&self) -> (connected: bool)
        ensures
            connected == self.connected,
    {
        self.connected
    }
}

/// What a read of `n` bytes does to the link: the state after it, and whether
/// it reports a reconnection.
pub open spec fn read_result(
    before: UsbCdcState,
    n: usize,
    after: UsbCdcState,
    reconnected: bool,
) -> bool {
    &&& reconnected == (n > 0 && !before.connected)
    &&& after.connected == (n > 0 || before.connected)
}

/// A lost connection is reported exactly once when data arrives again.
pub proof fn law_reconnect_is_reported_once(
    lost: UsbCdcState,
    n: usize,
    first: UsbCdcState,
    r1: bool,
    m: usize,
    second: UsbCdcState,
    r2: bool,
)
    requires
        !lost.connected,
        n > 0,
        read_result(lost, n, first, r1),
        read_result(first, m, second, r2),
    ensures
        r1,
        !r2,
{
}

/// Only data makes a connection: a read without any changes nothing, and one
/// with some leaves the link connected and reports it if it was not.
pub proof fn law_data_makes_a_connection(
    before: UsbCdcState,
    n: usize,
    after: UsbCdcState,
    reconnected: bool,
)
    requires
        read_result(before, n, after, reconnected),
    ensures
        n == 0 ==> after == before && !reconnected,
        n > 0 ==> after.connected && (reconnected <==> !before.connected),
{
}

} // verus!
