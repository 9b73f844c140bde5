//! What BPF programs see of the firmware.

use vstd::prelude::*;

verus! {

/// Version of the firmware's interface to BPF programs.
pub const FIRMWARE_ABI_VERSION: u32 = 1;

/// Whether a program is resident or ephemeral.  Ephemeral programs may not
/// change what persists.
#[derive(Clone, Copy, Debug, PartialEq, Eq, Structural)]
pub enum ProgramClass {
    Resident,
    Ephemeral,
}

/// The execution context that a BPF program is started with.
#[derive(Clone, Copy, Debug)]
pub struct SondeContext {
    pub timestamp: u64,
    pub battery_mv: u16,
    pub firmware_abi_version: u16,
    pub wake_reason: u8,
    pub _padding: [u8; 3],
}

/// The `n` lowest bytes of `value`, lowest first.
pub open spec fn little_endian(value: nat, n: nat) -> Seq<u8>
    decreases n,
{
    if n == 0 {
        Seq::empty()
    } else {
        seq![(value % 256) as u8] + little_endian(value / 256, (n - 1) as nat)
    }
}

impl SondeContext {
    /// Size of the context in a program's memory.
    pub const SIZE: usize = 16;

    /// The context as a program sees it in memory.
    pub open spec fn bytes(self) -> Seq<u8> {
        little_endian(self.timestamp as nat, 8) + little_endian(self.battery_mv as nat, 2)
            + little_endian(self.firmware_abi_version as nat, 2) + seq![self.wake_reason]
            + self._padding@
    }

    /// Lay the context out as a program sees it: the timestamp in eight bytes,
    /// the battery voltage and the interface version in two each, lowest byte
    /// first, the wake reason, and three bytes of padding.
    pub fn to_bytes(&self) -> (bytes: Vec<u8>)
        ensures
            bytes@ == self.bytes(),
            bytes@.len() == 16,
    {
        let mut bytes: Vec<u8> = Vec::new();
        push_little_endian(&mut bytes, self.timestamp, 8);
        push_little_endian(&mut bytes, self.battery_mv as u64, 2);
        push_little_endian(&mut bytes, self.firmware_abi_version as u64, 2);
        bytes.push(self.wake_reason);
        bytes.push(self._padding[0]);
        bytes.push(self._padding[1]);
        bytes.push(self._padding[2]);
        proof {
            lemma_little_endian_len(self.timestamp as nat, 8);
            lemma_little_endian_len(self.battery_mv as nat, 2);
            lemma_little_endian_len(self.firmware_abi_version as nat, 2);
            assert(bytes@ =~= self.bytes());
        }
        bytes
    }
}

/// Length of the little-endian form.
proof fn lemma_little_endian_len(value: nat, n: nat)
    ensures
        little_endian(value, n).len() == n,
    decreases n,
{
    if n > 0 {
        lemma_little_endian_len(value / 256, (n - 1) as nat);
    }
}

/// Append the `n` lowest bytes of `value`, lowest first.
fn push_little_endian(out: &mut Vec<u8>, value: u64, n: u32)
    ensures
        final(out)@ == old(out)@ + little_endian(value as nat, n as nat),
    decreases n,
{
    let ghost before = out@;
    if n > 0 {
        out.push((value % 256) as u8);
        push_little_endian(out, value / 256, n - 1);
    }
    assert(out@ =~= before + little_endian(value as nat, n as nat));
}

/// The number that bytes hold, lowest byte first.
pub open spec fn little_endian_number(bytes: Seq<u8>) -> int
    decreases bytes.len(),
{
    if bytes.len() == 0 {
        0
    } else {
        bytes[0] + 256 * little_endian_number(bytes.drop_first())
    }
}


/// `n` bytes that hold numbers below this are enough.
pub open spec fn below_bytes(n: nat) -> nat
    decreases n,
{
    if n == 0 {
        1
    } else {
        256 * below_bytes((n - 1) as nat)
    }
}

/// A number is read back from its bytes.
pub proof fn law_little_endian_round_trip(value: nat, n: nat)
    requires
        value < below_bytes(n),
    ensures
        little_endian(value, n).len() == n,
        little_endian_number(little_endian(value, n)) == value,
    decreases n,
{
    if n > 0 {
        law_little_endian_round_trip(value / 256, (n - 1) as nat);
        assert(little_endian(value, n).drop_first() =~= little_endian(
            value / 256,
            (n - 1) as nat,
        ));
    }
}

/// A program finds every part of its context in its place: the timestamp in the
/// first eight bytes, the battery voltage and the interface version in the two
/// pairs that follow, the wake reason in byte 12, and padding behind it, sixteen
/// bytes in all.
pub proof fn law_context_is_laid_out(context: SondeContext)
    ensures
        context.bytes().len() == 16,
        little_endian_number(context.bytes().subrange(0, 8)) == context.timestamp,
        little_endian_number(context.bytes().subrange(8, 10)) == context.battery_mv,
        little_endian_number(context.bytes().subrange(10, 12)) == context.firmware_abi_version,
        context.bytes()[12] == context.wake_reason,
        context.bytes().subrange(13, 16) == context._padding@,
        SondeContext::SIZE == 16,
        FIRMWARE_ABI_VERSION == 1,
{
    reveal_with_fuel(below_bytes, 9);
    law_little_endian_round_trip(context.timestamp as nat, 8);
    law_little_endian_round_trip(context.battery_mv as nat, 2);
    law_little_endian_round_trip(context.firmware_abi_version as nat, 2);
    let bytes = context.bytes();
    assert(bytes.subrange(0, 8) =~= little_endian(context.timestamp as nat, 8));
    assert(bytes.subrange(8, 10) =~= little_endian(context.battery_mv as nat, 2));
    assert(bytes.subrange(10, 12) =~= little_endian(context.firmware_abi_version as nat, 2));
    assert(bytes.subrange(13, 16) =~= context._padding@);
}

} // verus!
