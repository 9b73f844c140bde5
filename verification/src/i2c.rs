//! Sequences of operations that make up an I2C transaction.

use vstd::prelude::*;

use crate::bytes::copy_bytes;

verus! {

/// One operation of an I2C transaction, in the order in which the bus master
/// performs them.
#[derive(Debug, PartialEq, Eq)]
pub enum I2cOp {
    /// A start or repeated start condition.
    Start,
    /// Write one byte and check that it is acknowledged.
    WriteByte(u8),
    /// Write the bytes and check that each is acknowledged.
    Write(Vec<u8>),
    /// Read this many bytes, acknowledging each.
    ReadAck(usize),
    /// Read one byte and refuse to acknowledge it, which ends the read.
    ReadNack,
    /// A stop condition.
    Stop,
}

/// An operation as mathematical values.
pub ghost enum BusOp {
    Start,
    WriteByte { byte: u8 },
    Write { data: Seq<u8> },
    ReadAck { len: nat },
    ReadNack,
    Stop,
}

impl View for I2cOp {
    type V = BusOp;

    open spec fn view(&self) -> BusOp {
        match *self {
            I2cOp::Start => BusOp::Start,
            I2cOp::WriteByte(byte) => BusOp::WriteByte { byte },
            I2cOp::Write(data) => BusOp::Write { data: data@ },
            I2cOp::ReadAck(len) => BusOp::ReadAck { len: len as nat },
            I2cOp::ReadNack => BusOp::ReadNack,
            I2cOp::Stop => BusOp::Stop,
        }
    }
}

/// A list of operations as mathematical values.
pub open spec fn ops_view(ops: Seq<I2cOp>) -> Seq<BusOp> {
    ops.map_values(|op: I2cOp| op@)
}

/// The address byte that opens a write to the device `addr`.
pub open spec fn write_address(addr: u8) -> u8 {
    (addr as int * 2 % 256) as u8
}

/// The address byte that opens a read from the device `addr`.
pub open spec fn read_address(addr: u8) -> u8 {
    (addr as int * 2 % 256 + 1) as u8
}

/// Write the bytes, where there are any.
pub open spec fn write_all(data: Seq<u8>) -> Seq<BusOp> {
    if data.len() == 0 {
        Seq::empty()
    } else {
        seq![BusOp::Write { data }]
    }
}

/// Read `len` bytes, all but the last acknowledged.
pub open spec fn read_all(len: nat) -> Seq<BusOp> {
    if len > 1 {
        seq![BusOp::ReadAck { len: (len - 1) as nat }, BusOp::ReadNack]
    } else {
        seq![BusOp::ReadNack]
    }
}

/// A write of `data` to the device `addr`.
pub open spec fn write_transaction(addr: u8, data: Seq<u8>) -> Seq<BusOp> {
    seq![BusOp::Start, BusOp::WriteByte { byte: write_address(addr) }] + write_all(data)
        + seq![BusOp::Stop]
}

/// A read of `len` bytes from the device `addr`.
pub open spec fn read_transaction(addr: u8, len: nat) -> Seq<BusOp> {
    seq![BusOp::Start, BusOp::WriteByte { byte: read_address(addr) }] + read_all(len) + seq![
        BusOp::Stop,
    ]
}

/// A write of `data` to the device `addr`, followed, after a repeated start,
/// by a read of `len` bytes from it.
pub open spec fn write_read_transaction(addr: u8, data: Seq<u8>, len: nat) -> Seq<BusOp> {
    seq![BusOp::Start, BusOp::WriteByte { byte: write_address(addr) }] + write_all(data) + seq![
        BusOp::Start,
        BusOp::WriteByte { byte: read_address(addr) },
    ] + read_all(len) + seq![BusOp::Stop]
}

/// A write of a control byte and `payload` to the device `addr`.
pub open spec fn control_transaction(addr: u8, control: u8, payload: Seq<u8>) -> Seq<BusOp> {
    seq![
        BusOp::Start,
        BusOp::WriteByte { byte: write_address(addr) },
        BusOp::WriteByte { byte: control },
    ] + write_all(payload) + seq![BusOp::Stop]
}

/// The address byte for a write (`read` false) or a read.
fn address_byte(addr: u8, read: bool) -> (byte: u8)
    ensures
        byte == (if read {
            read_address(addr)
        } else {
            write_address(addr)
        }),
{
    let shifted: u8 = addr << 1;
    proof {
        assert(shifted as int == addr as int * 2 % 256) by {
            assert((addr << 1) == addr * 2 % 256) by (bit_vector);
        }
        assert(shifted | 1u8 == shifted + 1) by (bit_vector)
            requires
                shifted == addr << 1,
        ;
    }
    if read {
        shifted | 0x01
    } else {
        shifted
    }
}

/// Append the operations that write `data`.
fn push_write(ops: &mut Vec<I2cOp>, data: &[u8])
    ensures
        ops_view(final(ops)@) == ops_view(old(ops)@) + write_all(data@),
{
    let ghost before = ops@;
    if data.len() > 0 {
        ops.push(I2cOp::Write(copy_bytes(data)));
    }
    assert(ops_view(ops@) =~= ops_view(before) + write_all(data@));
}

/// Append the operations that read `len` bytes.
fn push_read(ops: &mut Vec<I2cOp>, len: usize)
    ensures
        ops_view(final(ops)@) == ops_view(old(ops)@) + read_all(len as nat),
{
    let ghost before = ops@;
    if len > 1 {
        ops.push(I2cOp::ReadAck(len - 1));
    }
    // The refused acknowledgement tells the device that the read is over.
    ops.push(I2cOp::ReadNack);
    assert(ops_view(ops@) =~= ops_view(before) + read_all(len as nat));
}

/// Append a start condition and the address byte.
fn push_address(ops: &mut Vec<I2cOp>, addr: u8, read: bool)
    ensures
        ops_view(final(ops)@) == ops_view(old(ops)@) + seq![
            BusOp::Start,
            BusOp::WriteByte {
                byte: if read {
                    read_address(addr)
                } else {
                    write_address(addr)
                },
            },
        ],
{
    let ghost before = ops@;
    let byte = address_byte(addr, read);
    ops.push(I2cOp::Start);
    ops.push(I2cOp::WriteByte(byte));
    assert(ops_view(ops@) =~= ops_view(before) + seq![BusOp::Start, BusOp::WriteByte { byte }]);
}

/// The operations that write `data` to the device `addr`.
pub fn write_ops(addr: u8, data: &[u8]) -> (ops: Vec<I2cOp>)
    ensures
        ops_view(ops@) == write_transaction(addr, data@),
        addr < 128 ==> bytes_written(ops_view(ops@)) == seq![(2 * addr) as u8] + data@,
        addr < 128 ==> bytes_read(ops_view(ops@)) == 0,
{
    let mut ops: Vec<I2cOp> = Vec::new();
    push_address(&mut ops, addr, false);
    push_write(&mut ops, data);
    ops.push(I2cOp::Stop);
    assert(ops_view(ops@) =~= write_transaction(addr, data@));
    proof {
        if addr < 128 {
            law_write_writes_data(addr, data@);
        }
    }
    ops
}

/// The operations that read `len` bytes from the device `addr`.
pub fn read_ops(addr: u8, len: usize) -> (ops: Vec<I2cOp>)
    ensures
        ops_view(ops@) == read_transaction(addr, len as nat),
        addr < 128 && len > 0 ==> bytes_written(ops_view(ops@)) == seq![(2 * addr + 1) as u8],
        addr < 128 && len > 0 ==> bytes_read(ops_view(ops@)) == len,
{
    let mut ops: Vec<I2cOp> = Vec::new();
    push_address(&mut ops, addr, true);
    push_read(&mut ops, len);
    ops.push(I2cOp::Stop);
    assert(ops_view(ops@) =~= read_transaction(addr, len as nat));
    proof {
        if addr < 128 && len > 0 {
            law_read_addresses_device(addr, len as nat);
        }
    }
    ops
}

/// The operations that write `data` to the device `addr` and then read `len`
/// bytes from it.
pub fn write_read_ops(addr: u8, data: &[u8], len: usize) -> (ops: Vec<I2cOp>)
    ensures
        ops_view(ops@) == write_read_transaction(addr, data@, len as nat),
        addr < 128 && len > 0 ==> bytes_written(ops_view(ops@)) == seq![(2 * addr) as u8] + data@
            + seq![(2 * addr + 1) as u8],
        addr < 128 && len > 0 ==> bytes_read(ops_view(ops@)) == len,
{
    let mut ops: Vec<I2cOp> = Vec::new();
    push_address(&mut ops, addr, false);
    push_write(&mut ops, data);
    push_address(&mut ops, addr, true);
    push_read(&mut ops, len);
    ops.push(I2cOp::Stop);
    assert(ops_view(ops@) =~= write_read_transaction(addr, data@, len as nat));
    proof {
        if addr < 128 && len > 0 {
            law_write_read_has_one_repeated_start(addr, data@, len as nat);
            let at = choose|at: int|
                halves(write_read_transaction(addr, data@, len as nat), at);
            law_write_read_does_both(addr, data@, len as nat, at);
            lemma_split(ops_view(ops@), at);
        }
    }
    ops
}

/// The operations that write a control byte and `payload` to the device
/// `addr`.
pub fn control_ops(addr: u8, control: u8, payload: &[u8]) -> (ops: Vec<I2cOp>)
    ensures
        ops_view(ops@) == control_transaction(addr, control, payload@),
        addr < 128 ==> bytes_written(ops_view(ops@)) == seq![(2 * addr) as u8, control] + payload@,
{
    let mut ops: Vec<I2cOp> = Vec::new();
    push_address(&mut ops, addr, false);
    ops.push(I2cOp::WriteByte(control));
    assert(ops_view(ops@) =~= seq![
        BusOp::Start,
        BusOp::WriteByte { byte: write_address(addr) },
        BusOp::WriteByte { byte: control },
    ]);
    push_write(&mut ops, payload);
    ops.push(I2cOp::Stop);
    assert(ops_view(ops@) =~= control_transaction(addr, control, payload@));
    proof {
        if addr < 128 {
            law_control_byte_comes_first(addr, control, payload@);
        }
    }
    ops
}

/// Bytes that the operations read.
pub open spec fn bytes_read(ops: Seq<BusOp>) -> nat
    decreases ops.len(),
{
    if ops.len() == 0 {
        0
    } else {
        bytes_read(ops.drop_last()) + match ops.last() {
            BusOp::ReadAck { len } => len,
            BusOp::ReadNack => 1nat,
            _ => 0nat,
        }
    }
}

/// A read transaction for `len` bytes reads exactly that many.
pub proof fn law_read_reads_len(addr: u8, len: nat)
    requires
        len > 0,
    ensures
        bytes_read(read_transaction(addr, len)) == len,
{
    reveal_with_fuel(bytes_read, 6);
    let ops = read_transaction(addr, len);
    if len > 1 {
        assert(ops.drop_last().drop_last().last() == BusOp::ReadAck { len: (len - 1) as nat });
    }
}

/// The bytes that the operations put on the bus, address bytes included.
pub open spec fn bytes_written(ops: Seq<BusOp>) -> Seq<u8>
    decreases ops.len(),
{
    if ops.len() == 0 {
        Seq::empty()
    } else {
        bytes_written(ops.drop_last()) + match ops.last() {
            BusOp::WriteByte { byte } => seq![byte],
            BusOp::Write { data } => data,
            _ => Seq::empty(),
        }
    }
}

/// Whether the operations are one transaction: they begin with a start, end
/// with the only stop, every start is followed by an address byte, and a read
/// is refused its acknowledgement right before the stop and nowhere else.
pub open spec fn is_transaction(ops: Seq<BusOp>) -> bool {
    &&& ops.len() >= 3
    &&& ops[0] == BusOp::Start
    &&& ops.last() == BusOp::Stop
    &&& forall|i: int| 0 <= i < ops.len() - 1 ==> !(#[trigger] ops[i] is Stop)
    &&& forall|i: int| 0 <= i < ops.len() && #[trigger] ops[i] is Start ==> ops[i + 1] is WriteByte
    &&& forall|i: int|
        0 <= i < ops.len() && #[trigger] ops[i] is ReadNack ==> i == ops.len() - 2
    &&& forall|i: int|
        0 <= i < ops.len() && #[trigger] ops[i] is ReadAck ==> i == ops.len() - 3 && ops[i
            + 1] is ReadNack
}

/// The operations that come before and after the second start.
pub open spec fn halves(ops: Seq<BusOp>, at: int) -> bool {
    0 < at < ops.len() && ops[at] is Start && forall|i: int|
        0 < i < ops.len() && #[trigger] ops[i] is Start ==> i == at
}

/// Bytes are written and read by parts.
proof fn lemma_split(ops: Seq<BusOp>, at: int)
    requires
        0 <= at <= ops.len(),
    ensures
        bytes_written(ops) == bytes_written(ops.take(at)) + bytes_written(ops.skip(at)),
        bytes_read(ops) == bytes_read(ops.take(at)) + bytes_read(ops.skip(at)),
    decreases ops.len(),
{
    if at == ops.len() {
        assert(ops.take(at) =~= ops);
        assert(bytes_written(ops) =~= bytes_written(ops.take(at)) + bytes_written(ops.skip(at)));
    } else {
        let rest = ops.drop_last();
        lemma_split(rest, at);
        assert(rest.take(at) =~= ops.take(at));
        assert(rest.skip(at) =~= ops.skip(at).drop_last());
        assert(ops.skip(at).last() == ops.last());
        assert(bytes_written(ops) =~= bytes_written(ops.take(at)) + bytes_written(ops.skip(at)));
    }
}

/// A device is addressed by twice its address, one more to read from it: every
/// seven-bit address has its own pair of address bytes.
pub proof fn law_addresses_are_told_apart(addr: u8, other: u8)
    requires
        addr < 128,
        other < 128,
    ensures
        write_address(addr) == 2 * addr,
        read_address(addr) == 2 * addr + 1,
        write_address(addr) == write_address(other) ==> addr == other,
        read_address(addr) != write_address(other),
{
}

/// A write puts the address of the device, with the lowest bit clear, and then
/// exactly the data on the bus, in one transaction, and reads nothing.
pub proof fn law_write_writes_data(addr: u8, data: Seq<u8>)
    requires
        addr < 128,
    ensures
        is_transaction(write_transaction(addr, data)),
        bytes_written(write_transaction(addr, data)) == seq![(2 * addr) as u8] + data,
        bytes_read(write_transaction(addr, data)) == 0,
{
    reveal_with_fuel(bytes_read, 6);
    reveal_with_fuel(bytes_written, 6);
    let ops = write_transaction(addr, data);
    if data.len() > 0 {
        assert(ops =~= seq![
            BusOp::Start,
            BusOp::WriteByte { byte: write_address(addr) },
            BusOp::Write { data },
            BusOp::Stop,
        ]);
    } else {
        assert(ops =~= seq![
            BusOp::Start,
            BusOp::WriteByte { byte: write_address(addr) },
            BusOp::Stop,
        ]);
    }
    assert(bytes_written(ops) =~= seq![(2 * addr) as u8] + data);
}

/// A read puts only the address of the device, with the lowest bit set, on the
/// bus, in one transaction, and reads as many bytes as were asked for.
pub proof fn law_read_addresses_device(addr: u8, len: nat)
    requires
        addr < 128,
        len > 0,
    ensures
        is_transaction(read_transaction(addr, len)),
        bytes_written(read_transaction(addr, len)) == seq![(2 * addr + 1) as u8],
        bytes_read(read_transaction(addr, len)) == len,
{
    reveal_with_fuel(bytes_read, 6);
    reveal_with_fuel(bytes_written, 6);
    let ops = read_transaction(addr, len);
    if len > 1 {
        assert(ops =~= seq![
            BusOp::Start,
            BusOp::WriteByte { byte: read_address(addr) },
            BusOp::ReadAck { len: (len - 1) as nat },
            BusOp::ReadNack,
            BusOp::Stop,
        ]);
    } else {
        assert(ops =~= seq![
            BusOp::Start,
            BusOp::WriteByte { byte: read_address(addr) },
            BusOp::ReadNack,
            BusOp::Stop,
        ]);
    }
    assert(bytes_written(ops) =~= seq![(2 * addr + 1) as u8]);
}

/// A write that is followed by a read writes exactly the data before the
/// repeated start and reads exactly as many bytes as were asked for after it:
/// nothing is read before, and nothing but the address is written after.
pub proof fn law_write_read_does_both(addr: u8, data: Seq<u8>, len: nat, at: int)
    requires
        addr < 128,
        len > 0,
        halves(write_read_transaction(addr, data, len), at),
    ensures
        ({
            let ops = write_read_transaction(addr, data, len);
            &&& is_transaction(ops)
            &&& bytes_read(ops) == len
            &&& bytes_read(ops.take(at)) == 0
            &&& bytes_read(ops.skip(at)) == len
            &&& bytes_written(ops.take(at)) == seq![(2 * addr) as u8] + data
            &&& bytes_written(ops.skip(at)) == seq![(2 * addr + 1) as u8]
        }),
{
    let ops = write_read_transaction(addr, data, len);
    let n = 2 + write_all(data).len() as int;
    assert(ops[n] == BusOp::Start);
    assert(at == n);
    law_write_writes_data(addr, data);
    law_read_addresses_device(addr, len);
    let write = write_transaction(addr, data);
    let read = read_transaction(addr, len);
    assert(ops.take(n) =~= write.drop_last());
    assert(ops.skip(n) =~= read);
    assert(bytes_written(write) =~= bytes_written(write.drop_last()));
    lemma_split(ops, n);
    assert forall|i: int| 0 <= i < ops.len() - 1 implies !(#[trigger] ops[i] is Stop) by {
        if i >= n {
            assert(ops[i] == read[i - n]);
        } else {
            assert(ops[i] == write[i]);
        }
    }
    assert forall|i: int| 0 <= i < ops.len() && #[trigger] ops[i] is Start implies ops[i
        + 1] is WriteByte by {
        if i >= n {
            assert(ops[i] == read[i - n] && ops[i + 1] == read[i - n + 1]);
        }
    }
    assert forall|i: int| 0 <= i < ops.len() && #[trigger] ops[i] is ReadNack implies i
        == ops.len() - 2 by {
        if i >= n {
            assert(ops[i] == read[i - n]);
        } else {
            assert(ops[i] == write[i]);
        }
    }
    assert forall|i: int| 0 <= i < ops.len() && #[trigger] ops[i] is ReadAck implies i == ops.len()
        - 3 && ops[i + 1] is ReadNack by {
        if i >= n {
            assert(ops[i] == read[i - n]);
        } else {
            assert(ops[i] == write[i]);
        }
    }
}

/// Every write that is followed by a read has one repeated start.
pub proof fn law_write_read_has_one_repeated_start(addr: u8, data: Seq<u8>, len: nat)
    ensures
        exists|at: int| halves(write_read_transaction(addr, data, len), at),
{
    let ops = write_read_transaction(addr, data, len);
    let n = 2 + write_all(data).len() as int;
    assert(ops[n] == BusOp::Start);
    assert(halves(ops, n));
}

/// A write with a control byte puts the address, the control byte and then
/// exactly the payload on the bus.
pub proof fn law_control_byte_comes_first(addr: u8, control: u8, payload: Seq<u8>)
    requires
        addr < 128,
    ensures
        is_transaction(control_transaction(addr, control, payload)),
        bytes_written(control_transaction(addr, control, payload)) == seq![
            (2 * addr) as u8,
            control,
        ] + payload,
        bytes_read(control_transaction(addr, control, payload)) == 0,
{
    reveal_with_fuel(bytes_read, 6);
    reveal_with_fuel(bytes_written, 6);
    let ops = control_transaction(addr, control, payload);
    if payload.len() > 0 {
        assert(ops =~= seq![
            BusOp::Start,
            BusOp::WriteByte { byte: write_address(addr) },
            BusOp::WriteByte { byte: control },
            BusOp::Write { data: payload },
            BusOp::Stop,
        ]);
    } else {
        assert(ops =~= seq![
            BusOp::Start,
            BusOp::WriteByte { byte: write_address(addr) },
            BusOp::WriteByte { byte: control },
            BusOp::Stop,
        ]);
    }
    assert(bytes_written(ops) =~= seq![(2 * addr) as u8, control] + payload);
}

/// A list of operations stands for the same operations, in the same order, with
/// the same bytes and lengths.
pub proof fn law_operations_stand_for_themselves(ops: Seq<I2cOp>, i: int)
    requires
        0 <= i < ops.len(),
    ensures
        ops_view(ops).len() == ops.len(),
        ops[i] is Start <==> ops_view(ops)[i] is Start,
        ops[i] is Stop <==> ops_view(ops)[i] is Stop,
        ops[i] is ReadNack <==> ops_view(ops)[i] is ReadNack,
        ops[i] matches I2cOp::WriteByte(byte) ==> ops_view(ops)[i] == (BusOp::WriteByte { byte }),
        ops[i] matches I2cOp::Write(data) ==> ops_view(ops)[i] == (BusOp::Write { data: data@ }),
        ops[i] matches I2cOp::ReadAck(len) ==> ops_view(ops)[i] == (BusOp::ReadAck {
            len: len as nat,
        }),
{
}

} // verus!
