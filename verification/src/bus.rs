//! Accesses to the registers of the colour shield, and what they clock into
//! the DM163 driver.
//!
//! The shield's control register is driven by read-modify-write accesses;
//! the line-select register is written whole. A `BusOp` is one such access.
//! The functions that drive the shield compute the accesses in order; the
//! program around the library performs them on the memory-mapped registers.
use vstd::prelude::*;

verus! {

/// Reset line of the control register.
pub const CTRL_RST: u8 = 0x01;

/// Latch line of the control register.
pub const CTRL_LAT: u8 = 0x02;

/// Bank-select line: low selects the 6-bit brightness bank, high the colour bank.
pub const CTRL_SB: u8 = 0x04;

/// The mask that clears the bank-select line and keeps every other line.
pub const CTRL_SB_CLEAR: u8 = 0xFB;

/// Serial clock line of the control register.
pub const CTRL_SCK: u8 = 0x08;

/// Serial data line of the control register.
pub const CTRL_SDA: u8 = 0x10;

/// The mask that clears the serial data line and keeps every other line.
pub const CTRL_SDA_CLEAR: u8 = 0xEF;

/// One access to the registers of the colour shield.
#[derive(Clone, Copy, Debug, PartialEq, Eq, Structural)]
pub enum BusOp {
    /// Read the control register, OR the mask into it, write it back.
    CtrlOr(u8),
    /// Read the control register, XOR the mask into it, write it back.
    CtrlXor(u8),
    /// Read the control register, AND it with the mask, write it back.
    CtrlAnd(u8),
    /// Write the value to the line-select register.
    Channel(u8),
}

impl BusOp {
    /// The control register's value after this access, when it held `v` before.
    pub open spec fn ctrl_after(self, v: u8) -> u8 {
        match self {
            BusOp::CtrlOr(m) => v | m,
            BusOp::CtrlXor(m) => v ^ m,
            BusOp::CtrlAnd(m) => v & m,
            BusOp::Channel(_) => v,
        }
    }

    /// The control register's value after this access, when it held `v` before.
    pub fn apply(&self, v: u8) -> (r: u8)
        ensures
            r == self.ctrl_after(v),
    {
        match *self {
            BusOp::CtrlOr(m) => v | m,
            BusOp::CtrlXor(m) => v ^ m,
            BusOp::CtrlAnd(m) => v & m,
            BusOp::Channel(_) => v,
        }
    }
}

/// The clock line goes from low to high between `before` and `after`.
pub open spec fn rising(before: u8, after: u8) -> bool {
    before & CTRL_SCK == 0 && after & CTRL_SCK != 0
}

/// The control register's value after `ops`, when it held `v` before.
pub open spec fn ctrl_final(ops: Seq<BusOp>, v: u8) -> u8
    decreases ops.len(),
{
    if ops.len() == 0 {
        v
    } else {
        ctrl_final(ops.drop_first(), ops[0].ctrl_after(v))
    }
}

/// The data line at each rising edge of the clock line, in order, when `ops`
/// are performed on a control register that held `v` before: what the
/// driver's shift register reads in.
pub open spec fn clocked_bits(ops: Seq<BusOp>, v: u8) -> Seq<bool>
    decreases ops.len(),
{
    if ops.len() == 0 {
        Seq::empty()
    } else {
        let w = ops[0].ctrl_after(v);
        let rest = clocked_bits(ops.drop_first(), w);
        if rising(v, w) {
            seq![w & CTRL_SDA != 0] + rest
        } else {
            rest
        }
    }
}

/// The access that puts `bit` on the data line: setting the line, or `low`.
pub open spec fn sda_op(bit: bool, low: BusOp) -> BusOp {
    if bit {
        BusOp::CtrlOr(CTRL_SDA)
    } else {
        low
    }
}

/// The accesses that send one bit: data line, clock toggled, clock set.
pub open spec fn bit_ops(bit: bool, low: BusOp) -> Seq<BusOp> {
    seq![sda_op(bit, low), BusOp::CtrlXor(CTRL_SCK), BusOp::CtrlOr(CTRL_SCK)]
}

/// The accesses that send `n` bits of `data`, testing `mask` and shifting
/// `data` left by one after each bit; `low` is the access for a zero bit.
pub open spec fn serial_ops(data: u8, mask: u8, low: BusOp, n: nat) -> Seq<BusOp>
    decreases n,
{
    if n == 0 {
        Seq::empty()
    } else {
        bit_ops(data & mask != 0, low) + serial_ops(data << 1u8, mask, low, (n - 1) as nat)
    }
}

/// The `n` bits that `serial_ops` tests, in order.
pub open spec fn serial_bits(data: u8, mask: u8, n: nat) -> Seq<bool>
    decreases n,
{
    if n == 0 {
        Seq::empty()
    } else {
        seq![data & mask != 0] + serial_bits(data << 1u8, mask, (n - 1) as nat)
    }
}

/// The accesses that send a byte, most significant bit first.
pub open spec fn byte_ops(b: u8) -> Seq<BusOp> {
    serial_ops(b, 0x80u8, BusOp::CtrlAnd(CTRL_SDA_CLEAR), 8)
}

/// The bits of a byte, most significant first.
pub open spec fn byte_bits(b: u8) -> Seq<bool> {
    Seq::new(8, |j: int| (b >> ((7 - j) as u8)) & 1u8 == 1u8)
}

/// The accesses that send `bytes` in order, each most significant bit first.
pub open spec fn bytes_ops(bytes: Seq<u8>) -> Seq<BusOp>
    decreases bytes.len(),
{
    if bytes.len() == 0 {
        Seq::empty()
    } else {
        bytes_ops(bytes.drop_last()) + byte_ops(bytes.last())
    }
}

/// The bits of `bytes` in order, each byte most significant bit first.
pub open spec fn bytes_bits(bytes: Seq<u8>) -> Seq<bool>
    decreases bytes.len(),
{
    if bytes.len() == 0 {
        Seq::empty()
    } else {
        bytes_bits(bytes.drop_last()) + byte_bits(bytes.last())
    }
}

/// The latch pulse: latch line set, then toggled back.
pub open spec fn latch_ops() -> Seq<BusOp> {
    seq![BusOp::CtrlOr(CTRL_LAT), BusOp::CtrlXor(CTRL_LAT)]
}

/// `ops` repeated `n` times.
pub open spec fn repeat_ops(ops: Seq<BusOp>, n: nat) -> Seq<BusOp>
    decreases n,
{
    if n == 0 {
        Seq::empty()
    } else {
        repeat_ops(ops, (n - 1) as nat) + ops
    }
}

/// Clocked bits and final value of a concatenation.
pub proof fn lemma_clocked_bits_append(a: Seq<BusOp>, b: Seq<BusOp>, v: u8)
    ensures
        clocked_bits(a + b, v) == clocked_bits(a, v) + clocked_bits(b, ctrl_final(a, v)),
        ctrl_final(a + b, v) == ctrl_final(b, ctrl_final(a, v)),
    decreases a.len(),
{
    if a.len() == 0 {
        assert(a + b =~= b);
        assert(clocked_bits(a, v) + clocked_bits(b, v) =~= clocked_bits(b, v));
    } else {
        let w = a[0].ctrl_after(v);
        assert((a + b).drop_first() =~= a.drop_first() + b);
        assert((a + b)[0] == a[0]);
        lemma_clocked_bits_append(a.drop_first(), b, w);
        if rising(v, w) {
            assert(seq![w & CTRL_SDA != 0] + (clocked_bits(a.drop_first(), w) + clocked_bits(
                b,
                ctrl_final(a.drop_first(), w),
            )) =~= (seq![w & CTRL_SDA != 0] + clocked_bits(a.drop_first(), w)) + clocked_bits(
                b,
                ctrl_final(a.drop_first(), w),
            ));
        }
    }
}

/// Clocked bits and final value of a single access.
pub proof fn lemma_clocked_bits_single(op: BusOp, v: u8)
    ensures
        clocked_bits(seq![op], v) == (if rising(v, op.ctrl_after(v)) {
            seq![op.ctrl_after(v) & CTRL_SDA != 0]
        } else {
            Seq::<bool>::empty()
        }),
        ctrl_final(seq![op], v) == op.ctrl_after(v),
{
    let s = seq![op];
    assert(s.drop_first() =~= Seq::<BusOp>::empty());
    assert(s[0] == op);
    let w = op.ctrl_after(v);
    assert(clocked_bits(s.drop_first(), w) == Seq::<bool>::empty());
    assert(ctrl_final(s.drop_first(), w) == w);
    if rising(v, w) {
        assert(seq![w & CTRL_SDA != 0] + Seq::<bool>::empty() =~= seq![w & CTRL_SDA != 0]);
    }
}

/// How the accesses used here act on the clock, data and latch lines.
pub proof fn lemma_bit_facts(v: u8)
    by (bit_vector)
    ensures
        (v | 0x10u8) & 0x08u8 == v & 0x08u8,
        (v | 0x10u8) & 0x10u8 != 0u8,
        (v & 0xEFu8) & 0x08u8 == v & 0x08u8,
        (v & 0xEFu8) & 0x10u8 == 0u8,
        (v ^ 0x10u8) & 0x08u8 == v & 0x08u8,
        (v ^ 0x08u8) & 0x10u8 == v & 0x10u8,
        (v ^ 0x08u8) & 0x08u8 != 0u8 <==> v & 0x08u8 == 0u8,
        (v | 0x08u8) & 0x10u8 == v & 0x10u8,
        (v | 0x08u8) & 0x08u8 != 0u8,
        (v | 0x01u8) & 0x08u8 == v & 0x08u8,
        (v | 0x02u8) & 0x08u8 == v & 0x08u8,
        (v ^ 0x02u8) & 0x08u8 == v & 0x08u8,
        (v | 0x04u8) & 0x08u8 == v & 0x08u8,
        (v ^ 0x04u8) & 0x08u8 == v & 0x08u8,
        ((v | 0x02u8) ^ 0x02u8) & 0x02u8 == 0u8,
        (v | 0x02u8) & 0x02u8 != 0u8,
        (v & 0xFBu8) & 0x08u8 == v & 0x08u8,
        (v & 0xFBu8) & 0x04u8 == 0u8,
        (v | 0x10u8) & 0x04u8 == v & 0x04u8,
        (v & 0xEFu8) & 0x04u8 == v & 0x04u8,
        (v ^ 0x10u8) & 0x04u8 == v & 0x04u8,
        (v ^ 0x08u8) & 0x04u8 == v & 0x04u8,
        (v | 0x08u8) & 0x04u8 == v & 0x04u8,
        (v | 0x02u8) & 0x04u8 == v & 0x04u8,
        (v ^ 0x02u8) & 0x04u8 == v & 0x04u8,
        (v | 0x01u8) & 0x04u8 == v & 0x04u8,
        (v | 0x04u8) & 0x04u8 != 0u8,
{
}

/// An access that leaves the clock line as it is clocks nothing in.
pub proof fn lemma_quiet_op(op: BusOp, v: u8)
    requires
        op == BusOp::CtrlOr(CTRL_RST) || op == BusOp::CtrlOr(CTRL_LAT) || op == BusOp::CtrlXor(
            CTRL_LAT,
        ) || op == BusOp::CtrlOr(CTRL_SB) || op == BusOp::CtrlAnd(CTRL_SB_CLEAR) || op
            == BusOp::CtrlOr(CTRL_SDA) || op is Channel,
    ensures
        clocked_bits(seq![op], v) == Seq::<bool>::empty(),
        op.ctrl_after(v) & CTRL_SCK == v & CTRL_SCK,
{
    lemma_bit_facts(v);
    lemma_clocked_bits_single(op, v);
}

/// Sending one bit clocks exactly that bit in, whatever the clock line was
/// before, and leaves the clock line high.
pub proof fn lemma_bit_ops(bit: bool, low: BusOp, v: u8)
    requires
        bit || low == BusOp::CtrlAnd(CTRL_SDA_CLEAR),
    ensures
        clocked_bits(bit_ops(bit, low), v) == seq![bit],
        ctrl_final(bit_ops(bit, low), v) & CTRL_SCK != 0,
{
    let o1 = sda_op(bit, low);
    let o2 = BusOp::CtrlXor(CTRL_SCK);
    let o3 = BusOp::CtrlOr(CTRL_SCK);
    let v1 = o1.ctrl_after(v);
    let v2 = o2.ctrl_after(v1);
    let v3 = o3.ctrl_after(v2);
    lemma_bit_facts(v);
    lemma_bit_facts(v1);
    lemma_bit_facts(v2);
    assert(v1 & CTRL_SCK == v & CTRL_SCK);
    assert(v1 & CTRL_SDA != 0 <==> bit);
    assert(bit_ops(bit, low) =~= seq![o1] + seq![o2] + seq![o3]);
    lemma_clocked_bits_single(o1, v);
    lemma_clocked_bits_single(o2, v1);
    lemma_clocked_bits_single(o3, v2);
    lemma_clocked_bits_append(seq![o1], seq![o2], v);
    lemma_clocked_bits_append(seq![o1] + seq![o2], seq![o3], v);
    if v & CTRL_SCK == 0 {
        assert(seq![bit] + Seq::<bool>::empty() =~= seq![bit]);
        assert(Seq::<bool>::empty() + seq![bit] + Seq::<bool>::empty() =~= seq![bit]);
    } else {
        assert(Seq::<bool>::empty() + Seq::<bool>::empty() + seq![bit] =~= seq![bit]);
    }
}

/// Sending `n` bits clocks in exactly the bits tested, provided a zero bit
/// clears the data line (or no bit is zero).
pub proof fn lemma_serial_ops(data: u8, mask: u8, low: BusOp, n: nat, v: u8)
    requires
        low == BusOp::CtrlAnd(CTRL_SDA_CLEAR) || (forall|i: int|
            0 <= i < n ==> #[trigger] serial_bits(data, mask, n)[i]),
    ensures
        clocked_bits(serial_ops(data, mask, low, n), v) == serial_bits(data, mask, n),
    decreases n,
{
    if n > 0 {
        let bit = data & mask != 0;
        let rest_ops = serial_ops(data << 1u8, mask, low, (n - 1) as nat);
        let rest_bits = serial_bits(data << 1u8, mask, (n - 1) as nat);
        lemma_serial_bits_len(data, mask, n);
        lemma_serial_bits_len(data << 1u8, mask, (n - 1) as nat);
        assert(serial_bits(data, mask, n)[0] == bit);
        if low != BusOp::CtrlAnd(CTRL_SDA_CLEAR) {
            assert forall|i: int| 0 <= i < n - 1 implies #[trigger] rest_bits[i] by {
                assert(serial_bits(data, mask, n)[i + 1] == rest_bits[i]);
            }
        }
        lemma_bit_ops(bit, low, v);
        lemma_clocked_bits_append(bit_ops(bit, low), rest_ops, v);
        lemma_serial_ops(data << 1u8, mask, low, (n - 1) as nat, ctrl_final(bit_ops(bit, low), v));
    }
}

/// `serial_bits` has `n` bits.
pub proof fn lemma_serial_bits_len(data: u8, mask: u8, n: nat)
    ensures
        serial_bits(data, mask, n).len() == n,
    decreases n,
{
    if n > 0 {
        lemma_serial_bits_len(data << 1u8, mask, (n - 1) as nat);
    }
}

proof fn lemma_shift_bit(b: u8, j: u8)
    by (bit_vector)
    requires
        j < 8,
    ensures
        ((b << j) & 0x80u8 != 0u8) == ((b >> ((7u8 - j) as u8)) & 1u8 == 1u8),
        j < 7 ==> (b << 1u8) << j == b << ((j + 1) as u8),
{
}

/// `serial_bits` with mask 0x80 over `n` bits: bit `j` is bit 7 of the data
/// shifted left by `j`.
proof fn lemma_serial_bits_msb(data: u8, n: nat, j: int)
    requires
        0 <= j < n,
        n <= 8,
    ensures
        serial_bits(data, 0x80u8, n)[j] == ((data << (j as u8)) & 0x80u8 != 0u8),
    decreases n,
{
    lemma_serial_bits_len(data << 1u8, 0x80u8, (n - 1) as nat);
    if j == 0 {
        assert(data << 0u8 == data) by (bit_vector);
    } else {
        lemma_serial_bits_msb(data << 1u8, (n - 1) as nat, j - 1);
        lemma_shift_bit(data, (j - 1) as u8);
    }
}

/// The bits a byte is sent as are its bits, most significant first.
pub proof fn lemma_byte_ops(b: u8, v: u8)
    ensures
        clocked_bits(byte_ops(b), v) == byte_bits(b),
{
    lemma_serial_ops(b, 0x80u8, BusOp::CtrlAnd(CTRL_SDA_CLEAR), 8, v);
    lemma_serial_bits_len(b, 0x80u8, 8);
    assert forall|j: int| 0 <= j < 8 implies serial_bits(b, 0x80u8, 8)[j] == byte_bits(b)[j] by {
        lemma_serial_bits_msb(b, 8, j);
        lemma_shift_bit(b, j as u8);
    }
    assert(serial_bits(b, 0x80u8, 8) =~= byte_bits(b));
}

/// Sending bytes clocks in their bits, in order, whatever the control
/// register held before.
pub proof fn lemma_bytes_ops(bytes: Seq<u8>, v: u8)
    ensures
        clocked_bits(bytes_ops(bytes), v) == bytes_bits(bytes),
    decreases bytes.len(),
{
    if bytes.len() > 0 {
        let init = bytes.drop_last();
        lemma_bytes_ops(init, v);
        lemma_clocked_bits_append(bytes_ops(init), byte_ops(bytes.last()), v);
        lemma_byte_ops(bytes.last(), ctrl_final(bytes_ops(init), v));
    }
}

/// Bit `j` of byte `k` of `bytes` is bit `8 * k + j` of what they are sent as.
pub proof fn lemma_bytes_bits_index(bytes: Seq<u8>, k: int, j: int)
    requires
        0 <= k < bytes.len(),
        0 <= j < 8,
    ensures
        bytes_bits(bytes).len() == 8 * bytes.len(),
        bytes_bits(bytes)[8 * k + j] == byte_bits(bytes[k])[j],
    decreases bytes.len(),
{
    let init = bytes.drop_last();
    if k < bytes.len() - 1 {
        lemma_bytes_bits_index(init, k, j);
        assert(init[k] == bytes[k]);
    } else {
        lemma_bytes_bits_len(init);
    }
}

/// Bytes are sent as eight bits each.
pub proof fn lemma_bytes_bits_len(bytes: Seq<u8>)
    ensures
        bytes_bits(bytes).len() == 8 * bytes.len(),
    decreases bytes.len(),
{
    if bytes.len() > 0 {
        lemma_bytes_bits_len(bytes.drop_last());
    }
}

/// The accesses that serial transfers and latch pulses are made of: none of
/// them writes the line-select register or touches the bank-select line.
pub open spec fn bank_kept(op: BusOp) -> bool {
    ||| op == BusOp::CtrlOr(CTRL_SDA)
    ||| op == BusOp::CtrlAnd(CTRL_SDA_CLEAR)
    ||| op == BusOp::CtrlXor(CTRL_SDA)
    ||| op == BusOp::CtrlXor(CTRL_SCK)
    ||| op == BusOp::CtrlOr(CTRL_SCK)
    ||| op == BusOp::CtrlOr(CTRL_LAT)
    ||| op == BusOp::CtrlXor(CTRL_LAT)
}

/// Every access of `ops` is one of those.
pub open spec fn all_bank_kept(ops: Seq<BusOp>) -> bool {
    forall|i: int| 0 <= i < ops.len() ==> #[trigger] bank_kept(ops[i])
}

/// Concatenations and prefixes of such accesses are such accesses.
pub proof fn lemma_all_bank_kept_parts(a: Seq<BusOp>, b: Seq<BusOp>, k: int)
    requires
        all_bank_kept(a),
        all_bank_kept(b),
        0 <= k <= a.len(),
    ensures
        all_bank_kept(a + b),
        all_bank_kept(a.take(k)),
{
    assert forall|i: int| 0 <= i < (a + b).len() implies #[trigger] bank_kept((a + b)[i]) by {
        if i < a.len() {
            assert((a + b)[i] == a[i]);
        } else {
            assert((a + b)[i] == b[i - a.len()]);
        }
    }
    assert forall|i: int| 0 <= i < a.take(k).len() implies #[trigger] bank_kept(a.take(k)[i]) by {
        assert(a.take(k)[i] == a[i]);
    }
}

/// Serial transfers are made of such accesses, three per bit.
pub proof fn lemma_serial_ops_bank_kept(data: u8, mask: u8, low: BusOp, n: nat)
    requires
        bank_kept(low),
    ensures
        all_bank_kept(serial_ops(data, mask, low, n)),
        serial_ops(data, mask, low, n).len() == 3 * n,
    decreases n,
{
    if n > 0 {
        lemma_serial_ops_bank_kept(data << 1u8, mask, low, (n - 1) as nat);
        let b = bit_ops(data & mask != 0, low);
        assert(all_bank_kept(b));
        lemma_all_bank_kept_parts(b, serial_ops(data << 1u8, mask, low, (n - 1) as nat), 0);
    }
}

/// Repeated such accesses are such accesses.
pub proof fn lemma_repeat_ops_bank_kept(ops: Seq<BusOp>, n: nat)
    requires
        all_bank_kept(ops),
    ensures
        all_bank_kept(repeat_ops(ops, n)),
    decreases n,
{
    if n > 0 {
        lemma_repeat_ops_bank_kept(ops, (n - 1) as nat);
        lemma_all_bank_kept_parts(repeat_ops(ops, (n - 1) as nat), ops, 0);
    }
}

/// Sending bytes is made of such accesses.
pub proof fn lemma_bytes_ops_bank_kept(bytes: Seq<u8>)
    ensures
        all_bank_kept(bytes_ops(bytes)),
    decreases bytes.len(),
{
    if bytes.len() > 0 {
        lemma_bytes_ops_bank_kept(bytes.drop_last());
        lemma_serial_ops_bank_kept(bytes.last(), 0x80u8, BusOp::CtrlAnd(CTRL_SDA_CLEAR), 8);
        lemma_all_bank_kept_parts(bytes_ops(bytes.drop_last()), byte_ops(bytes.last()), 0);
    }
}

/// Such accesses leave the bank-select line as it was.
pub proof fn lemma_bank_kept_final(ops: Seq<BusOp>, v: u8)
    requires
        all_bank_kept(ops),
    ensures
        ctrl_final(ops, v) & CTRL_SB == v & CTRL_SB,
    decreases ops.len(),
{
    if ops.len() > 0 {
        assert(bank_kept(ops[0]));
        lemma_bit_facts(v);
        assert forall|i: int| 0 <= i < ops.drop_first().len() implies #[trigger] bank_kept(
            ops.drop_first()[i],
        ) by {
            assert(ops.drop_first()[i] == ops[i + 1]);
        }
        lemma_bank_kept_final(ops.drop_first(), ops[0].ctrl_after(v));
    }
}

} // verus!
