//! The 8x8 RGB frame buffer and the DM163 driver that shows it.
//!
//! The frame holds one byte per colour channel of each pixel. Refreshing a
//! line (a column of the frame) clocks its 24 colour bytes into the driver,
//! latches them and selects the line; the matrix lights one line at a time.
//! The display keeps a line counter: each display tick refreshes the line it
//! names and moves it on, so that the lines are shown in turn. Storing a
//! pixel changes the frame only; painting one also refreshes its line at
//! once. The register accesses go to the display's bus log, from which the
//! program performs them on the hardware.
use vstd::prelude::*;
use crate::bus;
use crate::bus::{
    BusOp, CTRL_LAT, CTRL_RST, CTRL_SB, CTRL_SB_CLEAR, CTRL_SCK, CTRL_SDA, CTRL_SDA_CLEAR,
};

verus! {

/// Width and height of the matrix.
pub const SIDE: usize = 8;

/// Number of bytes of the frame: three colour channels per pixel.
pub const FRAME_LEN: usize = 192;

/// Number of 6-bit brightness words the driver's brightness bank holds,
/// counted as the setup sends them: 24 rounds of 8.
pub const BRIGHTNESS_ROUNDS: usize = 24;

/// The brightness word sent to every channel at setup: all six bits set.
pub const FULL_BRIGHTNESS: u8 = 0b111111;

/// What a display holds: the frame, the register accesses not yet
/// performed, and the line the next display tick refreshes.
pub struct DisplayModel {
    pub frame: Seq<u8>,
    pub bus: Seq<BusOp>,
    pub line: usize,
}

/// The frame buffer of the matrix, the log of register accesses that drive
/// it, and the line counter of the refresh.
pub struct Display {
    dots: Vec<u8>,
    bus: Vec<BusOp>,
    line: usize,
}

impl View for Display {
    type V = DisplayModel;

    closed spec fn view(&self) -> DisplayModel {
        DisplayModel { frame: self.dots@, bus: self.bus@, line: self.line }
    }
}

/// Position in the frame of colour channel `c` of pixel (`x`, `y`): the
/// bytes of a column are contiguous, row by row, red, green, blue.
pub open spec fn dot_index(x: int, y: int, c: int) -> int {
    x * 24 + y * 3 + c
}

/// The colour of pixel (`x`, `y`) in `frame`.
pub open spec fn pixel_of(frame: Seq<u8>, x: int, y: int) -> (u8, u8, u8) {
    (frame[dot_index(x, y, 0)], frame[dot_index(x, y, 1)], frame[dot_index(x, y, 2)])
}

/// The 24 colour bytes of column `x`, in the order the driver takes them.
pub open spec fn column_bytes(frame: Seq<u8>, x: int) -> Seq<u8> {
    frame.subrange(x * 24, x * 24 + 24)
}

/// The line-select value that turns on line `x` alone.
pub open spec fn line_select(x: int) -> u8 {
    1u8 << (x as u8)
}

/// The accesses that send the colour bytes of column `x`.
pub open spec fn bytes_ops_of(frame: Seq<u8>, x: int) -> Seq<BusOp> {
    bus::bytes_ops(column_bytes(frame, x))
}

/// The accesses that refresh column `x`: its bytes, the latch pulse, the
/// line selection.
pub open spec fn column_ops(frame: Seq<u8>, x: int) -> Seq<BusOp> {
    bytes_ops_of(frame, x) + bus::latch_ops() + seq![BusOp::Channel(line_select(x))]
}

/// A display after colour (`r`, `g`, `b`) is stored at pixel (`x`, `y`).
pub open spec fn stored(d: DisplayModel, x: int, y: int, r: u8, g: u8, b: u8) -> DisplayModel {
    let frame = d.frame.update(dot_index(x, y, 0), r).update(dot_index(x, y, 1), g).update(
        dot_index(x, y, 2),
        b,
    );
    DisplayModel { frame, ..d }
}

/// A display after pixel (`x`, `y`) is painted (`r`, `g`, `b`): stored, and
/// its line refreshed.
pub open spec fn paint(d: DisplayModel, x: int, y: int, r: u8, g: u8, b: u8) -> DisplayModel {
    let s = stored(d, x, y, r, g, b);
    DisplayModel { bus: s.bus + column_ops(s.frame, x), ..s }
}

/// A display after the line its counter names is refreshed and the counter
/// moved on to the next line.
pub open spec fn refreshed(d: DisplayModel) -> DisplayModel {
    DisplayModel {
        bus: d.bus + column_ops(d.frame, d.line as int),
        line: ((d.line + 1) % 8) as usize,
        ..d
    }
}

/// The accesses that send one brightness word.
pub open spec fn brightness_word_ops() -> Seq<BusOp> {
    bus::serial_ops(FULL_BRIGHTNESS, 0x20u8, BusOp::CtrlXor(CTRL_SDA), 6)
}

/// The accesses that start the driver's setup: reset, data line set,
/// bank-select line cleared.
pub open spec fn setup_head() -> Seq<BusOp> {
    seq![BusOp::CtrlOr(CTRL_RST), BusOp::CtrlOr(CTRL_SDA), BusOp::CtrlAnd(CTRL_SB_CLEAR)]
}

/// The accesses of the driver's setup: reset, data line set, bank-select
/// line cleared (brightness bank), a full-brightness word for each channel,
/// latch, bank-select line set (colour bank).
pub open spec fn setup_ops() -> Seq<BusOp> {
    setup_head() + bus::repeat_ops(brightness_word_ops(), 192) + bus::latch_ops() + seq![BusOp::CtrlOr(CTRL_SB)]
}

impl Display {
    /// The display holds a whole frame and its counter names a line.
    pub open spec fn wf(&self) -> bool {
        self@.frame.len() == FRAME_LEN && self@.line < SIDE
    }

    /// A dark frame, no pending access, line 0 next to refresh.
    pub fn new() -> (d: Display)
        ensures
            d.wf(),
            d@.frame == Seq::new(192, |i: int| 0u8),
            d@.bus == Seq::<BusOp>::empty(),
            d@.line == 0,
    {
        let d = Display { dots: vec![0u8; FRAME_LEN], bus: Vec::new(), line: 0 };
        assert(d@.frame =~= Seq::new(192, |i: int| 0u8));
        d
    }

    /// Whether the display holds a whole frame and its counter names a line.
    pub fn is_whole(&self) -> (r: bool)
        ensures
            r == self.wf(),
    {
        self.dots.len() == FRAME_LEN && self.line < SIDE
    }

    /// The line the next display tick refreshes.
    pub fn line(&self) -> (l: usize)
        ensures
            l == self@.line,
    {
        self.line
    }

    /// The colour of pixel (`x`, `y`).
    pub fn pixel(&self, x: usize, y: usize) -> (c: (u8, u8, u8))
        requires
            self.wf(),
            x < SIDE,
            y < SIDE,
        ensures
            c == pixel_of(self@.frame, x as int, y as int),
    {
        let i = x * 24 + y * 3;
        (self.dots[i], self.dots[i + 1], self.dots[i + 2])
    }

    /// The accesses not yet performed, in order; the log is left empty.
    pub fn take_bus(&mut self) -> (ops: Vec<BusOp>)
        ensures
            ops@ == old(self)@.bus,
            final(self)@.bus == Seq::<BusOp>::empty(),
            final(self)@.frame == old(self)@.frame,
            final(self)@.line == old(self)@.line,
    {
        let mut ops: Vec<BusOp> = Vec::new();
        std::mem::swap(&mut ops, &mut self.bus);
        ops
    }
}

/// Appends the accesses that send the `n` bits of `data` tested by `mask`,
/// shifting left after each bit; `low` puts a zero bit on the data line.
fn send_bits(display: &mut Display, data: u8, mask: u8, low: BusOp, n: usize)
    ensures
        final(display)@.frame == old(display)@.frame,
        final(display)@.line == old(display)@.line,
        final(display)@.bus == old(display)@.bus + bus::serial_ops(data, mask, low, n as nat),
{
    let ghost start = display.bus@;
    let mut data = data;
    let ghost data0 = data;
    let mut k: usize = 0;
    while k < n
        invariant
            k <= n,
            display.dots@ == old(display)@.frame,
            display.line == old(display)@.line,
            start == old(display)@.bus,
            display.bus@ + bus::serial_ops(data, mask, low, (n - k) as nat) == start + bus::serial_ops(
                data0,
                mask,
                low,
                n as nat,
            ),
        decreases n - k,
    {
        let ghost before = display.bus@;
        let ghost d = data;
        if data & mask != 0 {
            display.bus.push(BusOp::CtrlOr(CTRL_SDA));
        } else {
            display.bus.push(low);
        }
        display.bus.push(BusOp::CtrlXor(CTRL_SCK));
        data = data << 1u8;
        display.bus.push(BusOp::CtrlOr(CTRL_SCK));
        assert(display.bus@ =~= before + bus::bit_ops(d & mask != 0, low));
        assert(before + bus::serial_ops(d, mask, low, (n - k) as nat) =~= display.bus@ + bus::serial_ops(
            data,
            mask,
            low,
            (n - (k + 1)) as nat,
        ));
        k = k + 1;
    }
    assert(display.bus@ + bus::serial_ops(data, mask, low, 0) =~= display.bus@);
}

/// The latch pulse: the driver takes the shifted-in data.
fn latch(display: &mut Display)
    ensures
        final(display)@.frame == old(display)@.frame,
        final(display)@.line == old(display)@.line,
        final(display)@.bus == old(display)@.bus + bus::latch_ops(),
{
    display.bus.push(BusOp::CtrlOr(CTRL_LAT));
    display.bus.push(BusOp::CtrlXor(CTRL_LAT));
    assert(display.bus@ =~= old(display)@.bus + bus::latch_ops());
}

/// Turns on line `i` of the matrix alone.
pub fn open_line(display: &mut Display, i: u8)
    requires
        i < 8,
    ensures
        final(display)@.frame == old(display)@.frame,
        final(display)@.line == old(display)@.line,
        final(display)@.bus == old(display)@.bus + seq![BusOp::Channel(line_select(i as int))],
{
    display.bus.push(BusOp::Channel(1u8 << i));
    assert(display.bus@ =~= old(display)@.bus + seq![BusOp::Channel(line_select(i as int))]);
}

/// Sends the 24 colour bytes of column `x` to the driver, latches them and
/// turns on line `x`.
pub fn run(display: &mut Display, x: usize)
    requires
        old(display).wf(),
        x < SIDE,
    ensures
        final(display)@.frame == old(display)@.frame,
        final(display)@.line == old(display)@.line,
        final(display)@.bus == old(display)@.bus + column_ops(old(display)@.frame, x as int),
{
    let ghost start = display.bus@;
    let ghost frame = display.dots@;
    let mut y: usize = 0;
    while y < 8
        invariant
            y <= 8,
            x < 8,
            display.dots@ == frame,
            frame.len() == 192,
            frame == old(display)@.frame,
            start == old(display)@.bus,
            display.line == old(display)@.line,
            display.bus@ == start + bus::bytes_ops(frame.subrange(x * 24, x * 24 + y * 3)),
        decreases 8 - y,
    {
        let mut color: usize = 0;
        while color < 3
            invariant
                y < 8,
                color <= 3,
                x < 8,
                display.dots@ == frame,
                frame.len() == 192,
                display.line == old(display)@.line,
                display.bus@ == start + bus::bytes_ops(frame.subrange(x * 24, x * 24 + y * 3 + color)),
            decreases 3 - color,
        {
            let i = x * 24 + y * 3 + color;
            let data: u8 = display.dots[i];
            send_bits(display, data, 0x80u8, BusOp::CtrlAnd(CTRL_SDA_CLEAR), 8);
            let ghost sub = frame.subrange(x * 24, x * 24 + y * 3 + color + 1);
            assert(sub.drop_last() =~= frame.subrange(x * 24, x * 24 + y * 3 + color));
            assert(sub.last() == data);
            assert(display.bus@ =~= start + bus::bytes_ops(sub));
            color = color + 1;
        }
        y = y + 1;
    }
    latch(display);
    open_line(display, x as u8);
    assert(display.bus@ =~= start + column_ops(frame, x as int));
}

/// Stores colour (`r`, `g`, `b`) at pixel (`x`, `y`) without refreshing:
/// the pixel shows when the display tick reaches its line.
pub fn store_pixel(display: &mut Display, x: usize, y: usize, r: u8, g: u8, b: u8)
    requires
        old(display).wf(),
        x < SIDE,
        y < SIDE,
    ensures
        final(display).wf(),
        final(display)@ == stored(old(display)@, x as int, y as int, r, g, b),
{
    let i = x * 24 + y * 3;
    display.dots[i] = r;
    display.dots[i + 1] = g;
    display.dots[i + 2] = b;
}

/// Refreshes the line the counter names and moves the counter on to the
/// next line, wrapping from 7 to 0.
pub fn refresh_next_line(display: &mut Display)
    requires
        old(display).wf(),
    ensures
        final(display).wf(),
        final(display)@ == refreshed(old(display)@),
{
    run(display, display.line);
    display.line = (display.line + 1) % SIDE;
}

/// Stores colour (`r`, `g`, `b`) at pixel (`x`, `y`) and refreshes column `x`.
pub fn set_pixel(display: &mut Display, x: usize, y: usize, r: u8, g: u8, b: u8)
    requires
        old(display).wf(),
        x < SIDE,
        y < SIDE,
    ensures
        final(display).wf(),
        final(display)@ == paint(old(display)@, x as int, y as int, r, g, b),
{
    let i = x * 24 + y * 3;
    display.dots[i] = r;
    display.dots[i + 1] = g;
    display.dots[i + 2] = b;
    run(display, x);
}

/// Resets the driver, selects its brightness bank, fills it with
/// full-brightness words, latches them and selects the colour bank.
pub fn setup_led_matrix(display: &mut Display)
    ensures
        final(display)@.frame == old(display)@.frame,
        final(display)@.line == old(display)@.line,
        final(display)@.bus == old(display)@.bus + setup_ops(),
{
    let ghost start = display.bus@;
    display.bus.push(BusOp::CtrlOr(CTRL_RST));
    display.bus.push(BusOp::CtrlOr(CTRL_SDA));
    display.bus.push(BusOp::CtrlAnd(CTRL_SB_CLEAR));
    let ghost head = display.bus@;
    let mut i: usize = 0;
    while i < BRIGHTNESS_ROUNDS
        invariant
            i <= 24,
            display.dots@ == old(display)@.frame,
            display.line == old(display)@.line,
            display.bus@ == head + bus::repeat_ops(brightness_word_ops(), (i * 8) as nat),
        decreases 24 - i,
    {
        let mut j: usize = 0;
        while j < 8
            invariant
                i < 24,
                j <= 8,
                display.dots@ == old(display)@.frame,
                display.line == old(display)@.line,
                display.bus@ == head + bus::repeat_ops(brightness_word_ops(), (i * 8 + j) as nat),
            decreases 8 - j,
        {
            send_bits(display, FULL_BRIGHTNESS, 0x20u8, BusOp::CtrlXor(CTRL_SDA), 6);
            assert(display.bus@ =~= head + bus::repeat_ops(
                brightness_word_ops(),
                (i * 8 + j + 1) as nat,
            ));
            j = j + 1;
        }
        i = i + 1;
    }
    latch(display);
    display.bus.push(BusOp::CtrlOr(CTRL_SB));
    assert(display.bus@ =~= start + setup_ops());
}

proof fn lemma_line_select_bits(x: u8, j: u8)
    by (bit_vector)
    requires
        x < 8,
        j < 8,
    ensures
        ((1u8 << x) >> j) & 1u8 == 1u8 <==> j == x,
{
}

/// Refreshing column `x` clocks into the driver the column's 24 colour bytes
/// (rows 0 to 7, red, green, blue each), most significant bit first,
/// whatever the control register held before: bit `j` of byte `k` is the
/// `8 * k + j`-th bit clocked in. Then comes one latch pulse (the latch line
/// set, then low again), and then the one write of the line-select register
/// in the refresh, which has bit `x` set alone.
/// No access of the refresh touches the bank-select line.
pub proof fn lemma_refresh_clocks_column(frame: Seq<u8>, x: int, v: u8)
    requires
        frame.len() == FRAME_LEN,
        0 <= x < 8,
    ensures
        bus::clocked_bits(column_ops(frame, x), v) == bus::bytes_bits(column_bytes(frame, x)),
        bus::clocked_bits(column_ops(frame, x), v).len() == 192,
        forall|k: int, j: int|
            0 <= k < 24 && 0 <= j < 8 ==> bus::clocked_bits(column_ops(frame, x), v)[8 * k + j]
                == #[trigger] bus::byte_bits(frame[x * 24 + k])[j],
        column_ops(frame, x) == bus::bytes_ops(column_bytes(frame, x)) + bus::latch_ops() + seq![
            BusOp::Channel(line_select(x)),
        ],
        forall|j: u8| j < 8 ==> (#[trigger] (line_select(x) >> j) & 1u8 == 1u8 <==> j == x),
        BusOp::CtrlOr(CTRL_LAT).ctrl_after(bus::ctrl_final(bytes_ops_of(frame, x), v)) & CTRL_LAT
            != 0,
        bus::ctrl_final(column_ops(frame, x), v) & CTRL_LAT == 0,
        bus::ctrl_final(column_ops(frame, x), v) & CTRL_SB == v & CTRL_SB,
        column_ops(frame, x).last() == BusOp::Channel(line_select(x)),
        forall|i: int|
            0 <= i < column_ops(frame, x).len() - 1 ==> !(#[trigger] column_ops(frame, x)[i] is Channel),
{
    let bytes = column_bytes(frame, x);
    let a = bus::bytes_ops(bytes);
    bus::lemma_bytes_ops(bytes, v);
    let v1 = bus::ctrl_final(a, v);
    let l1 = BusOp::CtrlOr(CTRL_LAT);
    let l2 = BusOp::CtrlXor(CTRL_LAT);
    let ch = BusOp::Channel(line_select(x));
    assert(bus::latch_ops() =~= seq![l1] + seq![l2]);
    bus::lemma_quiet_op(l1, v1);
    bus::lemma_clocked_bits_append(seq![l1], seq![l2], v1);
    bus::lemma_quiet_op(l2, bus::ctrl_final(seq![l1], v1));
    let v2 = bus::ctrl_final(bus::latch_ops(), v1);
    bus::lemma_quiet_op(ch, v2);
    bus::lemma_clocked_bits_append(a, bus::latch_ops(), v);
    bus::lemma_clocked_bits_append(a + bus::latch_ops(), seq![ch], v);
    bus::lemma_bit_facts(v1);
    bus::lemma_clocked_bits_single(l1, v1);
    bus::lemma_clocked_bits_single(l2, l1.ctrl_after(v1));
    bus::lemma_clocked_bits_single(ch, v2);
    assert(bus::clocked_bits(bus::latch_ops(), v1) =~= Seq::<bool>::empty());
    assert(bus::clocked_bits(column_ops(frame, x), v) =~= bus::bytes_bits(bytes));
    bus::lemma_bytes_bits_len(bytes);
    assert forall|k: int, j: int| 0 <= k < 24 && 0 <= j < 8 implies bus::clocked_bits(
        column_ops(frame, x),
        v,
    )[8 * k + j] == #[trigger] bus::byte_bits(frame[x * 24 + k])[j] by {
        bus::lemma_bytes_bits_index(bytes, k, j);
    }
    assert forall|j: u8| j < 8 implies (#[trigger] (line_select(x) >> j) & 1u8 == 1u8 <==> j
        == x) by {
        lemma_line_select_bits(x as u8, j);
    }
    let body = a + bus::latch_ops();
    bus::lemma_bytes_ops_bank_kept(bytes);
    assert(bus::all_bank_kept(bus::latch_ops()));
    bus::lemma_all_bank_kept_parts(a, bus::latch_ops(), 0);
    bus::lemma_bank_kept_final(body, v);
    bus::lemma_clocked_bits_append(body, seq![ch], v);
    let ops = column_ops(frame, x);
    assert(ops =~= body + seq![ch]);
    assert forall|i: int| 0 <= i < ops.len() - 1 implies !(#[trigger] ops[i] is Channel) by {
        assert(ops[i] == body[i]);
        assert(bus::bank_kept(body[i]));
    }
}

proof fn lemma_full_word_shifts()
    by (bit_vector)
    ensures
        0x3Fu8 & 0x20u8 != 0u8,
        0x3Fu8 << 1u8 == 0x7Eu8,
        0x7Eu8 & 0x20u8 != 0u8,
        0x7Eu8 << 1u8 == 0xFCu8,
        0xFCu8 & 0x20u8 != 0u8,
        0xFCu8 << 1u8 == 0xF8u8,
        0xF8u8 & 0x20u8 != 0u8,
        0xF8u8 << 1u8 == 0xF0u8,
        0xF0u8 & 0x20u8 != 0u8,
        0xF0u8 << 1u8 == 0xE0u8,
        0xE0u8 & 0x20u8 != 0u8,
{
}

/// A brightness word clocks in six ones, whatever the control register
/// held before.
proof fn lemma_brightness_word(v: u8)
    ensures
        bus::clocked_bits(brightness_word_ops(), v) == Seq::new(6, |i: int| true),
{
    lemma_full_word_shifts();
    let s = bus::serial_bits(0x3Fu8, 0x20u8, 6);
    assert(bus::serial_bits(0xE0u8 << 1u8, 0x20u8, 0) =~= Seq::<bool>::empty());
    assert(bus::serial_bits(0xE0u8, 0x20u8, 1) =~= seq![true]);
    assert(bus::serial_bits(0xF0u8, 0x20u8, 2) =~= seq![true, true]);
    assert(bus::serial_bits(0xF8u8, 0x20u8, 3) =~= seq![true, true, true]);
    assert(bus::serial_bits(0xFCu8, 0x20u8, 4) =~= seq![true, true, true, true]);
    assert(bus::serial_bits(0x7Eu8, 0x20u8, 5) =~= seq![true, true, true, true, true]);
    assert(s =~= Seq::new(6, |i: int| true));
    bus::lemma_serial_ops(0x3Fu8, 0x20u8, BusOp::CtrlXor(CTRL_SDA), 6, v);
}

/// Repeated brightness words clock in six ones each.
proof fn lemma_brightness_words(n: nat, v: u8)
    ensures
        bus::clocked_bits(bus::repeat_ops(brightness_word_ops(), n), v) == Seq::new(6 * n, |i: int| true),
    decreases n,
{
    if n > 0 {
        let a = bus::repeat_ops(brightness_word_ops(), (n - 1) as nat);
        lemma_brightness_words((n - 1) as nat, v);
        bus::lemma_clocked_bits_append(a, brightness_word_ops(), v);
        lemma_brightness_word(bus::ctrl_final(a, v));
        assert(Seq::new(6 * (n - 1) as nat, |i: int| true) + Seq::new(6, |i: int| true) =~= Seq::new(
            6 * n,
            |i: int| true,
        ));
    }
}

/// The driver's setup clocks in 1152 ones, six for each of the 192
/// brightness words, whatever the control register held before; every
/// other access of the setup leaves the clock line as it is. While the
/// words are sent the bank-select line is low (the brightness bank), and
/// the setup leaves it high (the colour bank).
pub proof fn lemma_setup_clocks_full_brightness(v: u8)
    ensures
        bus::clocked_bits(setup_ops(), v) == Seq::new(1152, |i: int| true),
        setup_ops() == setup_head() + bus::repeat_ops(brightness_word_ops(), 192) + bus::latch_ops()
            + seq![BusOp::CtrlOr(CTRL_SB)],
        forall|k: int|
            0 <= k <= bus::repeat_ops(brightness_word_ops(), 192).len() ==> #[trigger] bus::ctrl_final(
                setup_head() + bus::repeat_ops(brightness_word_ops(), 192).take(k),
                v,
            ) & CTRL_SB == 0,
        bus::ctrl_final(setup_ops(), v) & CTRL_SB != 0,
{
    let o1 = BusOp::CtrlOr(CTRL_RST);
    let o2 = BusOp::CtrlOr(CTRL_SDA);
    let o3 = BusOp::CtrlAnd(CTRL_SB_CLEAR);
    let l1 = BusOp::CtrlOr(CTRL_LAT);
    let l2 = BusOp::CtrlXor(CTRL_LAT);
    let o4 = BusOp::CtrlOr(CTRL_SB);
    let words = bus::repeat_ops(brightness_word_ops(), 192);
    let head = seq![o1] + seq![o2] + seq![o3];
    assert(seq![o1, o2, o3] =~= head);
    assert(bus::latch_ops() =~= seq![l1] + seq![l2]);
    let tail = seq![l1] + seq![l2] + seq![o4];
    assert(setup_ops() =~= head + words + tail);
    assert(setup_head() =~= head);
    // the head
    bus::lemma_quiet_op(o1, v);
    bus::lemma_clocked_bits_append(seq![o1], seq![o2], v);
    bus::lemma_quiet_op(o2, bus::ctrl_final(seq![o1], v));
    bus::lemma_clocked_bits_append(seq![o1] + seq![o2], seq![o3], v);
    bus::lemma_quiet_op(o3, bus::ctrl_final(seq![o1] + seq![o2], v));
    assert(bus::clocked_bits(head, v) =~= Seq::<bool>::empty());
    let vh = bus::ctrl_final(head, v);
    // the words
    lemma_brightness_words(192, vh);
    bus::lemma_clocked_bits_append(head, words, v);
    let vw = bus::ctrl_final(words, vh);
    // the tail
    bus::lemma_quiet_op(l1, vw);
    bus::lemma_clocked_bits_append(seq![l1], seq![l2], vw);
    bus::lemma_quiet_op(l2, bus::ctrl_final(seq![l1], vw));
    bus::lemma_clocked_bits_append(seq![l1] + seq![l2], seq![o4], vw);
    bus::lemma_quiet_op(o4, bus::ctrl_final(seq![l1] + seq![l2], vw));
    assert(bus::clocked_bits(tail, vw) =~= Seq::<bool>::empty());
    bus::lemma_clocked_bits_append(head + words, tail, v);
    assert(bus::clocked_bits(setup_ops(), v) =~= Seq::new(1152, |i: int| true));
    // the bank-select line
    bus::lemma_bit_facts(v);
    bus::lemma_bit_facts(v | CTRL_RST);
    bus::lemma_bit_facts((v | CTRL_RST) | CTRL_SDA);
    bus::lemma_clocked_bits_single(o1, v);
    bus::lemma_clocked_bits_single(o2, o1.ctrl_after(v));
    bus::lemma_clocked_bits_single(o3, o2.ctrl_after(o1.ctrl_after(v)));
    assert(vh & CTRL_SB == 0);
    bus::lemma_serial_ops_bank_kept(FULL_BRIGHTNESS, 0x20u8, BusOp::CtrlXor(CTRL_SDA), 6);
    bus::lemma_repeat_ops_bank_kept(brightness_word_ops(), 192);
    assert forall|k: int| 0 <= k <= words.len() implies #[trigger] bus::ctrl_final(
        setup_head() + words.take(k),
        v,
    ) & CTRL_SB == 0 by {
        bus::lemma_all_bank_kept_parts(words, words, k);
        bus::lemma_clocked_bits_append(head, words.take(k), v);
        bus::lemma_bank_kept_final(words.take(k), vh);
    }
    bus::lemma_clocked_bits_append(seq![l1] + seq![l2], seq![o4], vw);
    bus::lemma_clocked_bits_single(o4, bus::ctrl_final(seq![l1] + seq![l2], vw));
    bus::lemma_bit_facts(bus::ctrl_final(seq![l1] + seq![l2], vw));
}

/// Storing a pixel gives it the colour and leaves every other pixel, the
/// size of the frame, the bus log and the line counter as they were.
pub proof fn lemma_store_sets_one_pixel(
    d: DisplayModel,
    x: int,
    y: int,
    r: u8,
    g: u8,
    b: u8,
)
    requires
        d.frame.len() == FRAME_LEN,
        0 <= x < 8,
        0 <= y < 8,
    ensures
        stored(d, x, y, r, g, b).frame.len() == FRAME_LEN,
        pixel_of(stored(d, x, y, r, g, b).frame, x, y) == (r, g, b),
        forall|x2: int, y2: int|
            0 <= x2 < 8 && 0 <= y2 < 8 && !(x2 == x && y2 == y) ==> #[trigger] pixel_of(
                stored(d, x, y, r, g, b).frame,
                x2,
                y2,
            ) == pixel_of(d.frame, x2, y2),
        stored(d, x, y, r, g, b).bus == d.bus,
        stored(d, x, y, r, g, b).line == d.line,
{
}

/// Painting a pixel gives it the colour and leaves every other pixel, and
/// the size of the frame, as they were; the refresh goes to the pixel's
/// column.
pub proof fn lemma_paint_sets_one_pixel(
    d: DisplayModel,
    x: int,
    y: int,
    r: u8,
    g: u8,
    b: u8,
)
    requires
        d.frame.len() == FRAME_LEN,
        0 <= x < 8,
        0 <= y < 8,
    ensures
        paint(d, x, y, r, g, b).frame.len() == FRAME_LEN,
        pixel_of(paint(d, x, y, r, g, b).frame, x, y) == (r, g, b),
        forall|x2: int, y2: int|
            0 <= x2 < 8 && 0 <= y2 < 8 && !(x2 == x && y2 == y) ==> #[trigger] pixel_of(
                paint(d, x, y, r, g, b).frame,
                x2,
                y2,
            ) == pixel_of(d.frame, x2, y2),
        paint(d, x, y, r, g, b).bus == d.bus + column_ops(paint(d, x, y, r, g, b).frame, x),
{
}

} // verus!
