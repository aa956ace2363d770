use lib::bus::{BusOp, CTRL_LAT, CTRL_SB, CTRL_SB_CLEAR, CTRL_SCK, CTRL_SDA};
use lib::panel::{open_line, refresh_next_line, run, set_pixel, setup_led_matrix, store_pixel, Display};

/// Performs `ops` on a control register holding `v`; returns the data line
/// at each rising edge of the clock line, and the register's final value.
fn clock_in(ops: &[BusOp], v: u8) -> (Vec<bool>, u8) {
    let mut ctrl = v;
    let mut bits = Vec::new();
    for op in ops {
        let next = op.apply(ctrl);
        if ctrl & CTRL_SCK == 0 && next & CTRL_SCK != 0 {
            bits.push(next & CTRL_SDA != 0);
        }
        ctrl = next;
    }
    (bits, ctrl)
}

fn bits_of(bytes: &[u8]) -> Vec<bool> {
    let mut out = Vec::new();
    for b in bytes {
        for j in (0..8).rev() {
            out.push((b >> j) & 1 == 1);
        }
    }
    out
}

#[test]
fn bus_op_apply_each_kind() {
    assert_eq!(BusOp::CtrlOr(0x10).apply(0x03), 0x13);
    assert_eq!(BusOp::CtrlXor(0x08).apply(0x0C), 0x04);
    assert_eq!(BusOp::CtrlAnd(0xEF).apply(0xFF), 0xEF);
    assert_eq!(BusOp::Channel(0x40).apply(0x5A), 0x5A);
}

#[test]
fn new_display_is_dark_and_idle() {
    let mut d = Display::new();
    assert!(d.is_whole());
    for x in 0..8 {
        for y in 0..8 {
            assert_eq!(d.pixel(x, y), (0, 0, 0));
        }
    }
    assert!(d.take_bus().is_empty());
}

#[test]
fn open_line_selects_one_line() {
    let mut d = Display::new();
    open_line(&mut d, 0);
    open_line(&mut d, 3);
    open_line(&mut d, 7);
    assert_eq!(
        d.take_bus(),
        vec![BusOp::Channel(1), BusOp::Channel(8), BusOp::Channel(128)]
    );
}

#[test]
fn set_pixel_stores_colour_and_keeps_others() {
    let mut d = Display::new();
    set_pixel(&mut d, 2, 5, 10, 20, 30);
    assert_eq!(d.pixel(2, 5), (10, 20, 30));
    assert_eq!(d.pixel(2, 4), (0, 0, 0));
    assert_eq!(d.pixel(3, 5), (0, 0, 0));
    set_pixel(&mut d, 2, 5, 1, 2, 3);
    assert_eq!(d.pixel(2, 5), (1, 2, 3));
}

#[test]
fn set_pixel_refreshes_its_column() {
    let mut d = Display::new();
    set_pixel(&mut d, 4, 1, 0xA5, 0x01, 0x80);
    let ops = d.take_bus();
    // 24 bytes of 8 bits, 3 accesses a bit, then the latch pulse and the line.
    assert_eq!(ops.len(), 24 * 8 * 3 + 2 + 1);
    let n = ops.len();
    assert_eq!(ops[n - 3], BusOp::CtrlOr(CTRL_LAT));
    assert_eq!(ops[n - 2], BusOp::CtrlXor(CTRL_LAT));
    assert_eq!(ops[n - 1], BusOp::Channel(0b0001_0000));
    let mut column = vec![0u8; 24];
    column[3] = 0xA5;
    column[4] = 0x01;
    column[5] = 0x80;
    for v in [0u8, 0xFF, CTRL_SCK, CTRL_SDA] {
        let (bits, _) = clock_in(&ops, v);
        assert_eq!(bits, bits_of(&column));
    }
}

#[test]
fn run_sends_column_msb_first() {
    let mut d = Display::new();
    for y in 0..8 {
        set_pixel(&mut d, 7, y, y as u8, 0x10 * y as u8, 0xFF - y as u8);
    }
    d.take_bus();
    run(&mut d, 7);
    let ops = d.take_bus();
    let mut column = Vec::new();
    for y in 0..8u8 {
        column.push(y);
        column.push(0x10 * y);
        column.push(0xFF - y);
    }
    let (bits, end) = clock_in(&ops, 0x00);
    assert_eq!(bits, bits_of(&column));
    // the latch line is low again after the pulse
    assert_eq!(end & CTRL_LAT, 0);
    assert_eq!(*ops.last().unwrap(), BusOp::Channel(0x80));
    // the first bit sent is the most significant bit of red of row 0
    assert_eq!(ops[0], BusOp::CtrlAnd(0xEF));
}

#[test]
fn setup_clocks_full_brightness() {
    let mut d = Display::new();
    setup_led_matrix(&mut d);
    let ops = d.take_bus();
    assert_eq!(ops.len(), 3 + 192 * 6 * 3 + 2 + 1);
    assert_eq!(ops[0], BusOp::CtrlOr(0x01));
    assert_eq!(ops[1], BusOp::CtrlOr(CTRL_SDA));
    assert_eq!(ops[2], BusOp::CtrlAnd(CTRL_SB_CLEAR));
    assert_eq!(*ops.last().unwrap(), BusOp::CtrlOr(CTRL_SB));
    for v in [0u8, 0xFF, 0x04] {
        let (bits, end) = clock_in(&ops, v);
        assert_eq!(bits.len(), 1152);
        assert!(bits.iter().all(|b| *b));
        assert_ne!(end & CTRL_SB, 0);
    }
    // the frame is not touched
    assert_eq!(d.pixel(0, 0), (0, 0, 0));
}

#[test]
fn setup_sends_words_to_the_brightness_bank() {
    let mut d = Display::new();
    setup_led_matrix(&mut d);
    let ops = d.take_bus();
    for v in [0u8, 0xFF, CTRL_SB] {
        let mut ctrl = v;
        let mut edges = 0;
        for op in &ops {
            let next = op.apply(ctrl);
            if ctrl & CTRL_SCK == 0 && next & CTRL_SCK != 0 {
                assert_eq!(next & CTRL_SB, 0);
                edges += 1;
            }
            ctrl = next;
        }
        assert_eq!(edges, 1152);
        assert_ne!(ctrl & CTRL_SB, 0);
    }
}

#[test]
fn refresh_next_line_cycles_the_lines() {
    let mut d = Display::new();
    store_pixel(&mut d, 2, 0, 0xFF, 0, 0);
    assert!(d.take_bus().is_empty());
    let mut selected = Vec::new();
    for _ in 0..9 {
        refresh_next_line(&mut d);
        let ops = d.take_bus();
        assert_eq!(ops.len(), 24 * 8 * 3 + 3);
        if let BusOp::Channel(v) = ops[ops.len() - 1] {
            selected.push(v);
        }
        if selected.len() == 3 {
            let (bits, _) = clock_in(&ops, 0);
            let mut column = vec![0u8; 24];
            column[0] = 0xFF;
            assert_eq!(bits, bits_of(&column));
        }
    }
    assert_eq!(selected, vec![1, 2, 4, 8, 16, 32, 64, 128, 1]);
    assert_eq!(d.line(), 1);
}
