use tm1638::mappings::{CharBits, NumCharBits, SegmentBits, SpecialCharBits};
use tm1638::protocol::PinOp;
use tm1638::{convert_to_bin, Brightness, Connector, DisplayState, GpioPinValue, TM1638Adapter};

/// The line changes that send one byte, least significant digit first.
fn byte_ops(n: u8) -> Vec<PinOp> {
    let mut ops = Vec::new();
    for k in 0..8 {
        if (n >> k) & 1 == 1 {
            ops.push(PinOp::DioHigh);
        } else {
            ops.push(PinOp::DioLow);
        }
        ops.push(PinOp::ClkHigh);
        ops.push(PinOp::ClkLow);
    }
    ops
}

#[test]
fn convert_to_bin_gives_msb_first_digits() {
    assert_eq!(convert_to_bin(0), [0; 8]);
    assert_eq!(convert_to_bin(255), [1; 8]);
    assert_eq!(convert_to_bin(0xC0), [1, 1, 0, 0, 0, 0, 0, 0]);
    assert_eq!(convert_to_bin(5), [0, 0, 0, 0, 0, 1, 0, 1]);
    assert_eq!(convert_to_bin(198), [1, 1, 0, 0, 0, 1, 1, 0]);
}

#[test]
fn convert_to_bin_reads_back_as_the_byte() {
    for n in 0..=255u8 {
        let bits = convert_to_bin(n);
        let mut value: u32 = 0;
        for b in bits {
            assert!(b <= 1);
            value = 2 * value + b as u32;
        }
        assert_eq!(value, n as u32);
    }
}

#[test]
fn gpio_pin_value_from_byte() {
    assert!(matches!(GpioPinValue::from(0), GpioPinValue::LOW));
    assert!(matches!(GpioPinValue::from(1), GpioPinValue::HIGH));
    assert!(matches!(GpioPinValue::from(255), GpioPinValue::HIGH));
}

#[test]
fn new_adapter_is_on_at_full_brightness() {
    let a = TM1638Adapter::<2>::new();
    assert_eq!(a.brightness(), 0b1111);
    assert!(a.pending_ops().is_empty());
}

#[test]
fn brightness_and_display_state_are_independent() {
    let mut a = TM1638Adapter::<1>::new();
    a.set_brightness(Brightness::L4);
    assert_eq!(a.brightness(), 0b1100);
    a.set_display_state(DisplayState::OFF);
    assert_eq!(a.brightness(), 0b0100);
    a.set_brightness(Brightness::L1);
    assert_eq!(a.brightness(), 0b0001);
    a.set_display_state(DisplayState::ON);
    assert_eq!(a.brightness(), 0b1001);

    let mut b = TM1638Adapter::<1>::new();
    b.set_display_state(DisplayState::OFF);
    b.set_brightness(Brightness::L6);
    let mut c = TM1638Adapter::<1>::new();
    c.set_brightness(Brightness::L6);
    c.set_display_state(DisplayState::OFF);
    assert_eq!(b.brightness(), c.brightness());
    assert_eq!(b.brightness(), 0b0110);
    assert!(b.pending_ops().is_empty());
}

#[test]
fn command_clocks_out_last_entry_first() {
    let mut a = TM1638Adapter::<1>::new();
    a.command([0, 0, 0, 0, 0, 1, 0, 1]);
    assert_eq!(a.take_ops(), byte_ops(5));
    assert!(a.pending_ops().is_empty());
}

#[test]
fn command_leaves_data_line_alone_for_other_entries() {
    let mut a = TM1638Adapter::<1>::new();
    a.command([2, 2, 2, 2, 2, 2, 2, 1]);
    let mut expected = vec![PinOp::DioHigh, PinOp::ClkHigh, PinOp::ClkLow];
    for _ in 0..7 {
        expected.push(PinOp::ClkHigh);
        expected.push(PinOp::ClkLow);
    }
    assert_eq!(a.take_ops(), expected);
}

#[test]
fn listen_selects_marked_chips() {
    let mut a = TM1638Adapter::<3>::new();
    a.listen([1, 0, 1]);
    assert_eq!(
        a.take_ops(),
        vec![
            PinOp::StbHigh(0),
            PinOp::StbLow(0),
            PinOp::StbHigh(1),
            PinOp::StbHigh(2),
            PinOp::StbLow(2),
        ]
    );
}

fn select_ops(stb: usize, address: u8) -> Vec<PinOp> {
    let mut ops = Vec::new();
    for i in 0..stb {
        ops.push(PinOp::StbHigh(i));
        if i == address as usize / 16 {
            ops.push(PinOp::StbLow(i));
        }
    }
    ops.extend(byte_ops(0xC0 + address % 16));
    ops
}

#[test]
fn select_address_strobes_one_chip_and_sets_address() {
    let mut a = TM1638Adapter::<2>::new();
    a.select_address(22);
    let ops = a.take_ops();
    assert_eq!(ops, select_ops(2, 22));
    assert_eq!(&ops[..3], &[PinOp::StbHigh(0), PinOp::StbHigh(1), PinOp::StbLow(1)]);
    assert_eq!(&ops[3..], &byte_ops(198)[..]);
}

fn encode_ops(stb: usize, address: u8, num: u8, letter: u8, special: u8) -> Vec<PinOp> {
    let mut ops = select_ops(stb, address);
    ops.extend(byte_ops(num));
    ops.extend(byte_ops(letter));
    ops.extend(byte_ops(special));
    ops
}

#[test]
fn encode_char_sends_digit_letter_and_symbol_images() {
    let mut a = TM1638Adapter::<1>::new();
    a.encode_char(4, 'A');
    assert_eq!(a.take_ops(), encode_ops(1, 4, 0x3F, 0x77, 0x00));
    a.encode_char(0, '7');
    assert_eq!(a.take_ops(), encode_ops(1, 0, 0x07, 0x77, 0x00));
    a.encode_char(2, '?');
    assert_eq!(a.take_ops(), encode_ops(1, 2, 0x3F, 0x77, 0x53));
    a.encode_char(6, 'U');
    assert_eq!(a.take_ops(), encode_ops(1, 6, 0x3F, 0x3E, 0x00));
    a.encode_char(6, 'z');
    assert_eq!(a.take_ops(), encode_ops(1, 6, 0x3F, 0x77, 0x00));
}

#[test]
fn write_char_steps_two_addresses_and_wraps() {
    let mut a = TM1638Adapter::<1>::new();
    a.write_char(14, "AB");
    let mut expected = select_ops(1, 14);
    expected.extend(encode_ops(1, 14, 0x3F, 0x77, 0x00));
    expected.extend(encode_ops(1, 0, 0x3F, 0x77, 0x00));
    assert_eq!(a.take_ops(), expected);
}

#[test]
fn write_char_of_empty_text_only_selects() {
    let mut a = TM1638Adapter::<2>::new();
    a.write_char(30, "");
    assert_eq!(a.take_ops(), select_ops(2, 30));
}

#[test]
fn write_char_across_chips() {
    let mut a = TM1638Adapter::<2>::new();
    a.write_char(12, "E-8");
    let mut expected = select_ops(2, 12);
    expected.extend(encode_ops(2, 12, 0x3F, 0x79, 0x00));
    expected.extend(encode_ops(2, 14, 0x3F, 0x77, 0x40));
    expected.extend(encode_ops(2, 16, 0x7F, 0x77, 0x00));
    assert_eq!(a.take_ops(), expected);
}

#[test]
fn write_segments_raw_selects_each_address() {
    let mut a = TM1638Adapter::<1>::new();
    a.write_segments_raw(&[0x3F, 0x06], 14);
    let mut expected = select_ops(1, 14);
    expected.extend(byte_ops(0x3F));
    expected.extend(select_ops(1, 0));
    expected.extend(byte_ops(0x06));
    assert_eq!(a.take_ops(), expected);
}

#[test]
fn clear_blanks_eight_digits() {
    let mut a = TM1638Adapter::<1>::new();
    a.clear();
    let mut expected = Vec::new();
    for k in 0..8u8 {
        expected.extend(select_ops(1, 2 * k));
        expected.extend(byte_ops(0));
    }
    assert_eq!(a.take_ops(), expected);
}

#[test]
fn reset_shows_acef_at_address_22() {
    let mut c = Connector::<2>::new();
    c.reset();
    assert_eq!(c.displays().brightness(), 0b1100);
    let mut expected = select_ops(2, 22);
    expected.extend(encode_ops(2, 22, 0x3F, 0x77, 0x00));
    expected.extend(encode_ops(2, 24, 0x3F, 0x39, 0x00));
    expected.extend(encode_ops(2, 26, 0x3F, 0x79, 0x00));
    expected.extend(encode_ops(2, 28, 0x3F, 0x71, 0x00));
    assert_eq!(c.take_ops(), expected);
    assert!(c.displays().pending_ops().is_empty());
}

#[test]
fn glyph_tables_hold_documented_values() {
    let digits = [
        NumCharBits::Zero,
        NumCharBits::One,
        NumCharBits::Two,
        NumCharBits::Three,
        NumCharBits::Four,
        NumCharBits::Five,
        NumCharBits::Six,
        NumCharBits::Seven,
        NumCharBits::Eight,
        NumCharBits::Nine,
    ];
    let expected = [0x3f, 0x06, 0x5b, 0x4f, 0x66, 0x6d, 0x7d, 0x07, 0x7f, 0x6f];
    for (d, e) in digits.iter().zip(expected.iter()) {
        assert_eq!(d.value(), *e);
    }
    assert_eq!(CharBits::UpA.value(), 0x77);
    assert_eq!(CharBits::UpC.value(), 0x39);
    assert_eq!(CharBits::UpE.value(), 0x79);
    assert_eq!(CharBits::UpF.value(), 0x71);
    assert_eq!(SegmentBits::SegA.value(), 0x01);
    assert_eq!(SegmentBits::DecPoint.value(), 0x80);
    assert_eq!(SpecialCharBits::Space.value(), 0x00);
    assert_eq!(SpecialCharBits::Minus.value(), 0x40);
    assert_eq!(SpecialCharBits::Underscore.value(), 0x08);
    assert_eq!(SpecialCharBits::Equals.value(), 0x48);
    assert_eq!(SpecialCharBits::QuestionMark.value(), 0x53);
    assert_eq!(SpecialCharBits::Dot.value(), 0x80);
}

#[test]
fn control_byte_tracks_the_last_settings() {
    let mut a = TM1638Adapter::<2>::new();
    a.set_display_state(DisplayState::OFF);
    a.write_char(0, "HI");
    a.set_brightness(Brightness::L2);
    a.select_address(20);
    a.set_brightness(Brightness::L5);
    a.command([1, 0, 1, 0, 1, 0, 1, 0]);
    assert_eq!(a.brightness(), 0b0101);
    a.set_display_state(DisplayState::ON);
    a.listen([0, 1]);
    a.encode_char(18, '3');
    assert_eq!(a.brightness(), 0b1101);
    assert_eq!(a.brightness() & 0b1111_0000, 0);
}
