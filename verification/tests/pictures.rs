use tm1638::funcs::{
    banner_frames, banner_window, clock_frame, clock_step, encode_banner_text, encode_digit,
    encode_number, glyph_for_char, stopwatch_frame, stopwatch_frames, timer_frame, timer_frame_count,
    timer_frames, DISPLAY_COUNT, STOPWATCH_MAX,
};

#[test]
fn constants() {
    assert_eq!(DISPLAY_COUNT, 8);
    assert_eq!(STOPWATCH_MAX, 10_000);
    assert_eq!(tm1638::DISPLAY_REGISTERS_COUNT, 16);
}

#[test]
fn encode_digit_uses_last_decimal_digit() {
    assert_eq!(encode_digit(0), 0x3f);
    assert_eq!(encode_digit(7), 0x07);
    assert_eq!(encode_digit(13), 0x4f);
    assert_eq!(encode_digit(255), 0x6d);
}

#[test]
fn encode_number_shows_four_decimal_digits() {
    assert_eq!(encode_number(1234), [0x06, 0x5b, 0x4f, 0x66]);
    assert_eq!(encode_number(7), [0x3f, 0x3f, 0x3f, 0x07]);
    assert_eq!(encode_number(10005), [0x3f, 0x3f, 0x3f, 0x6d]);
    assert_eq!(encode_number(9999), [0x6f; 4]);
}

#[test]
fn distinct_numbers_have_distinct_pictures() {
    let mut seen = std::collections::HashSet::new();
    for n in 0..10_000u16 {
        assert!(seen.insert(encode_number(n)));
    }
}

#[test]
fn glyph_for_char_covers_the_tables() {
    assert_eq!(glyph_for_char('5'), 0x6d);
    assert_eq!(glyph_for_char('H'), 0x76);
    assert_eq!(glyph_for_char('='), 0x48);
    assert_eq!(glyph_for_char('.'), 0x80);
    assert_eq!(glyph_for_char(' '), 0x00);
    assert_eq!(glyph_for_char('x'), 0x00);
}

#[test]
fn banner_frames_scroll_by_one() {
    let frames = banner_frames("HELLO 1.2");
    assert_eq!(frames.len(), 2);
    let h = 0x76;
    let e = 0x79;
    let l = 0x38;
    let o = 0x3f;
    let one = 0x06;
    let two = 0x5b;
    assert_eq!(frames[0], vec![h, e, l, l, o, 0, one, 0]);
    assert_eq!(frames[1], vec![e, l, l, o, 0, one, 0, two]);
    assert_eq!(&frames[1][..7], &frames[0][1..]);
}

#[test]
fn banner_of_eight_characters_has_one_frame() {
    let frames = banner_frames("SOS SOS.");
    assert_eq!(frames.len(), 1);
    assert_eq!(frames[0].len(), 8);
    assert_eq!(frames[0][7], 0);
}

#[test]
fn clock_frame_blinks_the_colon() {
    assert_eq!(clock_frame("12", "34", false), [0x06, 0x5b, 0x4f, 0x66]);
    assert_eq!(clock_frame("12", "34", true), [0x06, 0x5b | 0x80, 0x4f, 0x66]);
    assert_eq!(clock_frame("095", "5901", false), [0x3f, 0x6f, 0x6d, 0x6f]);
}

#[test]
fn stopwatch_frames_count_up() {
    let frames = stopwatch_frames(3, true);
    assert_eq!(frames, vec![[0x3f, 0x3f, 0x3f, 0x3f], [0x3f, 0x3f | 0x80, 0x3f, 0x06], [0x3f, 0x3f, 0x3f, 0x5b]]);
    let plain = stopwatch_frames(2, false);
    assert_eq!(plain, vec![[0x3f; 4], [0x3f, 0x3f, 0x3f, 0x06]]);
    assert!(stopwatch_frames(0, true).is_empty());
    assert_eq!(stopwatch_frames(STOPWATCH_MAX, false).len(), 10_000);
}

#[test]
fn timer_frames_count_down_then_blink() {
    let frames = timer_frames(2);
    assert_eq!(
        frames,
        vec![
            [0x3f, 0x3f, 0x3f, 0x5b],
            [0x3f, 0x3f, 0x3f, 0x06],
            [0x3f; 4],
            [0; 4],
            [0x3f; 4],
            [0; 4],
            [0x3f; 4],
        ]
    );
    assert_eq!(timer_frames(0).len(), 5);
}

#[test]
fn stopwatch_frame_matches_the_list() {
    let all = stopwatch_frames(12, true);
    for i in 0..12u16 {
        assert_eq!(stopwatch_frame(i, true), all[i as usize]);
    }
    assert_eq!(stopwatch_frame(9999, true), [0x6f, 0x6f | 0x80, 0x6f, 0x6f]);
    assert_eq!(stopwatch_frame(9999, false), [0x6f; 4]);
}

#[test]
fn timer_frame_matches_the_list() {
    assert_eq!(timer_frame_count(3), 8);
    assert_eq!(timer_frame_count(u16::MAX - 1), 65_539);
    let all = timer_frames(3);
    for i in 0..timer_frame_count(3) {
        assert_eq!(timer_frame(3, i), all[i as usize]);
    }
    assert_eq!(timer_frame(u16::MAX, 0), [0x6d, 0x6d, 0x4f, 0x6d]);
    assert_eq!(timer_frame(u16::MAX, 65_536), [0; 4]);
}

#[test]
fn clock_step_alternates_the_dot() {
    let (f0, d1) = clock_step("07", "45", false);
    assert_eq!(f0, [0x3f, 0x07, 0x66, 0x6d]);
    assert!(d1);
    let (f1, d2) = clock_step("07", "45", d1);
    assert_eq!(f1, [0x3f, 0x07 | 0x80, 0x66, 0x6d]);
    assert!(!d2);
}

#[test]
fn banner_windows_match_the_frames() {
    let text = "PLEASE HOLD.";
    let data = encode_banner_text(text);
    assert_eq!(data.len(), 12);
    assert_eq!(data[11], 0);
    let frames = banner_frames(text);
    for x in 0..frames.len() {
        assert_eq!(banner_window(&data, x), frames[x]);
    }
}
