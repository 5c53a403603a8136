//! Pictures for running text, a clock, a stopwatch and a countdown timer on
//! eight seven-segment digits. The caller shows each picture and waits
//! between them.
use vstd::prelude::*;

use crate::mappings::{
    letter_for, num_for, special_for, CharBits, NumCharBits, SegmentBits, SpecialCharBits,
};

verus! {

/// Number of digits on the board.
pub const DISPLAY_COUNT: usize = 8;

/// The stopwatch counts below this value.
pub const STOPWATCH_MAX: u16 = 10_000;

/// The image of the decimal digit `d % 10`.
pub open spec fn digit_bits(d: int) -> u8 {
    let d = d % 10;
    if d == 0 {
        NumCharBits::Zero.bits()
    } else if d == 1 {
        NumCharBits::One.bits()
    } else if d == 2 {
        NumCharBits::Two.bits()
    } else if d == 3 {
        NumCharBits::Three.bits()
    } else if d == 4 {
        NumCharBits::Four.bits()
    } else if d == 5 {
        NumCharBits::Five.bits()
    } else if d == 6 {
        NumCharBits::Six.bits()
    } else if d == 7 {
        NumCharBits::Seven.bits()
    } else if d == 8 {
        NumCharBits::Eight.bits()
    } else {
        NumCharBits::Nine.bits()
    }
}

/// The image of the last decimal digit of `digit`.
pub fn encode_digit(digit: u8) -> (r: u8)
    ensures
        r == digit_bits(digit as int),
{
    let digit = digit % 10;
    if digit == 0 {
        NumCharBits::Zero.value()
    } else if digit == 1 {
        NumCharBits::One.value()
    } else if digit == 2 {
        NumCharBits::Two.value()
    } else if digit == 3 {
        NumCharBits::Three.value()
    } else if digit == 4 {
        NumCharBits::Four.value()
    } else if digit == 5 {
        NumCharBits::Five.value()
    } else if digit == 6 {
        NumCharBits::Six.value()
    } else if digit == 7 {
        NumCharBits::Seven.value()
    } else if digit == 8 {
        NumCharBits::Eight.value()
    } else {
        NumCharBits::Nine.value()
    }
}

/// The four-digit picture of `num % 10000` in decimal, leading zeros shown.
pub open spec fn number_image(num: int) -> Seq<u8> {
    let n = num % 10000;
    seq![
        digit_bits(n / 1000),
        digit_bits(n / 100),
        digit_bits(n / 10),
        digit_bits(n),
    ]
}

/// The four-digit picture of `num % 10000` in decimal, leading zeros shown.
pub fn encode_number(num: u16) -> (r: [u8; 4])
    ensures
        r@ == number_image(num as int),
{
    let ghost n0: int = num as int % 10000;
    let mut n = num % 10000;
    let mut bits: [u8; 4] = [0; 4];
    assert(pow10(0) == 1);
    for i in 0..4
        invariant
            n0 == num as int % 10000,
            n as int == n0 / pow10(i as nat),
            forall|j: int| 0 <= j < i ==> #[trigger] bits@[3 - j] == digit_bits(n0 / pow10(j as nat)),
    {
        let digit = (n % 10) as u8;
        bits[3 - i] = encode_digit(digit);
        proof {
            lemma_pow10_step(n0, i as nat);
        }
        n /= 10;
    }
    proof {
        assert(pow10(0) == 1 && pow10(1) == 10 && pow10(2) == 100 && pow10(3) == 1000) by {
            reveal_with_fuel(pow10, 4);
        }
        assert(bits@[3 - 0] == digit_bits(n0 / pow10(0)));
        assert(bits@[3 - 1] == digit_bits(n0 / pow10(1)));
        assert(bits@[3 - 2] == digit_bits(n0 / pow10(2)));
        assert(bits@[3 - 3] == digit_bits(n0 / pow10(3)));
        assert(bits@ =~= number_image(num as int));
    }
    bits
}

/// Ten to the power `k`.
pub open spec fn pow10(k: nat) -> int
    decreases k,
{
    if k == 0 {
        1
    } else {
        10 * pow10((k - 1) as nat)
    }
}

/// Dividing by the next power of ten is dividing by ten once more.
proof fn lemma_pow10_step(n: int, k: nat)
    requires
        0 <= n,
    ensures
        pow10(k) > 0,
        n / pow10(k) / 10 == n / pow10(k + 1),
    decreases k,
{
    if k > 0 {
        lemma_pow10_step(n, (k - 1) as nat);
    }
    assert(pow10(k + 1) == 10 * pow10(k));
    vstd::arithmetic::div_mod::lemma_div_denominator(n, pow10(k), 10);
    vstd::arithmetic::mul::lemma_mul_is_commutative(pow10(k), 10);
}

/// The one-digit picture of a character: its digit, letter or symbol image
/// where it has one, else a blank.
pub open spec fn glyph(c: char) -> u8 {
    match c {
        '0' => NumCharBits::Zero.bits(),
        '1' => NumCharBits::One.bits(),
        '2' => NumCharBits::Two.bits(),
        '3' => NumCharBits::Three.bits(),
        '4' => NumCharBits::Four.bits(),
        '5' => NumCharBits::Five.bits(),
        '6' => NumCharBits::Six.bits(),
        '7' => NumCharBits::Seven.bits(),
        '8' => NumCharBits::Eight.bits(),
        '9' => NumCharBits::Nine.bits(),
        'A' => CharBits::UpA.bits(),
        'C' => CharBits::UpC.bits(),
        'E' => CharBits::UpE.bits(),
        'F' => CharBits::UpF.bits(),
        'G' => CharBits::UpG.bits(),
        'H' => CharBits::UpH.bits(),
        'I' => CharBits::UpI.bits(),
        'J' => CharBits::UpJ.bits(),
        'L' => CharBits::UpL.bits(),
        'O' => CharBits::UpO.bits(),
        'P' => CharBits::UpP.bits(),
        'S' => CharBits::UpS.bits(),
        'U' => CharBits::UpU.bits(),
        '?' => SpecialCharBits::QuestionMark.bits(),
        '-' => SpecialCharBits::Minus.bits(),
        '_' => SpecialCharBits::Underscore.bits(),
        '=' => SpecialCharBits::Equals.bits(),
        '.' => SpecialCharBits::Dot.bits(),
        _ => SpecialCharBits::Space.bits(),
    }
}

/// The one-digit picture of a character.
///
/// This crate's own single-byte encoding of a character, for the pictures
/// of this module: it merges the three tables of [`crate::mappings`] (a
/// character has an image in at most one of them) and shows anything else
/// as a blank. [`crate::TM1638Adapter::encode_char`] instead sends all three
/// table lookups.
pub fn glyph_for_char(c: char) -> (r: u8)
    ensures
        r == glyph(c),
{
    match c {
        '0' => NumCharBits::Zero.value(),
        '1' => NumCharBits::One.value(),
        '2' => NumCharBits::Two.value(),
        '3' => NumCharBits::Three.value(),
        '4' => NumCharBits::Four.value(),
        '5' => NumCharBits::Five.value(),
        '6' => NumCharBits::Six.value(),
        '7' => NumCharBits::Seven.value(),
        '8' => NumCharBits::Eight.value(),
        '9' => NumCharBits::Nine.value(),
        'A' => CharBits::UpA.value(),
        'C' => CharBits::UpC.value(),
        'E' => CharBits::UpE.value(),
        'F' => CharBits::UpF.value(),
        'G' => CharBits::UpG.value(),
        'H' => CharBits::UpH.value(),
        'I' => CharBits::UpI.value(),
        'J' => CharBits::UpJ.value(),
        'L' => CharBits::UpL.value(),
        'O' => CharBits::UpO.value(),
        'P' => CharBits::UpP.value(),
        'S' => CharBits::UpS.value(),
        'U' => CharBits::UpU.value(),
        '?' => SpecialCharBits::QuestionMark.value(),
        '-' => SpecialCharBits::Minus.value(),
        '_' => SpecialCharBits::Underscore.value(),
        '=' => SpecialCharBits::Equals.value(),
        '.' => SpecialCharBits::Dot.value(),
        _ => SpecialCharBits::Space.value(),
    }
}

/// The pictures of the characters of a banner text, dots shown as blanks.
pub open spec fn banner_data(text: Seq<char>) -> Seq<u8> {
    text.map_values(|c: char| glyph(if c == '.' { ' ' } else { c }))
}

/// The pictures of the characters of a banner text, dots shown as blanks.
pub fn encode_banner_text(text: &str) -> (r: Vec<u8>)
    ensures
        r@ == banner_data(text@),
        r@.len() == text@.len(),
        forall|i: int|
            0 <= i < text@.len() ==> #[trigger] r@[i] == if text@[i] == '.' {
                0
            } else {
                glyph(text@[i])
            },
{
    broadcast use vstd::string::axiom_spec_iter;

    let mut data: Vec<u8> = Vec::new();
    for c in it: text.chars()
        invariant
            it.seq() == text@,
            data@ == banner_data(text@.take(it.index() as int)),
    {
        let shown = if c == '.' {
            ' '
        } else {
            c
        };
        data.push(glyph_for_char(shown));
        proof {
            let k = it.index() as int;
            assert(text@.take(k + 1) =~= text@.take(k).push(text@[k]));
            assert(data@ =~= banner_data(text@.take(k + 1)));
        }
    }
    assert(text@.take(text@.len() as int) =~= text@);
    data
}

/// The `x`-th picture of a running banner over the character pictures
/// `data`: the `DISPLAY_COUNT` pictures from `x` on.
pub fn banner_window(data: &[u8], x: usize) -> (r: Vec<u8>)
    requires
        x + DISPLAY_COUNT <= data@.len(),
    ensures
        r@ == data@.subrange(x as int, x + DISPLAY_COUNT),
{
    let mut frame: Vec<u8> = Vec::new();
    for k in 0..DISPLAY_COUNT
        invariant
            x + DISPLAY_COUNT <= data.len(),
            frame@ == data@.subrange(x as int, x + k),
    {
        frame.push(data[x + k]);
        assert(frame@ =~= data@.subrange(x as int, x + k + 1));
    }
    frame
}

/// The successive pictures of a running banner: every window of
/// `DISPLAY_COUNT` consecutive characters of the text (dots blanked), from
/// the first window to the last.
pub fn banner_frames(text: &str) -> (r: Vec<Vec<u8>>)
    requires
        text@.len() >= DISPLAY_COUNT,
    ensures
        r@.len() == text@.len() - DISPLAY_COUNT + 1,
        forall|x: int|
            0 <= x < r@.len() ==> #[trigger] r@[x]@ == banner_data(text@).subrange(
                x,
                x + DISPLAY_COUNT,
            ),
{
    let data = encode_banner_text(text);
    let to = (data.len() - DISPLAY_COUNT) + 1;
    let mut frames: Vec<Vec<u8>> = Vec::new();
    for x in 0..to
        invariant
            to == data@.len() - DISPLAY_COUNT + 1,
            data@ == banner_data(text@),
            frames@.len() == x,
            forall|y: int|
                0 <= y < x ==> #[trigger] frames@[y]@ == data@.subrange(y, y + DISPLAY_COUNT),
    {
        frames.push(banner_window(data.as_slice(), x));
    }
    frames
}

/// The picture with the dot of digit `position` lit when `dot` holds.
pub open spec fn with_dot(picture: Seq<u8>, position: int, dot: bool) -> Seq<u8> {
    if dot {
        picture.update(position, picture[position] | SegmentBits::DecPoint.bits())
    } else {
        picture
    }
}

/// The clock picture hh:mm: the first two characters of `l`, then those of
/// `r`, with the dot after the second digit lit when `show_dots` holds.
pub fn clock_frame(l: &str, r: &str, show_dots: bool) -> (res: [u8; 4])
    requires
        l@.len() >= 2,
        r@.len() >= 2,
    ensures
        res@ == with_dot(seq![glyph(l@[0]), glyph(l@[1]), glyph(r@[0]), glyph(r@[1])], 1, show_dots),
{
    let (l0, l1) = first_two_chars(l);
    let (r0, r1) = first_two_chars(r);
    let mut data: [u8; 4] = [
        glyph_for_char(l0),
        glyph_for_char(l1),
        glyph_for_char(r0),
        glyph_for_char(r1),
    ];
    if show_dots {
        data[1] = data[1] | SegmentBits::DecPoint.value();
    }
    assert(data@ =~= with_dot(seq![glyph(l@[0]), glyph(l@[1]), glyph(r@[0]), glyph(r@[1])], 1, show_dots));
    data
}

/// One tick of the clock: the picture for the time `l`:`r` with the dot lit
/// when `show_dots` holds, and the dot state for the next tick (the dot
/// blinks: it alternates from tick to tick).
pub fn clock_step(l: &str, r: &str, show_dots: bool) -> (res: ([u8; 4], bool))
    requires
        l@.len() >= 2,
        r@.len() >= 2,
    ensures
        res.0@ == with_dot(
            seq![glyph(l@[0]), glyph(l@[1]), glyph(r@[0]), glyph(r@[1])],
            1,
            show_dots,
        ),
        res.1 == !show_dots,
{
    (clock_frame(l, r, show_dots), !show_dots)
}

fn first_two_chars(s: &str) -> (r: (char, char))
    requires
        s@.len() >= 2,
    ensures
        r.0 == s@[0],
        r.1 == s@[1],
{
    broadcast use vstd::string::axiom_spec_iter;

    let mut first = ' ';
    let mut second = ' ';
    let mut seen: usize = 0;
    for c in it: s.chars()
        invariant
            it.seq() == s@,
            seen == if it.index() < 2 { it.index() as int } else { 2 },
            s@.len() >= 2,
            it.index() > 0 ==> first == s@[0],
            it.index() > 1 ==> second == s@[1],
    {
        if seen == 0 {
            first = c;
            seen = 1;
        } else if seen == 1 {
            second = c;
            seen = 2;
        }
    }
    (first, second)
}

/// The stopwatch picture for the count `i`: the number, with the dot after
/// the second digit lit on odd counts when blinking.
pub open spec fn stopwatch_image(i: int, blink: bool) -> Seq<u8> {
    with_dot(number_image(i), 1, blink && i % 2 == 1)
}

/// The stopwatch picture for the count `i`.
pub fn stopwatch_frame(i: u16, blink: bool) -> (r: [u8; 4])
    ensures
        r@ == stopwatch_image(i as int, blink),
{
    let mut data = encode_number(i);
    if blink && i % 2 == 1 {
        data[1] = data[1] | SegmentBits::DecPoint.value();
    }
    assert(data@ =~= stopwatch_image(i as int, blink));
    data
}

/// The pictures of a stopwatch that counts from 0 up to `to - 1`.
pub fn stopwatch_frames(to: u16, blink: bool) -> (r: Vec<[u8; 4]>)
    ensures
        r@.len() == to,
        forall|i: int| 0 <= i < to ==> #[trigger] r@[i]@ == stopwatch_image(i, blink),
{
    let mut frames: Vec<[u8; 4]> = Vec::new();
    for i in 0..to
        invariant
            frames@.len() == i,
            forall|j: int| 0 <= j < i ==> #[trigger] frames@[j]@ == stopwatch_image(j, blink),
    {
        frames.push(stopwatch_frame(i, blink));
    }
    frames
}

/// The `i`-th picture of a countdown from `from_val`: the numbers from
/// `from_val` down to 0, then four pictures that blink between blank and
/// all zeros.
pub open spec fn timer_image(from_val: int, i: int) -> Seq<u8> {
    if i <= from_val {
        number_image(from_val - i)
    } else if (i - from_val - 1) % 2 == 0 {
        seq![0u8, 0u8, 0u8, 0u8]
    } else {
        seq![digit_bits(0), digit_bits(0), digit_bits(0), digit_bits(0)]
    }
}

/// The number of pictures of a countdown from `from_val`: one per number
/// from `from_val` down to 0, then four.
pub fn timer_frame_count(from_val: u16) -> (r: u32)
    ensures
        r == from_val + 5,
{
    from_val as u32 + 5
}

/// The `i`-th picture of a countdown from `from_val`.
pub fn timer_frame(from_val: u16, i: u32) -> (r: [u8; 4])
    requires
        i < from_val + 5,
    ensures
        r@ == timer_image(from_val as int, i as int),
{
    if i <= from_val as u32 {
        let n = from_val - (i as u16);
        encode_number(n)
    } else {
        let data = if (i - from_val as u32 - 1) % 2 == 0 {
            [0u8; 4]
        } else {
            [encode_digit(0); 4]
        };
        assert(data@ =~= timer_image(from_val as int, i as int));
        data
    }
}

/// The pictures of a countdown from `from_val` to 0, then the blinking that
/// shows that time is up.
pub fn timer_frames(from_val: u16) -> (r: Vec<[u8; 4]>)
    requires
        from_val < u16::MAX,
    ensures
        r@.len() == from_val + 5,
        forall|i: int| 0 <= i < from_val + 5 ==> #[trigger] r@[i]@ == timer_image(from_val as int, i),
{
    let mut frames: Vec<[u8; 4]> = Vec::new();
    let count = timer_frame_count(from_val);
    for i in 0..count
        invariant
            count == from_val + 5,
            frames@.len() == i,
            forall|j: int| 0 <= j < i ==> #[trigger] frames@[j]@ == timer_image(from_val as int, j),
    {
        frames.push(timer_frame(from_val, i));
    }
    frames
}

/// Distinct decimal digits have distinct images.
pub proof fn lemma_digit_images_distinct(a: int, b: int)
    requires
        0 <= a < 10,
        0 <= b < 10,
        a != b,
    ensures
        digit_bits(a) != digit_bits(b),
{
}

/// A four-digit picture stands for one number: numbers below 10000 with the
/// same picture are equal.
pub proof fn lemma_number_image_injective(a: int, b: int)
    requires
        0 <= a < 10000,
        0 <= b < 10000,
        number_image(a) == number_image(b),
    ensures
        a == b,
{
    assert(a % 10000 == a && b % 10000 == b);
    let (ia, ib) = (number_image(a), number_image(b));
    assert(ia[0] == ib[0] && ia[1] == ib[1] && ia[2] == ib[2] && ia[3] == ib[3]);
    lemma_digit_images_injective_mod(a / 1000, b / 1000);
    lemma_digit_images_injective_mod(a / 100, b / 100);
    lemma_digit_images_injective_mod(a / 10, b / 10);
    lemma_digit_images_injective_mod(a, b);
    lemma_four_digits(a);
    lemma_four_digits(b);
}

/// A number below 10000 is the sum of its four decimal digits' values.
proof fn lemma_four_digits(a: int)
    requires
        0 <= a < 10000,
    ensures
        a == 1000 * ((a / 1000) % 10) + 100 * ((a / 100) % 10) + 10 * ((a / 10) % 10) + a % 10,
{
    let q1 = a / 10;
    let q2 = q1 / 10;
    let q3 = q2 / 10;
    assert(a == 10 * q1 + a % 10);
    assert(q1 == 10 * q2 + q1 % 10);
    assert(q2 == 10 * q3 + q2 % 10);
    assert(q3 < 10);
    vstd::arithmetic::div_mod::lemma_div_denominator(a, 10, 10);
    vstd::arithmetic::div_mod::lemma_div_denominator(a, 100, 10);
    assert(q2 == a / 100);
    assert(q3 == a / 1000);
}

/// Equal digit images mean equal last decimal digits.
proof fn lemma_digit_images_injective_mod(a: int, b: int)
    requires
        0 <= a,
        0 <= b,
        digit_bits(a) == digit_bits(b),
    ensures
        a % 10 == b % 10,
{
}

/// A running banner moves by one character per picture: each picture after
/// the first is the previous one shifted left by one digit, with the next
/// character entering on the right.
pub proof fn lemma_banner_scrolls(text: Seq<char>, x: int)
    requires
        0 <= x,
        x + DISPLAY_COUNT < text.len(),
    ensures
        banner_data(text).subrange(x + 1, x + 1 + DISPLAY_COUNT) == banner_data(text).subrange(
            x,
            x + DISPLAY_COUNT,
        ).drop_first().push(banner_data(text)[x + DISPLAY_COUNT]),
{
    let d = banner_data(text);
    assert(d.subrange(x + 1, x + 1 + DISPLAY_COUNT) =~= d.subrange(x, x + DISPLAY_COUNT).drop_first().push(
        d[x + DISPLAY_COUNT],
    ));
}

/// The character that writes the decimal digit `d`.
pub open spec fn digit_char(d: int) -> char {
    (d + '0' as int) as char
}

/// Each decimal digit lights the segments that draw it:
///
/// ```text
///  0: A B C D E F     1: B C             2: A B D E G
///  3: A B C D G       4: B C F G         5: A C D F G
///  6: A C D E F G     7: A B C           8: A B C D E F G
///  9: A B C D F G
/// ```
pub proof fn lemma_digit_images_draw_digits()
    ensures
        digit_bits(0) == 0x3f,
        digit_bits(1) == 0x06,
        digit_bits(2) == 0x5b,
        digit_bits(3) == 0x4f,
        digit_bits(4) == 0x66,
        digit_bits(5) == 0x6d,
        digit_bits(6) == 0x7d,
        digit_bits(7) == 0x07,
        digit_bits(8) == 0x7f,
        digit_bits(9) == 0x6f,
        digit_bits(0) == 0x01u8 | 0x02u8 | 0x04u8 | 0x08u8 | 0x10u8 | 0x20u8,
        digit_bits(1) == 0x02u8 | 0x04u8,
        digit_bits(2) == 0x01u8 | 0x02u8 | 0x08u8 | 0x10u8 | 0x40u8,
        digit_bits(3) == 0x01u8 | 0x02u8 | 0x04u8 | 0x08u8 | 0x40u8,
        digit_bits(4) == 0x02u8 | 0x04u8 | 0x20u8 | 0x40u8,
        digit_bits(5) == 0x01u8 | 0x04u8 | 0x08u8 | 0x20u8 | 0x40u8,
        digit_bits(6) == 0x01u8 | 0x04u8 | 0x08u8 | 0x10u8 | 0x20u8 | 0x40u8,
        digit_bits(7) == 0x01u8 | 0x02u8 | 0x04u8,
        digit_bits(8) == 0x01u8 | 0x02u8 | 0x04u8 | 0x08u8 | 0x10u8 | 0x20u8 | 0x40u8,
        digit_bits(9) == 0x01u8 | 0x02u8 | 0x04u8 | 0x08u8 | 0x20u8 | 0x40u8,
        SegmentBits::SegA.bits() == 0x01 && SegmentBits::SegB.bits() == 0x02
            && SegmentBits::SegC.bits() == 0x04 && SegmentBits::SegD.bits() == 0x08
            && SegmentBits::SegE.bits() == 0x10 && SegmentBits::SegF.bits() == 0x20
            && SegmentBits::SegG.bits() == 0x40,
{
    assert(0x01u8 | 0x02u8 | 0x04u8 | 0x08u8 | 0x10u8 | 0x20u8 == 0x3fu8) by (bit_vector);
    assert(0x02u8 | 0x04u8 == 0x06u8) by (bit_vector);
    assert(0x01u8 | 0x02u8 | 0x08u8 | 0x10u8 | 0x40u8 == 0x5bu8) by (bit_vector);
    assert(0x01u8 | 0x02u8 | 0x04u8 | 0x08u8 | 0x40u8 == 0x4fu8) by (bit_vector);
    assert(0x02u8 | 0x04u8 | 0x20u8 | 0x40u8 == 0x66u8) by (bit_vector);
    assert(0x01u8 | 0x04u8 | 0x08u8 | 0x20u8 | 0x40u8 == 0x6du8) by (bit_vector);
    assert(0x01u8 | 0x04u8 | 0x08u8 | 0x10u8 | 0x20u8 | 0x40u8 == 0x7du8) by (bit_vector);
    assert(0x01u8 | 0x02u8 | 0x04u8 == 0x07u8) by (bit_vector);
    assert(0x01u8 | 0x02u8 | 0x04u8 | 0x08u8 | 0x10u8 | 0x20u8 | 0x40u8 == 0x7fu8) by (bit_vector);
    assert(0x01u8 | 0x02u8 | 0x04u8 | 0x08u8 | 0x20u8 | 0x40u8 == 0x6fu8) by (bit_vector);
}

/// The digit image that [`crate::TM1638Adapter::encode_char`] sends for a
/// decimal digit character is the image of that digit's value.
pub proof fn lemma_encode_char_digit_image(d: int)
    requires
        0 <= d < 10,
    ensures
        num_for(digit_char(d)).bits() == digit_bits(d),
{
    assert(d == 0 || d == 1 || d == 2 || d == 3 || d == 4 || d == 5 || d == 6 || d == 7 || d == 8
        || d == 9);
}

/// A decimal digit character's one-digit picture is the image of that
/// digit's value; a letter's or symbol's picture is its table image.
pub proof fn lemma_glyph_images(c: char)
    ensures
        '0' <= c <= '9' ==> glyph(c) == digit_bits(c as int - '0' as int),
        letter_for(c) != CharBits::UpA || c == 'A' ==> glyph(c) == letter_for(c).bits(),
        special_for(c) != SpecialCharBits::Space ==> glyph(c) == special_for(c).bits(),
        !('0' <= c <= '9') && letter_for(c) == CharBits::UpA && c != 'A' && special_for(c)
            == SpecialCharBits::Space ==> glyph(c) == 0,
{
}

/// A banner shows each character of its text as its own picture, except a
/// dot, which it shows as a blank.
pub proof fn lemma_banner_shows_text(text: Seq<char>, i: int)
    requires
        0 <= i < text.len(),
    ensures
        banner_data(text).len() == text.len(),
        text[i] != '.' ==> banner_data(text)[i] == glyph(text[i]),
        text[i] == '.' ==> banner_data(text)[i] == 0,
{
}

/// A one-digit number shows as three leading zeros and its digit, and
/// appending a decimal digit to a number below 1000 shifts its picture one
/// digit to the left, with the new digit entering on the right.
pub proof fn lemma_number_image_digits(n: int, d: int)
    requires
        0 <= n < 1000,
        0 <= d < 10,
    ensures
        number_image(d) == seq![digit_bits(0), digit_bits(0), digit_bits(0), digit_bits(d)],
        number_image(10 * n + d) == number_image(n).drop_first().push(digit_bits(d)),
{
    let m = 10 * n + d;
    assert(m % 10000 == m && n % 10000 == n && d % 10000 == d);
    assert(m / 1000 == n / 100);
    assert(m / 100 == n / 10);
    assert(m / 10 == n);
    assert(m % 10 == d % 10);
    assert(digit_bits(m) == digit_bits(d));
    assert(digit_bits(d / 1000) == digit_bits(0) && digit_bits(d / 100) == digit_bits(0) && digit_bits(
        d / 10,
    ) == digit_bits(0));
    assert(digit_bits(n / 1000) == digit_bits(0));
    assert(number_image(d) =~= seq![digit_bits(0), digit_bits(0), digit_bits(0), digit_bits(d)]);
    assert(number_image(m) =~= number_image(n).drop_first().push(digit_bits(d)));
}

/// Digit images never light the dot.
pub proof fn lemma_digit_images_have_no_dot(d: int)
    ensures
        digit_bits(d) & 0x80 == 0,
        digit_bits(d) | 0x80 != digit_bits(d),
{
    let b = digit_bits(d);
    assert(b < 0x80);
    assert(b < 0x80u8 ==> b & 0x80u8 == 0 && b | 0x80u8 != b) by (bit_vector);
}

/// The stopwatch shows each count with its dot off, except that when it
/// blinks the dot alternates from count to count, starting off at 0.
pub proof fn lemma_stopwatch_blinks(i: int, blink: bool)
    requires
        0 <= i,
    ensures
        stopwatch_image(i, blink).len() == 4,
        stopwatch_image(i, blink)[0] == number_image(i)[0],
        stopwatch_image(i, blink)[2] == number_image(i)[2],
        stopwatch_image(i, blink)[3] == number_image(i)[3],
        stopwatch_image(i, blink)[1] & 0x7f == number_image(i)[1],
        stopwatch_image(0, blink) == number_image(0),
        !blink ==> stopwatch_image(i, blink) == number_image(i),
        blink ==> ((stopwatch_image(i + 1, blink)[1] & 0x80 == 0) != (stopwatch_image(i, blink)[1]
            & 0x80 == 0)),
{
    let n = number_image(i)[1];
    let n1 = number_image(i + 1)[1];
    lemma_digit_images_have_no_dot((i % 10000) / 100);
    lemma_digit_images_have_no_dot(((i + 1) % 10000) / 100);
    assert(n & 0x80 == 0 && n1 & 0x80 == 0);
    assert(n & 0x80u8 == 0 ==> (n | 0x80u8) & 0x7fu8 == n && n & 0x7fu8 == n && (n | 0x80u8)
        & 0x80u8 != 0) by (bit_vector);
    assert(n1 & 0x80u8 == 0 ==> (n1 | 0x80u8) & 0x80u8 != 0) by (bit_vector);
    assert((i + 1) % 2 == 1 <==> i % 2 == 0);
}

/// The countdown shows the numbers from `from_val` down to 0, one less on
/// each picture, then alternates blank and all zeros twice, starting blank.
pub proof fn lemma_timer_counts_down(from_val: int, i: int)
    requires
        0 <= from_val,
        0 <= i,
    ensures
        timer_image(from_val, 0) == number_image(from_val),
        timer_image(from_val, from_val) == number_image(0),
        i < from_val ==> timer_image(from_val, i + 1) == number_image(from_val - i - 1),
        timer_image(from_val, from_val + 1) == seq![0u8, 0u8, 0u8, 0u8],
        timer_image(from_val, from_val + 2) == number_image(0),
        timer_image(from_val, from_val + 3) == seq![0u8, 0u8, 0u8, 0u8],
        timer_image(from_val, from_val + 4) == number_image(0),
{
    lemma_number_image_digits(0, 0);
}

} // verus!
