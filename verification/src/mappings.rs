//! Glyph tables: which segments light up for each supported symbol.
//!
//! A digit is one byte; bit `k` drives one segment (bit 7 is the dot):
//!
//! ```text
//!       A
//!      ---
//!  F  |   |  B
//!      -G-
//!  E  |   |  C
//!      ---
//!       D
//! ```
use vstd::prelude::*;

verus! {

/// The bit that drives each segment of one digit.
#[derive(Clone, Copy, Debug)]
pub enum SegmentBits {
    SegA,
    SegB,
    SegC,
    SegD,
    SegE,
    SegF,
    SegG,
    DecPoint,
}

impl SegmentBits {
    /// The segment's bit in a digit's byte.
    pub open spec fn bits(self) -> u8 {
        match self {
            SegmentBits::SegA => 0b0000_0001,
            SegmentBits::SegB => 0b0000_0010,
            SegmentBits::SegC => 0b0000_0100,
            SegmentBits::SegD => 0b0000_1000,
            SegmentBits::SegE => 0b0001_0000,
            SegmentBits::SegF => 0b0010_0000,
            SegmentBits::SegG => 0b0100_0000,
            SegmentBits::DecPoint => 0b1000_0000,
        }
    }

    /// The segment's bit, as sent to the display.
    pub fn value(self) -> (r: u8)
        ensures
            r == self.bits(),
    {
        match self {
            SegmentBits::SegA => 0b0000_0001,
            SegmentBits::SegB => 0b0000_0010,
            SegmentBits::SegC => 0b0000_0100,
            SegmentBits::SegD => 0b0000_1000,
            SegmentBits::SegE => 0b0001_0000,
            SegmentBits::SegF => 0b0010_0000,
            SegmentBits::SegG => 0b0100_0000,
            SegmentBits::DecPoint => 0b1000_0000,
        }
    }
}

/// The image of each decimal digit.
#[derive(Clone, Copy, Debug)]
pub enum NumCharBits {
    Zero,
    One,
    Two,
    Three,
    Four,
    Five,
    Six,
    Seven,
    Eight,
    Nine,
}

impl NumCharBits {
    /// The segments lit for this digit.
    pub open spec fn bits(self) -> u8 {
        match self {
            NumCharBits::Zero => 0b0011_1111,
            NumCharBits::One => 0b0000_0110,
            NumCharBits::Two => 0b0101_1011,
            NumCharBits::Three => 0b0100_1111,
            NumCharBits::Four => 0b0110_0110,
            NumCharBits::Five => 0b0110_1101,
            NumCharBits::Six => 0b0111_1101,
            NumCharBits::Seven => 0b0000_0111,
            NumCharBits::Eight => 0b0111_1111,
            NumCharBits::Nine => 0b0110_1111,
        }
    }

    /// The segments lit for this digit, as sent to the display.
    pub fn value(self) -> (r: u8)
        ensures
            r == self.bits(),
    {
        match self {
            NumCharBits::Zero => 0b0011_1111,
            NumCharBits::One => 0b0000_0110,
            NumCharBits::Two => 0b0101_1011,
            NumCharBits::Three => 0b0100_1111,
            NumCharBits::Four => 0b0110_0110,
            NumCharBits::Five => 0b0110_1101,
            NumCharBits::Six => 0b0111_1101,
            NumCharBits::Seven => 0b0000_0111,
            NumCharBits::Eight => 0b0111_1111,
            NumCharBits::Nine => 0b0110_1111,
        }
    }
}

/// The image of each supported upper-case letter.
#[derive(Clone, Copy, Debug)]
pub enum CharBits {
    UpA,
    UpC,
    UpE,
    UpF,
    UpG,
    UpH,
    UpI,
    UpJ,
    UpL,
    UpO,
    UpP,
    UpS,
    UpU,
}

impl CharBits {
    /// The segments lit for this letter.
    pub open spec fn bits(self) -> u8 {
        match self {
            CharBits::UpA => 0x77,
            CharBits::UpC => 0x39,
            CharBits::UpE => 0x79,
            CharBits::UpF => 0x71,
            CharBits::UpG => 0x3D,
            CharBits::UpH => 0x76,
            CharBits::UpI => 0x30,
            CharBits::UpJ => 0x1E,
            CharBits::UpL => 0x38,
            CharBits::UpO => 0x3F,
            CharBits::UpP => 0x73,
            CharBits::UpS => 0x6D,
            CharBits::UpU => 0x3E,
        }
    }

    /// The segments lit for this letter, as sent to the display.
    pub fn value(self) -> (r: u8)
        ensures
            r == self.bits(),
    {
        match self {
            CharBits::UpA => 0x77,
            CharBits::UpC => 0x39,
            CharBits::UpE => 0x79,
            CharBits::UpF => 0x71,
            CharBits::UpG => 0x3D,
            CharBits::UpH => 0x76,
            CharBits::UpI => 0x30,
            CharBits::UpJ => 0x1E,
            CharBits::UpL => 0x38,
            CharBits::UpO => 0x3F,
            CharBits::UpP => 0x73,
            CharBits::UpS => 0x6D,
            CharBits::UpU => 0x3E,
        }
    }
}

/// The image of each supported punctuation symbol; each is the union of its segments.
#[derive(Clone, Copy, Debug)]
pub enum SpecialCharBits {
    Space,
    Minus,
    Underscore,
    Equals,
    QuestionMark,
    Dot,
}

impl SpecialCharBits {
    /// The segments lit for this symbol.
    pub open spec fn bits(self) -> u8 {
        match self {
            SpecialCharBits::Space => 0,
            SpecialCharBits::Minus => SegmentBits::SegG.bits(),
            SpecialCharBits::Underscore => SegmentBits::SegD.bits(),
            SpecialCharBits::Equals => SegmentBits::SegG.bits() | SegmentBits::SegD.bits(),
            SpecialCharBits::QuestionMark => SegmentBits::SegA.bits() | SegmentBits::SegB.bits()
                | SegmentBits::SegG.bits() | SegmentBits::SegE.bits(),
            SpecialCharBits::Dot => SegmentBits::DecPoint.bits(),
        }
    }

    /// The segments lit for this symbol, as sent to the display.
    pub fn value(self) -> (r: u8)
        ensures
            r == self.bits(),
    {
        match self {
            SpecialCharBits::Space => 0,
            SpecialCharBits::Minus => SegmentBits::SegG.value(),
            SpecialCharBits::Underscore => SegmentBits::SegD.value(),
            SpecialCharBits::Equals => SegmentBits::SegG.value() | SegmentBits::SegD.value(),
            SpecialCharBits::QuestionMark => SegmentBits::SegA.value() | SegmentBits::SegB.value()
                | SegmentBits::SegG.value() | SegmentBits::SegE.value(),
            SpecialCharBits::Dot => SegmentBits::DecPoint.value(),
        }
    }
}

/// The digit image that a character selects: its own for '0' to '9', else that of zero.
pub open spec fn num_for(c: char) -> NumCharBits {
    match c {
        '0' => NumCharBits::Zero,
        '1' => NumCharBits::One,
        '2' => NumCharBits::Two,
        '3' => NumCharBits::Three,
        '4' => NumCharBits::Four,
        '5' => NumCharBits::Five,
        '6' => NumCharBits::Six,
        '7' => NumCharBits::Seven,
        '8' => NumCharBits::Eight,
        '9' => NumCharBits::Nine,
        _ => NumCharBits::Zero,
    }
}

/// The letter image that a character selects: its own for a supported letter, else that of 'A'.
pub open spec fn letter_for(c: char) -> CharBits {
    match c {
        'A' => CharBits::UpA,
        'C' => CharBits::UpC,
        'E' => CharBits::UpE,
        'F' => CharBits::UpF,
        'G' => CharBits::UpG,
        'H' => CharBits::UpH,
        'I' => CharBits::UpI,
        'J' => CharBits::UpJ,
        'L' => CharBits::UpL,
        'O' => CharBits::UpO,
        'P' => CharBits::UpP,
        'S' => CharBits::UpS,
        'U' => CharBits::UpU,
        _ => CharBits::UpA,
    }
}

/// The symbol image that a character selects: its own for a supported symbol, else a blank.
pub open spec fn special_for(c: char) -> SpecialCharBits {
    match c {
        ' ' => SpecialCharBits::Space,
        '?' => SpecialCharBits::QuestionMark,
        '-' => SpecialCharBits::Minus,
        '_' => SpecialCharBits::Underscore,
        '=' => SpecialCharBits::Equals,
        '.' => SpecialCharBits::Dot,
        _ => SpecialCharBits::Space,
    }
}

/// The symbol's bits are the union of the segments it is drawn with.
pub proof fn lemma_special_bits_values()
    ensures
        SpecialCharBits::Space.bits() == 0x00,
        SpecialCharBits::Minus.bits() == 0x40,
        SpecialCharBits::Underscore.bits() == 0x08,
        SpecialCharBits::Equals.bits() == 0x48,
        SpecialCharBits::QuestionMark.bits() == 0x53,
        SpecialCharBits::Dot.bits() == 0x80,
{
    assert(0x40u8 | 0x08u8 == 0x48u8) by (bit_vector);
    assert(0x01u8 | 0x02u8 | 0x40u8 | 0x10u8 == 0x53u8) by (bit_vector);
}

/// Each segment is one bit of a digit's byte, from A at bit 0 to G at bit 6,
/// with the dot at bit 7.
pub proof fn lemma_segment_bits()
    ensures
        SegmentBits::SegA.bits() == 0x01,
        SegmentBits::SegB.bits() == 0x02,
        SegmentBits::SegC.bits() == 0x04,
        SegmentBits::SegD.bits() == 0x08,
        SegmentBits::SegE.bits() == 0x10,
        SegmentBits::SegF.bits() == 0x20,
        SegmentBits::SegG.bits() == 0x40,
        SegmentBits::DecPoint.bits() == 0x80,
{
}

/// The letter images light the segments that draw the letters:
///
/// ```text
///  A: A B C E F G    C: A D E F        E: A D E F G     F: A E F G
///  G: A C D E F      H: B C E F G      I: E F           J: B C D E
///  L: D E F          O: A B C D E F    P: A B E F G     S: A C D F G
///  U: B C D E F
/// ```
pub proof fn lemma_letter_images_draw_letters()
    ensures
        CharBits::UpA.bits() == 0x01u8 | 0x02u8 | 0x04u8 | 0x10u8 | 0x20u8 | 0x40u8,
        CharBits::UpC.bits() == 0x01u8 | 0x08u8 | 0x10u8 | 0x20u8,
        CharBits::UpE.bits() == 0x01u8 | 0x08u8 | 0x10u8 | 0x20u8 | 0x40u8,
        CharBits::UpF.bits() == 0x01u8 | 0x10u8 | 0x20u8 | 0x40u8,
        CharBits::UpG.bits() == 0x01u8 | 0x04u8 | 0x08u8 | 0x10u8 | 0x20u8,
        CharBits::UpH.bits() == 0x02u8 | 0x04u8 | 0x10u8 | 0x20u8 | 0x40u8,
        CharBits::UpI.bits() == 0x10u8 | 0x20u8,
        CharBits::UpJ.bits() == 0x02u8 | 0x04u8 | 0x08u8 | 0x10u8,
        CharBits::UpL.bits() == 0x08u8 | 0x10u8 | 0x20u8,
        CharBits::UpO.bits() == 0x01u8 | 0x02u8 | 0x04u8 | 0x08u8 | 0x10u8 | 0x20u8,
        CharBits::UpP.bits() == 0x01u8 | 0x02u8 | 0x10u8 | 0x20u8 | 0x40u8,
        CharBits::UpS.bits() == 0x01u8 | 0x04u8 | 0x08u8 | 0x20u8 | 0x40u8,
        CharBits::UpU.bits() == 0x02u8 | 0x04u8 | 0x08u8 | 0x10u8 | 0x20u8,
{
    assert(0x01u8 | 0x02u8 | 0x04u8 | 0x10u8 | 0x20u8 | 0x40u8 == 0x77u8) by (bit_vector);
    assert(0x01u8 | 0x08u8 | 0x10u8 | 0x20u8 == 0x39u8) by (bit_vector);
    assert(0x01u8 | 0x08u8 | 0x10u8 | 0x20u8 | 0x40u8 == 0x79u8) by (bit_vector);
    assert(0x01u8 | 0x10u8 | 0x20u8 | 0x40u8 == 0x71u8) by (bit_vector);
    assert(0x01u8 | 0x04u8 | 0x08u8 | 0x10u8 | 0x20u8 == 0x3Du8) by (bit_vector);
    assert(0x02u8 | 0x04u8 | 0x10u8 | 0x20u8 | 0x40u8 == 0x76u8) by (bit_vector);
    assert(0x10u8 | 0x20u8 == 0x30u8) by (bit_vector);
    assert(0x02u8 | 0x04u8 | 0x08u8 | 0x10u8 == 0x1Eu8) by (bit_vector);
    assert(0x08u8 | 0x10u8 | 0x20u8 == 0x38u8) by (bit_vector);
    assert(0x01u8 | 0x02u8 | 0x04u8 | 0x08u8 | 0x10u8 | 0x20u8 == 0x3Fu8) by (bit_vector);
    assert(0x01u8 | 0x02u8 | 0x10u8 | 0x20u8 | 0x40u8 == 0x73u8) by (bit_vector);
    assert(0x01u8 | 0x04u8 | 0x08u8 | 0x20u8 | 0x40u8 == 0x6Du8) by (bit_vector);
    assert(0x02u8 | 0x04u8 | 0x08u8 | 0x10u8 | 0x20u8 == 0x3Eu8) by (bit_vector);
}

/// A character that is not a supported letter.
pub open spec fn is_unlisted_letter(c: char) -> bool {
    !(c == 'A' || c == 'C' || c == 'E' || c == 'F' || c == 'G' || c == 'H' || c == 'I' || c == 'J'
        || c == 'L' || c == 'O' || c == 'P' || c == 'S' || c == 'U')
}

/// The three lookups of a character: a digit character selects the image of
/// its own digit (checked against the digit images in
/// `crate::funcs::lemma_encode_char_digit_image`) and anything else selects
/// the image of zero; each supported letter selects its own image and
/// anything else that of 'A'; each supported symbol selects its own image
/// and anything else a blank.
pub proof fn lemma_char_lookups(c: char)
    ensures
        !('0' <= c <= '9') ==> num_for(c) == NumCharBits::Zero,
        c == 'A' ==> letter_for(c) == CharBits::UpA,
        c == 'C' ==> letter_for(c) == CharBits::UpC,
        c == 'E' ==> letter_for(c) == CharBits::UpE,
        c == 'F' ==> letter_for(c) == CharBits::UpF,
        c == 'G' ==> letter_for(c) == CharBits::UpG,
        c == 'H' ==> letter_for(c) == CharBits::UpH,
        c == 'I' ==> letter_for(c) == CharBits::UpI,
        c == 'J' ==> letter_for(c) == CharBits::UpJ,
        c == 'L' ==> letter_for(c) == CharBits::UpL,
        c == 'O' ==> letter_for(c) == CharBits::UpO,
        c == 'P' ==> letter_for(c) == CharBits::UpP,
        c == 'S' ==> letter_for(c) == CharBits::UpS,
        c == 'U' ==> letter_for(c) == CharBits::UpU,
        is_unlisted_letter(c) ==> letter_for(c) == CharBits::UpA,
        c == ' ' ==> special_for(c).bits() == 0x00,
        c == '?' ==> special_for(c).bits() == 0x53,
        c == '-' ==> special_for(c).bits() == 0x40,
        c == '_' ==> special_for(c).bits() == 0x08,
        c == '=' ==> special_for(c).bits() == 0x48,
        c == '.' ==> special_for(c).bits() == 0x80,
        !(c == ' ' || c == '?' || c == '-' || c == '_' || c == '=' || c == '.') ==> special_for(c).bits()
            == 0x00,
{
    lemma_special_bits_values();
}

} // verus!
