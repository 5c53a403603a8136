//! The line-level protocol of the TM1638: which pin levels, in which order,
//! each driver operation produces.
use vstd::prelude::*;

use crate::bin_digits;
use vstd::arithmetic::power2::{lemma2_to64, pow2};
use crate::mappings::{letter_for, num_for, special_for};

verus! {

/// One change of level on one of the lines that drive the chips.
#[derive(Clone, Copy, Debug, PartialEq, Eq, Structural)]
pub enum PinOp {
    /// Data line low.
    DioLow,
    /// Data line high.
    DioHigh,
    /// Clock line high.
    ClkHigh,
    /// Clock line low.
    ClkLow,
    /// Strobe line of the chip with this index high (chip not selected).
    StbHigh(usize),
    /// Strobe line of the chip with this index low (chip selected).
    StbLow(usize),
}

/// The lines' changes that clock out one entry of a command array: the data
/// line follows the entry when it is 0 or 1 and is left alone otherwise, then
/// one clock pulse follows.
pub open spec fn bit_ops(b: u8) -> Seq<PinOp> {
    if b == 0 {
        seq![PinOp::DioLow, PinOp::ClkHigh, PinOp::ClkLow]
    } else if b == 1 {
        seq![PinOp::DioHigh, PinOp::ClkHigh, PinOp::ClkLow]
    } else {
        seq![PinOp::ClkHigh, PinOp::ClkLow]
    }
}

/// The changes for the first `k` entries clocked out of an eight-entry command
/// array, which goes out last entry first.
pub open spec fn command_ops_upto(byte: Seq<u8>, k: nat) -> Seq<PinOp>
    decreases k,
{
    if k == 0 {
        seq![]
    } else {
        command_ops_upto(byte, (k - 1) as nat) + bit_ops(byte[7 - (k - 1)])
    }
}

/// The changes that send a whole eight-entry command array.
pub open spec fn command_ops(byte: Seq<u8>) -> Seq<PinOp> {
    command_ops_upto(byte, 8)
}

/// The changes that send the byte `n`, split into binary digits.
pub open spec fn send_byte_ops(n: u8) -> Seq<PinOp> {
    command_ops(bin_digits(n))
}

/// The changes of the strobe lines `0..k`: each goes high, then low again
/// where its entry of `s` is 1.
pub open spec fn strobe_ops_upto(s: Seq<u8>, k: nat) -> Seq<PinOp>
    decreases k,
{
    if k == 0 {
        seq![]
    } else {
        let i = (k - 1) as nat;
        strobe_ops_upto(s, i) + if s[i as int] == 1 {
            seq![PinOp::StbHigh(i as usize), PinOp::StbLow(i as usize)]
        } else {
            seq![PinOp::StbHigh(i as usize)]
        }
    }
}

/// The changes of all the strobe lines for a selection array `s`.
pub open spec fn listen_ops(s: Seq<u8>) -> Seq<PinOp> {
    strobe_ops_upto(s, s.len())
}

/// A selection array for `n` chips with a 1 at index `j` only.
pub open spec fn one_hot(n: nat, j: int) -> Seq<u8> {
    Seq::new(n, |i: int| if i == j { 1u8 } else { 0u8 })
}

/// The byte that sets the chip's address register to `address % 16`.
pub open spec fn address_command(address: u8) -> u8 {
    (0xC0 + address % 16) as u8
}

/// The changes that select `address` on a board of `stb` chips: the chip
/// `address / 16` is strobed, then the address command is sent.
pub open spec fn select_ops(stb: nat, address: u8) -> Seq<PinOp> {
    listen_ops(one_hot(stb, address as int / 16)) + send_byte_ops(address_command(address))
}

/// The changes that write the character `c` at `address`: the address is
/// selected, then the digit, letter and symbol images that `c` selects are
/// sent in that order.
pub open spec fn encode_ops(stb: nat, address: u8, c: char) -> Seq<PinOp> {
    select_ops(stb, address) + send_byte_ops(num_for(c).bits()) + send_byte_ops(
        letter_for(c).bits(),
    ) + send_byte_ops(special_for(c).bits())
}

/// The range that addresses wrap around in, on a board of `stb` chips.
pub open spec fn address_modulus(stb: nat) -> int {
    16 * (stb % 256) as int
}

/// The address of the `k`-th item of a run that starts at `start`: consecutive
/// items are two addresses apart, wrapping around at the address modulus.
pub open spec fn item_address(stb: nat, start: u8, k: int) -> u8 {
    if k == 0 {
        start
    } else {
        ((start + 2 * k) % address_modulus(stb)) as u8
    }
}

/// The changes that write the first `k` characters of `text`, from `start` on.
pub open spec fn write_ops_upto(stb: nat, start: u8, text: Seq<char>, k: nat) -> Seq<PinOp>
    decreases k,
{
    if k == 0 {
        seq![]
    } else {
        write_ops_upto(stb, start, text, (k - 1) as nat) + encode_ops(
            stb,
            item_address(stb, start, k - 1),
            text[k - 1],
        )
    }
}

/// The changes that write raw segment bytes: each one's address is selected,
/// then the byte is sent.
pub open spec fn segments_ops_upto(stb: nat, start: u8, segments: Seq<u8>, k: nat) -> Seq<
    PinOp,
>
    decreases k,
{
    if k == 0 {
        seq![]
    } else {
        segments_ops_upto(stb, start, segments, (k - 1) as nat) + select_ops(
            stb,
            item_address(stb, start, k - 1),
        ) + send_byte_ops(segments[k - 1])
    }
}

/// Binary digit `k` of `n`, counted from the least significant.
pub open spec fn bit_of(n: u8, k: nat) -> u8 {
    ((n as nat / pow2(k)) % 2) as u8
}

/// The data line level that carries the binary digit `bit`.
pub open spec fn data_level(bit: u8) -> PinOp {
    if bit == 1 {
        PinOp::DioHigh
    } else {
        PinOp::DioLow
    }
}

/// Serial transmission of the `k` least significant binary digits of `n`,
/// least significant first: for each digit the data line takes its level,
/// then one clock pulse latches it.
pub open spec fn lsb_first_ops(n: u8, k: nat) -> Seq<PinOp> {
    Seq::new(
        3 * k,
        |j: int|
            if j % 3 == 0 {
                data_level(bit_of(n, (j / 3) as nat))
            } else if j % 3 == 1 {
                PinOp::ClkHigh
            } else {
                PinOp::ClkLow
            },
    )
}

proof fn lemma_bin_digits_bits(n: u8)
    ensures
        forall|k: nat| k < 8 ==> #[trigger] bin_digits(n)[7 - k] == bit_of(n, k),
{
    lemma2_to64();
    assert forall|k: nat| k < 8 implies #[trigger] bin_digits(n)[7 - k] == bit_of(n, k) by {
        if k == 0 {
        } else if k == 1 {
        } else if k == 2 {
        } else if k == 3 {
        } else if k == 4 {
        } else if k == 5 {
        } else if k == 6 {
        } else {
        }
    }
}

/// The clocking out of the first `k` entries of an eight-entry array of
/// binary digits, last entry first: for each entry the data line takes its
/// level, then one clock pulse latches it.
pub open spec fn binary_command_ops(byte: Seq<u8>, k: nat) -> Seq<PinOp> {
    Seq::new(
        3 * k,
        |j: int|
            if j % 3 == 0 {
                data_level(byte[7 - j / 3])
            } else if j % 3 == 1 {
                PinOp::ClkHigh
            } else {
                PinOp::ClkLow
            },
    )
}

proof fn lemma_command_prefix_binary(byte: Seq<u8>, k: nat)
    requires
        k <= 8,
        byte.len() == 8,
        forall|i: int| 0 <= i < 8 ==> #[trigger] byte[i] <= 1,
    ensures
        command_ops_upto(byte, k) == binary_command_ops(byte, k),
    decreases k,
{
    if k > 0 {
        lemma_command_prefix_binary(byte, (k - 1) as nat);
        let i = (k - 1) as int;
        assert(byte[7 - i] <= 1);
        assert(command_ops_upto(byte, k) =~= binary_command_ops(byte, k));
    }
}

/// Sending an array of binary digits takes exactly eight clock pulses; before
/// pulse `i` the data line carries entry `7 - i`.
pub proof fn lemma_command_binary_entries(byte: Seq<u8>)
    requires
        byte.len() == 8,
        forall|i: int| 0 <= i < 8 ==> #[trigger] byte[i] <= 1,
    ensures
        command_ops(byte) == binary_command_ops(byte, 8),
        command_ops(byte).len() == 24,
{
    lemma_command_prefix_binary(byte, 8);
}

/// A byte goes out least significant digit first: before each of eight clock
/// pulses the data line carries the next binary digit of the byte.
pub proof fn lemma_send_byte_lsb_first(n: u8)
    ensures
        send_byte_ops(n) == lsb_first_ops(n, 8),
        send_byte_ops(n).len() == 24,
{
    let d = bin_digits(n);
    lemma_bin_digits_bits(n);
    assert forall|i: int| 0 <= i < 8 implies #[trigger] d[i] <= 1 by {
        assert(d[7 - (7 - i) as nat] == bit_of(n, (7 - i) as nat));
    }
    lemma_command_binary_entries(d);
    assert forall|j: int| 0 <= j < 24 implies #[trigger] binary_command_ops(d, 8)[j] == lsb_first_ops(
        n,
        8,
    )[j] by {
        assert(d[7 - (j / 3) as nat] == bit_of(n, (j / 3) as nat));
    }
    assert(binary_command_ops(d, 8) =~= lsb_first_ops(n, 8));
}

/// The level that strobe line `i` is left at by `ops`: that of its last
/// change (`true` for high), or `None` when `ops` never changes it.
pub open spec fn strobe_level(ops: Seq<PinOp>, i: usize) -> Option<bool>
    decreases ops.len(),
{
    if ops.len() == 0 {
        None
    } else if ops.last() == PinOp::StbHigh(i) {
        Some(true)
    } else if ops.last() == PinOp::StbLow(i) {
        Some(false)
    } else {
        strobe_level(ops.drop_last(), i)
    }
}

/// `ops` leaves strobe line `i` alone.
pub open spec fn no_strobe_change(ops: Seq<PinOp>, i: usize) -> bool {
    forall|j: int| 0 <= j < ops.len() ==> #[trigger] ops[j] != PinOp::StbHigh(i) && ops[j] != PinOp::StbLow(i)
}

proof fn lemma_strobe_level_append(a: Seq<PinOp>, b: Seq<PinOp>, i: usize)
    requires
        no_strobe_change(b, i),
    ensures
        strobe_level(a + b, i) == strobe_level(a, i),
    decreases b.len(),
{
    if b.len() > 0 {
        assert((a + b).drop_last() =~= a + b.drop_last());
        assert(b.last() == b[b.len() - 1]);
        lemma_strobe_level_append(a, b.drop_last(), i);
    } else {
        assert(a + b =~= a);
    }
}

proof fn lemma_command_no_strobe(byte: Seq<u8>, k: nat, i: usize)
    requires
        k <= 8,
        byte.len() == 8,
    ensures
        no_strobe_change(command_ops_upto(byte, k), i),
    decreases k,
{
    if k > 0 {
        lemma_command_no_strobe(byte, (k - 1) as nat, i);
        let a = command_ops_upto(byte, (k - 1) as nat);
        let b = bit_ops(byte[7 - (k - 1)]);
        assert forall|j: int| 0 <= j < (a + b).len() implies #[trigger] (a + b)[j] != PinOp::StbHigh(i)
            && (a + b)[j] != PinOp::StbLow(i) by {
            if j >= a.len() {
                assert((a + b)[j] == b[j - a.len()]);
            }
        }
    }
}

proof fn lemma_strobe_prefix_levels(s: Seq<u8>, k: nat, i: usize)
    requires
        k <= s.len(),
        k <= usize::MAX,
    ensures
        strobe_level(strobe_ops_upto(s, k), i) == if (i as nat) < k {
            Some(s[i as int] != 1)
        } else {
            None::<bool>
        },
    decreases k,
{
    if k > 0 {
        let c = (k - 1) as nat;
        let a = strobe_ops_upto(s, c);
        let b = if s[c as int] == 1 {
            seq![PinOp::StbHigh(c as usize), PinOp::StbLow(c as usize)]
        } else {
            seq![PinOp::StbHigh(c as usize)]
        };
        assert(strobe_ops_upto(s, k) == a + b);
        lemma_strobe_prefix_levels(s, c, i);
        if i as nat == c {
            assert((a + b).last() == b.last());
            if s[c as int] == 1 {
                assert(b.last() == PinOp::StbLow(i));
            } else {
                assert(b.last() == PinOp::StbHigh(i));
            }
        } else {
            assert(no_strobe_change(b, i));
            lemma_strobe_level_append(a, b, i);
        }
    }
}

/// Strobing with a selection array leaves each chip's line low (selected)
/// where its entry is 1 and high elsewhere, and no other line touched.
pub proof fn lemma_listen_strobe_levels(s: Seq<u8>, i: usize)
    requires
        s.len() <= usize::MAX,
    ensures
        strobe_level(listen_ops(s), i) == if (i as nat) < s.len() {
            Some(s[i as int] != 1)
        } else {
            None::<bool>
        },
{
    lemma_strobe_prefix_levels(s, s.len(), i);
}

/// Selecting an address strobes exactly one chip: afterwards the strobe line
/// of chip `address / 16` is low (selected), every other chip's line is high,
/// and no line beyond the board is touched.
pub proof fn lemma_select_strobes_one_chip(stb: nat, address: u8, i: usize)
    requires
        address as int / 16 < stb,
        stb <= usize::MAX,
    ensures
        strobe_level(select_ops(stb, address), i) == if (i as nat) < stb {
            Some(i as int != address as int / 16)
        } else {
            None::<bool>
        },
{
    let s = one_hot(stb, address as int / 16);
    lemma_strobe_prefix_levels(s, stb, i);
    lemma_command_no_strobe(bin_digits(address_command(address)), 8, i);
    lemma_strobe_level_append(listen_ops(s), send_byte_ops(address_command(address)), i);
}

/// Selecting an address ends with the chip's "set address" command: a byte
/// whose two top bits are set and whose low four bits are the address within
/// the chip, `address % 16`, sent least significant digit first.
pub proof fn lemma_select_sends_address_command(stb: nat, address: u8)
    ensures
        address_command(address) == 0b1100_0000u8 | (address & 0x0f),
        address_command(address) & 0x0f == address % 16,
        address_command(address) & 0xf0 == 0b1100_0000,
        select_ops(stb, address) == listen_ops(one_hot(stb, address as int / 16)) + lsb_first_ops(
            0b1100_0000u8 | (address & 0x0f),
            8,
        ),
{
    let c = address_command(address);
    assert(c == 0xC0 + address % 16);
    assert(0xC0u8 + address % 16 == 0b1100_0000u8 | (address & 0x0fu8)) by (bit_vector);
    assert((0b1100_0000u8 | (address & 0x0fu8)) & 0x0fu8 == address % 16 && (0b1100_0000u8 | (
    address & 0x0fu8)) & 0xf0u8 == 0b1100_0000u8) by (bit_vector);
    lemma_send_byte_lsb_first(c);
}

/// Writing a character selects its address and then sends three bytes, each
/// least significant digit first: the digit image, the letter image and the
/// symbol image that the character selects.
pub proof fn lemma_encode_sends_three_images(stb: nat, address: u8, c: char)
    ensures
        encode_ops(stb, address, c) == select_ops(stb, address) + lsb_first_ops(num_for(c).bits(), 8)
            + lsb_first_ops(letter_for(c).bits(), 8) + lsb_first_ops(special_for(c).bits(), 8),
        encode_ops(stb, address, c).len() == select_ops(stb, address).len() + 72,
{
    lemma_send_byte_lsb_first(num_for(c).bits());
    lemma_send_byte_lsb_first(letter_for(c).bits());
    lemma_send_byte_lsb_first(special_for(c).bits());
}

} // verus!
