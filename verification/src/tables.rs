use vstd::prelude::*;

verus! {

/// Length-counter load values, indexed by the upper five bits written to a
/// channel's length register (`$4003`, `$4007`, `$400B`, `$400F`).
/// https://wiki.nesdev.org/w/index.php/APU_Length_Counter
pub open spec fn length_value(index: u8) -> u8 {
    match index {
        0 => 10, 1 => 254, 2 => 20, 3 => 2, 4 => 40, 5 => 4, 6 => 80, 7 => 6,
        8 => 160, 9 => 8, 10 => 60, 11 => 10, 12 => 14, 13 => 12, 14 => 26, 15 => 14,
        16 => 12, 17 => 16, 18 => 24, 19 => 18, 20 => 48, 21 => 20, 22 => 96, 23 => 22,
        24 => 192, 25 => 24, 26 => 72, 27 => 26, 28 => 16, 29 => 28, 30 => 32, _ => 30,
    }
}

/// Looks up the length-counter load value for a five-bit index.
pub fn length_table(index: u8) -> (r: u8)
    requires
        index < 32,
    ensures
        r == length_value(index),
{
    match index {
        0 => 10, 1 => 254, 2 => 20, 3 => 2, 4 => 40, 5 => 4, 6 => 80, 7 => 6,
        8 => 160, 9 => 8, 10 => 60, 11 => 10, 12 => 14, 13 => 12, 14 => 26, 15 => 14,
        16 => 12, 17 => 16, 18 => 24, 19 => 18, 20 => 48, 21 => 20, 22 => 96, 23 => 22,
        24 => 192, 25 => 24, 26 => 72, 27 => 26, 28 => 16, 29 => 28, 30 => 32, _ => 30,
    }
}


/// The value of bit `bit` (0..=7) of a byte.
pub open spec fn bit_value(bit: int) -> int {
    if bit <= 0 {
        1
    } else if bit == 1 {
        2
    } else if bit == 2 {
        4
    } else if bit == 3 {
        8
    } else if bit == 4 {
        16
    } else if bit == 5 {
        32
    } else if bit == 6 {
        64
    } else {
        128
    }
}

/// Bit `bit` (0..=7) of `value` is set.
pub open spec fn bit_set(value: u8, bit: int) -> bool {
    (value as int / bit_value(bit)) % 2 == 1
}

/// `value` with bit `bit` set.
pub open spec fn with_bit(value: u8, bit: int) -> u8 {
    if bit_set(value, bit) {
        value
    } else {
        (value + bit_value(bit)) as u8
    }
}

/// `value` with bit `bit` clear.
pub open spec fn without_bit(value: u8, bit: int) -> u8 {
    if bit_set(value, bit) {
        (value - bit_value(bit)) as u8
    } else {
        value
    }
}

/// Masking a byte with a single-bit constant tests that bit.
pub proof fn lemma_byte_bits(v: u8)
    ensures
        (v & 0x01 != 0) == bit_set(v, 0),
        (v & 0x02 != 0) == bit_set(v, 1),
        (v & 0x04 != 0) == bit_set(v, 2),
        (v & 0x08 != 0) == bit_set(v, 3),
        (v & 0x10 != 0) == bit_set(v, 4),
        (v & 0x20 != 0) == bit_set(v, 5),
        (v & 0x40 != 0) == bit_set(v, 6),
        (v & 0x80 != 0) == bit_set(v, 7),
        v | 0x40 == with_bit(v, 6),
        v & !0x40u8 == without_bit(v, 6),
{
    assert({
        &&& (v & 0x01 != 0) == ((v / 1) % 2 == 1)
        &&& (v & 0x02 != 0) == ((v / 2) % 2 == 1)
        &&& (v & 0x04 != 0) == ((v / 4) % 2 == 1)
        &&& (v & 0x08 != 0) == ((v / 8) % 2 == 1)
        &&& (v & 0x10 != 0) == ((v / 16) % 2 == 1)
        &&& (v & 0x20 != 0) == ((v / 32) % 2 == 1)
        &&& (v & 0x40 != 0) == ((v / 64) % 2 == 1)
        &&& (v & 0x80 != 0) == ((v / 128) % 2 == 1)
        &&& (v | 0x40) == (if (v / 64) % 2 == 1 { v } else { (v + 64) as u8 })
        &&& (v & !0x40u8) == (if (v / 64) % 2 == 1 { (v - 64) as u8 } else { v })
    }) by (bit_vector);
}

/// The countdown a channel timer makes on one clock: down by one, or back to
/// its period from zero.
pub open spec fn counted_down(timer: u16, period: u16) -> u16 {
    if timer == 0 {
        period
    } else {
        (timer - 1) as u16
    }
}

/// The bit fields of a register byte, as masks and shifts, are the quotients
/// and remainders the register specs use.
pub proof fn lemma_byte_fields(v: u8)
    ensures
        v >> 6 == v / 64,
        (v >> 4) & 7 == (v / 16) % 8,
        v >> 3 == v / 8,
        v & 7 == v % 8,
        v & 0x0F == v % 16,
        v & 0x7F == v % 128,
{
    assert({
        &&& v >> 6 == v / 64
        &&& (v >> 4) & 7 == (v / 16) % 8
        &&& v >> 3 == v / 8
        &&& v & 7 == v % 8
        &&& v & 0x0F == v % 16
        &&& v & 0x7F == v % 128
    }) by (bit_vector);
}

} // verus!
