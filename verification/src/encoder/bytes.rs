use vstd::prelude::*;

verus! {

/// Whether `value` can be written as a signed number of `count` bytes.
pub open spec fn fits_signed(value: int, count: nat) -> bool {
    if count == 1 {
        -0x80 <= value <= 0x7f
    } else if count == 2 {
        -0x8000 <= value <= 0x7fff
    } else if count == 4 {
        -0x8000_0000 <= value <= 0x7fff_ffff
    } else {
        count == 8 && -0x8000_0000_0000_0000 <= value <= 0x7fff_ffff_ffff_ffff
    }
}

/// The byte that holds a signed 8-bit number in two's complement: the
/// number itself where it is not negative, and else the number raised by
/// 256.
pub open spec fn int8_byte(value: i8) -> u8 {
    if value >= 0 {
        value as u8
    } else {
        (value + 0x100) as u8
    }
}

/// The 32 bits that hold a signed 32-bit number in two's complement, read
/// as a number that is not negative.
pub open spec fn int32_pattern(value: i32) -> int {
    if value >= 0 {
        value as int
    } else {
        value + 0x1_0000_0000
    }
}

/// The four bytes that hold a signed 32-bit number in two's complement,
/// lowest byte first.
pub open spec fn int32_bytes(value: i32) -> Seq<u8> {
    let pattern = int32_pattern(value);
    seq![
        (pattern % 0x100) as u8,
        (pattern / 0x100 % 0x100) as u8,
        (pattern / 0x1_0000 % 0x100) as u8,
        (pattern / 0x100_0000) as u8,
    ]
}

/// The 64 bits that hold a signed 64-bit number in two's complement, read
/// as a number that is not negative.
pub open spec fn int64_pattern(value: i64) -> int {
    if value >= 0 {
        value as int
    } else {
        value + 0x1_0000_0000_0000_0000
    }
}

/// The eight bytes that hold a signed 64-bit number in two's complement,
/// lowest byte first.
pub open spec fn int64_bytes(value: i64) -> Seq<u8> {
    let pattern = int64_pattern(value);
    seq![
        (pattern % 0x100) as u8,
        (pattern / 0x100 % 0x100) as u8,
        (pattern / 0x1_0000 % 0x100) as u8,
        (pattern / 0x100_0000 % 0x100) as u8,
        (pattern / 0x1_0000_0000 % 0x100) as u8,
        (pattern / 0x100_0000_0000 % 0x100) as u8,
        (pattern / 0x1_0000_0000_0000 % 0x100) as u8,
        (pattern / 0x100_0000_0000_0000) as u8,
    ]
}

/// The signed number that a byte holds in two's complement.
pub open spec fn int8_of(byte: u8) -> int {
    if byte < 0x80 {
        byte as int
    } else {
        byte - 0x100
    }
}

/// The signed number that four bytes hold in two's complement, lowest byte
/// first.
pub open spec fn int32_of(bytes: Seq<u8>) -> int
    recommends
        bytes.len() == 4,
{
    let pattern = bytes[0] + 0x100 * bytes[1] + 0x1_0000 * bytes[2] + 0x100_0000 * bytes[3];
    if pattern < 0x8000_0000 {
        pattern
    } else {
        pattern - 0x1_0000_0000
    }
}

/// What is written is what is read: the byte of a number holds that
/// number.
pub proof fn lemma_int8_kept(value: i8)
    ensures
        int8_of(int8_byte(value)) == value,
{
}

/// What is written is what is read: the four bytes of a number hold that
/// number.
pub proof fn lemma_int32_kept(value: i32)
    ensures
        int32_of(int32_bytes(value)) == value,
{
    let pattern = int32_pattern(value);
    let q1 = pattern / 0x100;
    let q2 = q1 / 0x100;
    let q3 = q2 / 0x100;
    assert(q2 == pattern / 0x1_0000) by {
        vstd::arithmetic::div_mod::lemma_div_denominator(pattern, 0x100, 0x100);
    }
    assert(q3 == pattern / 0x100_0000) by {
        vstd::arithmetic::div_mod::lemma_div_denominator(pattern, 0x1_0000, 0x100);
    }
    assert(pattern == 0x100 * q1 + pattern % 0x100);
    assert(q1 == 0x100 * q2 + q1 % 0x100);
    assert(q2 == 0x100 * q3 + q2 % 0x100);
    assert(0 <= q3 < 0x100);
}

/// The byte of a signed 8-bit number.
#[must_use]
pub fn byte_of_i8(value: i8) -> (byte: u8)
    ensures
        byte == int8_byte(value),
{
    if value >= 0 {
        value as u8
    } else {
        (value as i16 + 0x100) as u8
    }
}

/// The four bytes of a signed 32-bit number, lowest first.
#[must_use]
pub fn bytes_of_i32(value: i32) -> (bytes: [u8; 4])
    ensures
        bytes@ == int32_bytes(value),
{
    let pattern: u32 = if value >= 0 {
        value as u32
    } else {
        (value as i64 + 0x1_0000_0000) as u32
    };
    let bytes = [
        (pattern % 0x100) as u8,
        (pattern / 0x100 % 0x100) as u8,
        (pattern / 0x1_0000 % 0x100) as u8,
        (pattern / 0x100_0000) as u8,
    ];
    proof {
        assert(bytes@ =~= int32_bytes(value));
    }
    bytes
}

/// The eight bytes of a signed 64-bit number, lowest first.
#[must_use]
pub fn bytes_of_i64(value: i64) -> (bytes: [u8; 8])
    ensures
        bytes@ == int64_bytes(value),
{
    let pattern: u64 = if value >= 0 {
        value as u64
    } else {
        (value as i128 + 0x1_0000_0000_0000_0000) as u64
    };
    let bytes = [
        (pattern % 0x100) as u8,
        (pattern / 0x100 % 0x100) as u8,
        (pattern / 0x1_0000 % 0x100) as u8,
        (pattern / 0x100_0000 % 0x100) as u8,
        (pattern / 0x1_0000_0000 % 0x100) as u8,
        (pattern / 0x100_0000_0000 % 0x100) as u8,
        (pattern / 0x1_0000_0000_0000 % 0x100) as u8,
        (pattern / 0x100_0000_0000_0000) as u8,
    ];
    proof {
        assert(bytes@ =~= int64_bytes(value));
    }
    bytes
}

} // verus!
