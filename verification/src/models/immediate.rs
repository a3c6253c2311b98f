use vstd::prelude::*;
use vstd::std_specs::convert::FromSpecImpl;

verus! {

/// The 64-bit pattern of a signed number of at most 64 bits, its sign carried
/// into the upper bits.
pub open spec fn sign_extended(v: int) -> u64
    recommends
        -0x8000_0000_0000_0000 <= v <= 0x7fff_ffff_ffff_ffff,
{
    if v >= 0 {
        v as u64
    } else {
        (v + 0x1_0000_0000_0000_0000) as u64
    }
}

/// The signed 32-bit number with the bit pattern of `v`.
pub open spec fn reinterpret_u32(v: u32) -> i32 {
    if v <= 0x7fff_ffff {
        v as i32
    } else {
        (v - 0x1_0000_0000) as i32
    }
}

/// The signed 64-bit number with the bit pattern of `v`.
pub open spec fn reinterpret_u64(v: u64) -> i64 {
    if v <= 0x7fff_ffff_ffff_ffff {
        v as i64
    } else {
        (v - 0x1_0000_0000_0000_0000) as i64
    }
}

/// A constant operand of fixed width.
pub trait Immediate: Into<u64> {
    /// The width of the operand in bytes.
    spec fn spec_size() -> u8;

    /// The operand as the 64 bits an instruction would see, the sign carried
    /// upward.
    spec fn spec_as_u64(&self) -> u64;

    fn size() -> (bytes: u8)
        ensures
            bytes == Self::spec_size(),
    ;

    fn as_u64(&self) -> (bits: u64)
        ensures
            bits == self.spec_as_u64(),
    ;
}

/// A signed 32-bit constant operand.
#[derive(PartialEq, Eq, Structural, Hash, Clone, Copy, Debug)]
pub struct Immediate32 {
    pub internal_value: i32,
}

impl Immediate32 {
    /// Creates a new instance of [`Immediate32`].
    #[must_use]
    pub fn new(val: i32) -> (imm: Self)
        ensures
            imm == (Immediate32 { internal_value: val }),
    {
        Self { internal_value: val }
    }

    /// The operand that holds zero.
    #[must_use]
    pub fn zero() -> (imm: Self)
        ensures
            imm == (Immediate32 { internal_value: 0 }),
    {
        Self::new(0)
    }
}

impl From<Immediate32> for i32 {
    fn from(value: Immediate32) -> (ret: Self) {
        value.internal_value
    }
}

impl FromSpecImpl<Immediate32> for i32 {
    open spec fn obeys_from_spec() -> bool {
        true
    }

    open spec fn from_spec(v: Immediate32) -> Self {
        v.internal_value
    }
}

impl From<i32> for Immediate32 {
    fn from(value: i32) -> (ret: Self) {
        Self::new(value)
    }
}

impl FromSpecImpl<i32> for Immediate32 {
    open spec fn obeys_from_spec() -> bool {
        true
    }

    open spec fn from_spec(v: i32) -> Self {
        Immediate32 { internal_value: v }
    }
}

impl From<u32> for Immediate32 {
    fn from(value: u32) -> (ret: Self) {
        if value <= 0x7fff_ffff {
            Self::new(value as i32)
        } else {
            Self::new((value as i64 - 0x1_0000_0000) as i32)
        }
    }
}

impl FromSpecImpl<u32> for Immediate32 {
    open spec fn obeys_from_spec() -> bool {
        true
    }

    open spec fn from_spec(v: u32) -> Self {
        Immediate32 { internal_value: reinterpret_u32(v) }
    }
}

impl From<Immediate32> for u64 {
    fn from(value: Immediate32) -> (ret: Self) {
        value.as_u64()
    }
}

impl FromSpecImpl<Immediate32> for u64 {
    open spec fn obeys_from_spec() -> bool {
        true
    }

    open spec fn from_spec(v: Immediate32) -> Self {
        sign_extended(v.internal_value as int)
    }
}

impl Immediate for Immediate32 {
    open spec fn spec_size() -> u8 {
        4
    }

    open spec fn spec_as_u64(&self) -> u64 {
        sign_extended(self.internal_value as int)
    }

    fn size() -> (bytes: u8) {
        4
    }

    fn as_u64(&self) -> (bits: u64) {
        if self.internal_value >= 0 {
            self.internal_value as u64
        } else {
            (self.internal_value as i128 + 0x1_0000_0000_0000_0000) as u64
        }
    }
}

/// A signed 64-bit constant operand.
#[derive(PartialEq, Eq, Structural, Hash, Clone, Copy, Debug)]
pub struct Immediate64 {
    pub internal_value: i64,
}

impl Immediate64 {
    /// Creates a new instance of [`Immediate64`].
    #[must_use]
    pub fn new(val: i64) -> (imm: Self)
        ensures
            imm == (Immediate64 { internal_value: val }),
    {
        Self { internal_value: val }
    }

    /// The operand that holds zero.
    #[must_use]
    pub fn zero() -> (imm: Self)
        ensures
            imm == (Immediate64 { internal_value: 0 }),
    {
        Self::new(0)
    }
}

impl From<Immediate64> for i64 {
    fn from(value: Immediate64) -> (ret: Self) {
        value.internal_value
    }
}

impl FromSpecImpl<Immediate64> for i64 {
    open spec fn obeys_from_spec() -> bool {
        true
    }

    open spec fn from_spec(v: Immediate64) -> Self {
        v.internal_value
    }
}

impl From<i64> for Immediate64 {
    fn from(value: i64) -> (ret: Self) {
        Self::new(value)
    }
}

impl FromSpecImpl<i64> for Immediate64 {
    open spec fn obeys_from_spec() -> bool {
        true
    }

    open spec fn from_spec(v: i64) -> Self {
        Immediate64 { internal_value: v }
    }
}

impl From<u64> for Immediate64 {
    fn from(value: u64) -> (ret: Self) {
        if value <= 0x7fff_ffff_ffff_ffff {
            Self::new(value as i64)
        } else {
            Self::new((value as i128 - 0x1_0000_0000_0000_0000) as i64)
        }
    }
}

impl FromSpecImpl<u64> for Immediate64 {
    open spec fn obeys_from_spec() -> bool {
        true
    }

    open spec fn from_spec(v: u64) -> Self {
        Immediate64 { internal_value: reinterpret_u64(v) }
    }
}

impl From<Immediate32> for Immediate64 {
    fn from(value: Immediate32) -> (ret: Self) {
        Self::new(value.internal_value as i64)
    }
}

impl FromSpecImpl<Immediate32> for Immediate64 {
    open spec fn obeys_from_spec() -> bool {
        true
    }

    open spec fn from_spec(v: Immediate32) -> Self {
        Immediate64 { internal_value: v.internal_value as i64 }
    }
}

impl From<Immediate64> for u64 {
    fn from(value: Immediate64) -> (ret: Self) {
        value.as_u64()
    }
}

impl FromSpecImpl<Immediate64> for u64 {
    open spec fn obeys_from_spec() -> bool {
        true
    }

    open spec fn from_spec(v: Immediate64) -> Self {
        sign_extended(v.internal_value as int)
    }
}

impl Immediate for Immediate64 {
    open spec fn spec_size() -> u8 {
        8
    }

    open spec fn spec_as_u64(&self) -> u64 {
        sign_extended(self.internal_value as int)
    }

    fn size() -> (bytes: u8) {
        8
    }

    fn as_u64(&self) -> (bits: u64) {
        if self.internal_value >= 0 {
            self.internal_value as u64
        } else {
            (self.internal_value as i128 + 0x1_0000_0000_0000_0000) as u64
        }
    }
}

} // verus!
