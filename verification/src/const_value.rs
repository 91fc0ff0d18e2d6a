//! Constant values: one 64-bit cell per component, read at the width that
//! the owning definition declares.

use vstd::prelude::*;

verus! {

/// One component of a constant. The cell holds the value in its low bits; a
/// read at 8, 16 or 32 bits sees only that many of them.
#[derive(Clone, Copy, Debug, PartialEq, Eq)]
pub struct nir_const_value {
    pub bits: u64,
}

/// The value of the low `bit_size` bits of `bits`, read as an unsigned number.
/// Any size but 8, 16 and 32 reads all 64 bits.
pub open spec fn low_bits(bits: u64, bit_size: u8) -> int {
    if bit_size == 8 {
        bits as int % 0x100
    } else if bit_size == 16 {
        bits as int % 0x1_0000
    } else if bit_size == 32 {
        bits as int % 0x1_0000_0000
    } else {
        bits as int
    }
}

/// Two to the power `bit_size`, for the four sizes a constant can have.
pub open spec fn modulus(bit_size: u8) -> int {
    if bit_size == 8 {
        0x100
    } else if bit_size == 16 {
        0x1_0000
    } else if bit_size == 32 {
        0x1_0000_0000
    } else {
        0x1_0000_0000_0000_0000
    }
}

/// The value of the low `bit_size` bits of `bits`, read in two's complement.
pub open spec fn low_bits_signed(bits: u64, bit_size: u8) -> int {
    let u = low_bits(bits, bit_size);
    if 2 * u >= modulus(bit_size) {
        u - modulus(bit_size)
    } else {
        u
    }
}

impl nir_const_value {
    pub fn u8_(&self) -> (r: u8)
        ensures
            r == low_bits(self.bits, 8),
    {
        let bits: u64 = self.bits;
        assert(bits as u8 == bits % 0x100) by (bit_vector);
        #[verifier::truncate]
        (bits as u8)
    }

    pub fn u16_(&self) -> (r: u16)
        ensures
            r == low_bits(self.bits, 16),
    {
        let bits: u64 = self.bits;
        assert(bits as u16 == bits % 0x1_0000) by (bit_vector);
        #[verifier::truncate]
        (bits as u16)
    }

    pub fn u32_(&self) -> (r: u32)
        ensures
            r == low_bits(self.bits, 32),
    {
        let bits: u64 = self.bits;
        assert(bits as u32 == bits % 0x1_0000_0000) by (bit_vector);
        #[verifier::truncate]
        (bits as u32)
    }

    pub fn u64_(&self) -> (r: u64)
        ensures
            r == low_bits(self.bits, 64),
    {
        self.bits
    }

    pub fn i8_(&self) -> (r: i8)
        ensures
            r == low_bits_signed(self.bits, 8),
    {
        let bits: u64 = self.bits;
        assert(bits % 0x100 >= 0x80 ==> bits as i8 == bits % 0x100 - 0x100) by (bit_vector);
        assert(bits % 0x100 < 0x80 ==> bits as i8 == bits % 0x100) by (bit_vector);
        #[verifier::truncate]
        (bits as i8)
    }

    pub fn i16_(&self) -> (r: i16)
        ensures
            r == low_bits_signed(self.bits, 16),
    {
        let bits: u64 = self.bits;
        assert(bits % 0x1_0000 >= 0x8000 ==> bits as i16 == bits % 0x1_0000 - 0x1_0000)
            by (bit_vector);
        assert(bits % 0x1_0000 < 0x8000 ==> bits as i16 == bits % 0x1_0000) by (bit_vector);
        #[verifier::truncate]
        (bits as i16)
    }

    pub fn i32_(&self) -> (r: i32)
        ensures
            r == low_bits_signed(self.bits, 32),
    {
        let bits: u64 = self.bits;
        assert(bits % 0x1_0000_0000 >= 0x8000_0000 ==> bits as i32 == bits % 0x1_0000_0000
            - 0x1_0000_0000) by (bit_vector);
        assert(bits % 0x1_0000_0000 < 0x8000_0000 ==> bits as i32 == bits % 0x1_0000_0000)
            by (bit_vector);
        #[verifier::truncate]
        (bits as i32)
    }

    pub fn i64_(&self) -> (r: i64)
        ensures
            r == low_bits_signed(self.bits, 64),
    {
        let bits: u64 = self.bits;
        assert(bits >= 0x8000_0000_0000_0000 ==> bits as i64 == bits - 0x1_0000_0000_0000_0000)
            by (bit_vector);
        assert(bits < 0x8000_0000_0000_0000 ==> bits as i64 == bits) by (bit_vector);
        #[verifier::truncate]
        (bits as i64)
    }
}

} // verus!
