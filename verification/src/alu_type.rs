//! The type of an ALU operand or result: a base type and a bit size packed
//! into one byte.

use vstd::prelude::*;

verus! {

/// The packed encoding of an ALU type.
pub type nir_alu_type = u8;

/// The bits of an ALU type that hold its bit size.
pub const NIR_ALU_TYPE_SIZE_MASK: u8 = 0x79;

/// The bits of an ALU type that hold its base type.
pub const NIR_ALU_TYPE_BASE_TYPE_MASK: u8 = 0x86;

pub const nir_type_int: nir_alu_type = 2;

pub const nir_type_uint: nir_alu_type = 4;

pub const nir_type_bool: nir_alu_type = 6;

pub const nir_type_float: nir_alu_type = 128;

/// An ALU type. A base type has bit size zero; a sized type carries one bit
/// size out of 1, 8, 16, 32 and 64.
#[derive(Clone, Copy, Debug, Eq, Hash, PartialEq)]
pub struct ALUType(pub nir_alu_type);

/// `x` is a power of two.
pub open spec fn is_power_of_two(x: u8) -> bool {
    x == 1 || x == 2 || x == 4 || x == 8 || x == 16 || x == 32 || x == 64 || x == 128
}

impl ALUType {
    /// The signed integer base type.
    pub fn INT() -> (r: ALUType)
        ensures
            r == ALUType(nir_type_int),
    {
        ALUType(nir_type_int)
    }

    /// The unsigned integer base type.
    pub fn UINT() -> (r: ALUType)
        ensures
            r == ALUType(nir_type_uint),
    {
        ALUType(nir_type_uint)
    }

    /// The boolean base type.
    pub fn BOOL() -> (r: ALUType)
        ensures
            r == ALUType(nir_type_bool),
    {
        ALUType(nir_type_bool)
    }

    /// The floating-point base type.
    pub fn FLOAT() -> (r: ALUType)
        ensures
            r == ALUType(nir_type_float),
    {
        ALUType(nir_type_float)
    }

    pub open spec fn spec_bit_size(&self) -> u8 {
        self.0 & NIR_ALU_TYPE_SIZE_MASK
    }

    pub open spec fn spec_base_type(&self) -> ALUType {
        ALUType(self.0 & NIR_ALU_TYPE_BASE_TYPE_MASK)
    }

    pub open spec fn spec_is_base_type(&self) -> bool {
        self.spec_bit_size() == 0
    }

    /// The type with the base of `base` and the given bit size. The bit size
    /// must be a single size bit, and `base` must not already carry another.
    pub fn new(base: ALUType, bit_size: u8) -> (r: ALUType)
        requires
            is_power_of_two(bit_size),
            bit_size & NIR_ALU_TYPE_BASE_TYPE_MASK == 0,
            base.spec_is_base_type() || bit_size == 0 || bit_size == base.spec_bit_size(),
        ensures
            r.0 == base.0 | bit_size,
            r.spec_bit_size() == bit_size,
            r.spec_base_type() == base.spec_base_type(),
    {
        let packed: u8 = base.0 | bit_size;
        proof {
            let b: u8 = base.0;
            let s: u8 = bit_size;
            assert((s == 1 || s == 2 || s == 4 || s == 8 || s == 16 || s == 32 || s == 64 || s
                == 128) && s & 0x86 == 0 && (b & 0x79 == 0 || s == b & 0x79) ==> (b | s) & 0x79 == s
                && (b | s) & 0x86 == b & 0x86) by (bit_vector);
        }
        ALUType(packed)
    }

    #[verifier::when_used_as_spec(spec_is_base_type)]
    pub fn is_base_type(&self) -> (r: bool)
        ensures
            r == self.spec_is_base_type(),
    {
        self.bit_size() == 0
    }

    #[verifier::when_used_as_spec(spec_bit_size)]
    pub fn bit_size(&self) -> (r: u8)
        ensures
            r == self.spec_bit_size(),
    {
        self.0 & NIR_ALU_TYPE_SIZE_MASK
    }

    #[verifier::when_used_as_spec(spec_base_type)]
    pub fn base_type(&self) -> (r: ALUType)
        ensures
            r == self.spec_base_type(),
    {
        ALUType(self.0 & NIR_ALU_TYPE_BASE_TYPE_MASK)
    }
}

} // verus!
