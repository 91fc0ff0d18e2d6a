use nir::const_value::nir_const_value;

#[test]
fn unsigned_reads_keep_the_low_bits() {
    let v = nir_const_value { bits: 0x1234_5678_9abc_def0 };
    assert_eq!(v.u8_(), 0xf0);
    assert_eq!(v.u16_(), 0xdef0);
    assert_eq!(v.u32_(), 0x9abc_def0);
    assert_eq!(v.u64_(), 0x1234_5678_9abc_def0);
}

#[test]
fn signed_reads_extend_the_sign_bit() {
    let v = nir_const_value { bits: 0x1234_5678_9abc_def0 };
    assert_eq!(v.i8_(), -16);
    assert_eq!(v.i16_(), -8464);
    assert_eq!(v.i32_(), -1698898192);
    assert_eq!(v.i64_(), 0x1234_5678_9abc_def0);
}

#[test]
fn signed_reads_at_the_edges() {
    assert_eq!(nir_const_value { bits: 0x7f }.i8_(), 127);
    assert_eq!(nir_const_value { bits: 0x80 }.i8_(), -128);
    assert_eq!(nir_const_value { bits: 0xff }.i8_(), -1);
    assert_eq!(nir_const_value { bits: 0x100 }.i8_(), 0);
    assert_eq!(nir_const_value { bits: 0x7fff }.i16_(), 32767);
    assert_eq!(nir_const_value { bits: 0x8000 }.i16_(), -32768);
    assert_eq!(nir_const_value { bits: 0x7fff_ffff }.i32_(), i32::MAX);
    assert_eq!(nir_const_value { bits: 0x8000_0000 }.i32_(), i32::MIN);
    assert_eq!(nir_const_value { bits: u64::MAX }.i64_(), -1);
    assert_eq!(nir_const_value { bits: 0x8000_0000_0000_0000 }.i64_(), i64::MIN);
    assert_eq!(nir_const_value { bits: 0x7fff_ffff_ffff_ffff }.i64_(), i64::MAX);
}

#[test]
fn zero_reads_as_zero_at_every_width() {
    let v = nir_const_value { bits: 0 };
    assert_eq!(v.u8_(), 0);
    assert_eq!(v.u16_(), 0);
    assert_eq!(v.u32_(), 0);
    assert_eq!(v.u64_(), 0);
    assert_eq!(v.i8_(), 0);
    assert_eq!(v.i16_(), 0);
    assert_eq!(v.i32_(), 0);
    assert_eq!(v.i64_(), 0);
}
