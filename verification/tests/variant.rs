//! Rendering byte strings, and reading scalars as integers and booleans.

use opcua_tag_browser::{format_byte_string, variant_as_bool, variant_as_i64, Scalar};

#[test]
fn byte_strings_render_as_lowercase_hex() {
    assert_eq!(format_byte_string(&None), "null");
    assert_eq!(format_byte_string(&Some(vec![])), "0x");
    assert_eq!(format_byte_string(&Some(vec![0x00, 0x0f, 0xa5, 0xff])), "0x000fa5ff");
}

#[test]
fn integral_scalars_read_as_i64_when_they_fit() {
    assert_eq!(variant_as_i64(&Scalar::SByte(-3)), Some(-3));
    assert_eq!(variant_as_i64(&Scalar::Byte(200)), Some(200));
    assert_eq!(variant_as_i64(&Scalar::Int16(-300)), Some(-300));
    assert_eq!(variant_as_i64(&Scalar::UInt16(60000)), Some(60000));
    assert_eq!(variant_as_i64(&Scalar::Int32(-70000)), Some(-70000));
    assert_eq!(variant_as_i64(&Scalar::UInt32(4_000_000_000)), Some(4_000_000_000));
    assert_eq!(variant_as_i64(&Scalar::Int64(i64::MIN)), Some(i64::MIN));
    assert_eq!(variant_as_i64(&Scalar::UInt64(i64::MAX as u64)), Some(i64::MAX));
    assert_eq!(variant_as_i64(&Scalar::UInt64(i64::MAX as u64 + 1)), None);
    assert_eq!(variant_as_i64(&Scalar::Boolean(true)), None);
    assert_eq!(variant_as_i64(&Scalar::Other), None);
}

#[test]
fn only_booleans_read_as_bool() {
    assert_eq!(variant_as_bool(&Scalar::Boolean(true)), Some(true));
    assert_eq!(variant_as_bool(&Scalar::Boolean(false)), Some(false));
    assert_eq!(variant_as_bool(&Scalar::Int32(1)), None);
    assert_eq!(variant_as_bool(&Scalar::Other), None);
}
