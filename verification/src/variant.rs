//! Rendering raw byte strings for display, and reading scalar values as
//! plain integers and booleans.

use vstd::prelude::*;
use crate::text::{owned, string_of_chars};

verus! {

/// The lowercase hexadecimal digit for `n < 16`.
pub open spec fn hex_digit(n: int) -> char {
    if n < 10 {
        (48 + n) as char
    } else {
        (87 + n) as char
    }
}

/// Each byte as two lowercase hexadecimal digits, high nibble first.
pub open spec fn hex_of(bytes: Seq<u8>) -> Seq<char>
    decreases bytes.len(),
{
    if bytes.len() == 0 {
        Seq::empty()
    } else {
        hex_of(bytes.drop_last()) + seq![hex_digit(bytes.last() as int / 16), hex_digit(bytes.last() as int % 16)]
    }
}

/// How a byte string is displayed: `0x` and its bytes in lowercase hex, or
/// `null` for a null byte string.
pub open spec fn byte_string_text(bytes: Option<Seq<u8>>) -> Seq<char> {
    match bytes {
        Some(b) => seq!['0', 'x'] + hex_of(b),
        None => seq!['n', 'u', 'l', 'l'],
    }
}

fn hex_digit_exec(n: u8) -> (c: char)
    requires
        n < 16,
    ensures
        c == hex_digit(n as int),
{
    if n < 10 {
        let code: u8 = 48 + n;
        code as char
    } else {
        let code: u8 = 87 + n;
        code as char
    }
}

/// Renders a byte string as `0x` and lowercase hex, or `null` when absent.
pub fn format_byte_string(bytes: &Option<Vec<u8>>) -> (r: String)
    ensures
        r@ == byte_string_text(match bytes {
            Some(b) => Some(b@),
            None => None,
        }),
{
    proof {
        reveal_strlit("null");
        reveal_strlit("0x");
    }
    match bytes {
        None => {
            let r = owned("null");
            assert(r@ =~= seq!['n', 'u', 'l', 'l']);
            r
        },
        Some(b) => {
            let mut digits: Vec<char> = Vec::new();
            digits.push('0');
            digits.push('x');
            let mut i: usize = 0;
            while i < b.len()
                invariant
                    i <= b.len(),
                    digits@ == seq!['0', 'x'] + hex_of(b@.take(i as int)),
                decreases b.len() - i,
            {
                let byte = b[i];
                digits.push(hex_digit_exec(byte / 16));
                digits.push(hex_digit_exec(byte % 16));
                assert(b@.take(i + 1).drop_last() =~= b@.take(i as int));
                assert(digits@ =~= seq!['0', 'x'] + hex_of(b@.take(i + 1)));
                i += 1;
            }
            assert(b@.take(b.len() as int) =~= b@);
            string_of_chars(&digits)
        },
    }
}

/// A scalar value, as far as reading it as an integer or a boolean goes.
pub enum Scalar {
    /// A boolean.
    Boolean(bool),
    /// A signed byte.
    SByte(i8),
    /// An unsigned byte.
    Byte(u8),
    /// A signed 16-bit integer.
    Int16(i16),
    /// An unsigned 16-bit integer.
    UInt16(u16),
    /// A signed 32-bit integer.
    Int32(i32),
    /// An unsigned 32-bit integer.
    UInt32(u32),
    /// A signed 64-bit integer.
    Int64(i64),
    /// An unsigned 64-bit integer.
    UInt64(u64),
    /// Anything else: floats, text, arrays, structures, nothing.
    Other,
}

/// The integer a scalar holds, when it is integral and fits in an `i64`.
pub open spec fn scalar_integer(v: Scalar) -> Option<int> {
    match v {
        Scalar::SByte(n) => Some(n as int),
        Scalar::Byte(n) => Some(n as int),
        Scalar::Int16(n) => Some(n as int),
        Scalar::UInt16(n) => Some(n as int),
        Scalar::Int32(n) => Some(n as int),
        Scalar::UInt32(n) => Some(n as int),
        Scalar::Int64(n) => Some(n as int),
        Scalar::UInt64(n) => if n <= i64::MAX {
            Some(n as int)
        } else {
            None
        },
        Scalar::Boolean(_) | Scalar::Other => None,
    }
}

/// The value as a signed integer, if it is integral and fits.
pub fn variant_as_i64(v: &Scalar) -> (r: Option<i64>)
    ensures
        match scalar_integer(*v) {
            Some(n) => r matches Some(x) && x as int == n,
            None => r is None,
        },
{
    match v {
        Scalar::SByte(n) => Some(*n as i64),
        Scalar::Byte(n) => Some(*n as i64),
        Scalar::Int16(n) => Some(*n as i64),
        Scalar::UInt16(n) => Some(*n as i64),
        Scalar::Int32(n) => Some(*n as i64),
        Scalar::UInt32(n) => Some(*n as i64),
        Scalar::Int64(n) => Some(*n),
        Scalar::UInt64(n) => if *n <= 0x7fff_ffff_ffff_ffffu64 {
            Some(*n as i64)
        } else {
            None
        },
        Scalar::Boolean(_) | Scalar::Other => None,
    }
}

/// The value as a boolean, if it is one.
pub fn variant_as_bool(v: &Scalar) -> (r: Option<bool>)
    ensures
        r == match *v {
            Scalar::Boolean(b) => Some(b),
            _ => None::<bool>,
        },
{
    match v {
        Scalar::Boolean(b) => Some(*b),
        _ => None,
    }
}

} // verus!
