//! String-to-float API: special values, the sign, and the exact parse of
//! the number into a `Bigfloat` that a native float is rounded from.

use vstd::prelude::*;
use crate::bigfloat::{
    Bigfloat, FloatMaxExponent, float_parse_spec, scale_spec,
};
use crate::limbs::{value, is_normalized};

verus! {

/// The string for a NaN.
pub const NAN_STRING: [u8; 3] = [78, 97, 78];

/// The string for infinity.
pub const INFINITY_STRING: [u8; 3] = [105, 110, 102];

/// What a float string stands for, before rounding to a native float.
pub enum ParsedFloat {
    /// Not a number.
    Nan,
    /// Infinity.
    Infinity,
    /// The literal zero `0.0`.
    Zero,
    /// The exact value `mantissa * 2^exp` of a `Bigfloat`.
    Finite(Bigfloat),
}

/// Whether `s` starts with the three bytes `a b c`.
pub open spec fn starts_with3(s: Seq<u8>, a: u8, b: u8, c: u8) -> bool {
    s.len() >= 3 && s[0] == a && s[1] == b && s[2] == c
}

/// Whether `s` starts with `NaN`.
pub open spec fn is_nan_spec(s: Seq<u8>) -> bool {
    starts_with3(s, 78, 97, 78)
}

/// Whether `s` starts with `inf`.
pub open spec fn is_infinity_spec(s: Seq<u8>) -> bool {
    starts_with3(s, 105, 110, 102)
}

/// Whether `s` is exactly `0.0`.
pub open spec fn is_zero_spec(s: Seq<u8>) -> bool {
    s.len() == 3 && starts_with3(s, 48, 46, 48)
}

/// Whether a parsed float is the `Bigfloat` that `from_bytes` gives for
/// `s` in `base`, for a float format whose maximum binary exponent is `max`.
pub open spec fn is_parsed_finite(p: ParsedFloat, s: Seq<u8>, base: nat, max: int) -> bool {
    match p {
        ParsedFloat::Finite(b) => {
            let f = float_parse_spec(s, 0, base);
            let sc = scale_spec(f.0, f.1, base, max);
            &&& value(b.limbs()) == sc.0
            &&& b.exp_spec() == sc.1
            &&& is_normalized(b.limbs())
        },
        _ => false,
    }
}

/// The position after the parse of a string without its sign.
pub open spec fn parse_end(s: Seq<u8>, base: nat) -> nat {
    if is_nan_spec(s) || is_infinity_spec(s) || is_zero_spec(s) {
        3
    } else {
        float_parse_spec(s, 0, base).2
    }
}

/// The parse of a string without its sign: a special value (`NaN`, `inf`,
/// `0.0`), or the number.
pub open spec fn special_result(p: ParsedFloat, s: Seq<u8>, base: nat, max: int) -> bool {
    if is_nan_spec(s) {
        p is Nan
    } else if is_infinity_spec(s) {
        p is Infinity
    } else if is_zero_spec(s) {
        p is Zero
    } else {
        is_parsed_finite(p, s, base, max)
    }
}

/// The bytes after a leading sign, if any.
pub open spec fn unsigned_part(s: Seq<u8>) -> Seq<u8> {
    if s.len() > 0 && (s[0] == 45u8 || s[0] == 43u8) {
        s.subrange(1, s.len() as int)
    } else {
        s
    }
}

/// The length of a leading sign: 1 or 0.
pub open spec fn sign_len(s: Seq<u8>) -> nat {
    if s.len() > 0 && (s[0] == 45u8 || s[0] == 43u8) {
        1
    } else {
        0
    }
}

/// Whether the first three bytes of `bytes` are `a b c`.
fn starts_with(bytes: &[u8], a: u8, b: u8, c: u8) -> (r: bool)
    ensures
        r == starts_with3(bytes@, a, b, c),
{
    bytes.len() >= 3 && bytes[0] == a && bytes[1] == b && bytes[2] == c
}

/// Convert a string to a float and handle special floating-point strings.
///
/// Returns the parse and the number of bytes it took.
pub fn filter_special<F: FloatMaxExponent>(base: u32, bytes: &[u8]) -> (r: (ParsedFloat, usize))
    requires
        2 <= base <= 36,
        bytes@.len() <= 0x200_0000,
    ensures
        special_result(r.0, bytes@, base as nat, F::max_binary_exponent_spec()),
        r.1 == parse_end(bytes@, base as nat),
        r.1 <= bytes@.len(),
        is_nan_spec(bytes@) ==> r.0 is Nan && r.1 == 3,
        is_infinity_spec(bytes@) ==> r.0 is Infinity && r.1 == 3,
        is_zero_spec(bytes@) ==> r.0 is Zero && r.1 == 3,
{
    proof {
        crate::bigfloat::lemma_float_parse_end(bytes@, 0, base as nat);
    }
    if starts_with(bytes, NAN_STRING[0], NAN_STRING[1], NAN_STRING[2]) {
        (ParsedFloat::Nan, 3)
    } else if starts_with(bytes, INFINITY_STRING[0], INFINITY_STRING[1], INFINITY_STRING[2]) {
        (ParsedFloat::Infinity, 3)
    } else if bytes.len() == 3 && starts_with(bytes, 48, 46, 48) {
        (ParsedFloat::Zero, 3)
    } else {
        let (bigfloat, end) = Bigfloat::from_bytes::<F>(base, bytes);
        (ParsedFloat::Finite(bigfloat), end)
    }
}

/// The parse of a whole string: `None` for an empty one, else whether it
/// is negative, the unsigned parse after a leading `+` or `-`, and the
/// position after it.
pub open spec fn sign_result(
    r: (bool, ParsedFloat, Option<usize>),
    s: Seq<u8>,
    base: nat,
    max: int,
) -> bool {
    if s.len() == 0 {
        r.2 is None && !r.0 && r.1 is Zero
    } else {
        &&& r.0 == (s[0] == 45u8)
        &&& sign_len(s) + parse_end(unsigned_part(s), base) <= s.len()
        &&& r.2 == Some((sign_len(s) + parse_end(unsigned_part(s), base)) as usize)
        &&& special_result(r.1, unsigned_part(s), base, max)
    }
}

/// Handle `+`/`-` values and empty buffers.
///
/// Returns whether the value is negative, the parse of the value, and the
/// position after it (`None` for an empty buffer, which parses as zero).
pub fn filter_sign<F: FloatMaxExponent>(base: u32, bytes: &[u8]) -> (r: (
    bool,
    ParsedFloat,
    Option<usize>,
))
    requires
        2 <= base <= 36,
        bytes@.len() <= 0x200_0000,
    ensures
        sign_result(r, bytes@, base as nat, F::max_binary_exponent_spec()),
{
    if bytes.len() == 0 {
        (false, ParsedFloat::Zero, None)
    } else if bytes[0] == 45 {
        let (_, rest) = bytes.split_at(1);
        let (value, p) = filter_special::<F>(base, rest);
        (true, value, Some(p + 1))
    } else if bytes[0] == 43 {
        let (_, rest) = bytes.split_at(1);
        let (value, p) = filter_special::<F>(base, rest);
        (false, value, Some(p + 1))
    } else {
        let (value, p) = filter_special::<F>(base, bytes);
        (false, value, Some(p))
    }
}

/// Iteratively filter simple cases and then invoke the parser.
pub fn atof<F: FloatMaxExponent>(base: u32, bytes: &[u8]) -> (r: (
    bool,
    ParsedFloat,
    Option<usize>,
))
    requires
        2 <= base <= 36,
        bytes@.len() <= 0x200_0000,
    ensures
        sign_result(r, bytes@, base as nat, F::max_binary_exponent_spec()),
        bytes@.len() > 0 && is_nan_spec(unsigned_part(bytes@)) ==> r.1 is Nan && r.2 == Some(
            (sign_len(bytes@) + 3) as usize,
        ),
        bytes@.len() > 0 && is_infinity_spec(unsigned_part(bytes@)) ==> r.1 is Infinity && r.2
            == Some((sign_len(bytes@) + 3) as usize),
{
    filter_sign::<F>(base, bytes)
}

/// Parse a whole string: the sign and the parse when every byte was
/// taken, else the index of the first byte that was not (`0` for an
/// empty string).
pub fn try_atof<F: FloatMaxExponent>(base: u32, bytes: &[u8]) -> (r: Result<
    (bool, ParsedFloat),
    usize,
>)
    requires
        2 <= base <= 36,
        bytes@.len() <= 0x200_0000,
    ensures
        bytes@.len() == 0 ==> r == Err::<(bool, ParsedFloat), usize>(0),
        bytes@.len() > 0 ==> ({
            let end = sign_len(bytes@) + parse_end(unsigned_part(bytes@), base as nat);
            match r {
                Ok((neg, p)) => {
                    &&& end == bytes@.len()
                    &&& neg == (bytes@[0] == 45u8)
                    &&& special_result(
                        p,
                        unsigned_part(bytes@),
                        base as nat,
                        F::max_binary_exponent_spec(),
                    )
                },
                Err(i) => end != bytes@.len() && i == end,
            }
        }),
        bytes@.len() == sign_len(bytes@) + 3 && is_nan_spec(unsigned_part(bytes@)) ==> (match r {
            Ok((neg, p)) => p is Nan && neg == (bytes@[0] == 45u8),
            Err(_) => false,
        }),
        bytes@.len() == sign_len(bytes@) + 3 && is_infinity_spec(unsigned_part(bytes@)) ==> (
        match r {
            Ok((neg, p)) => p is Infinity && neg == (bytes@[0] == 45u8),
            Err(_) => false,
        }),
{
    let (negative, value, p) = atof::<F>(base, bytes);
    match p {
        None => Err(0),
        Some(end) => {
            if end == bytes.len() {
                Ok((negative, value))
            } else {
                Err(end)
            }
        },
    }
}

} // verus!
