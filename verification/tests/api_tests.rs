use lexical_core::api::{atof, try_atof, ParsedFloat};
use lexical_core::bigfloat::{Binary32, Binary64, Bigfloat};

/// Round `mant * 2^exp` to the nearest float with `mantissa_size` explicit
/// bits and the given bias, ties to even; `truncated` makes halfway round up.
fn round_to_bits(mant: u64, exp: i32, truncated: bool, mantissa_size: u32, bias: i32, exp_bits: u32) -> u64 {
    if mant == 0 {
        return 0;
    }
    let bits = mantissa_size + 1;
    let denormal_exp = -(bias - 1 + mantissa_size as i32) as i64;
    let mut shift: i64 = 64 - bits as i64;
    let mut e: i64 = exp as i64 + shift;
    if e < denormal_exp {
        shift += denormal_exp - e;
        e = denormal_exp;
    }
    if shift > 64 {
        return 0;
    }
    let (mut m, lower, halfway) = if shift == 64 {
        (0u64, mant, 1u64 << 63)
    } else {
        (mant >> shift, mant & ((1u64 << shift) - 1), 1u64 << (shift - 1))
    };
    if lower > halfway || (lower == halfway && (truncated || m & 1 == 1)) {
        m += 1;
        if m == 1u64 << bits {
            m >>= 1;
            e += 1;
        }
    }
    let hidden = 1u64 << mantissa_size;
    if m < hidden {
        return m;
    }
    let biased = e + mantissa_size as i64 + bias as i64;
    let max_biased = (1i64 << exp_bits) - 1;
    if biased >= max_biased {
        return (max_biased as u64) << mantissa_size;
    }
    ((biased as u64) << mantissa_size) | (m & (hidden - 1))
}

/// The f64 a Bigfloat rounds to.
fn bigfloat_to_f64(b: &Bigfloat) -> f64 {
    let (mant, truncated) = b.mantissa();
    f64::from_bits(round_to_bits(mant, b.exponent(), truncated, 52, 1023, 11))
}

/// The f32 a Bigfloat rounds to.
fn bigfloat_to_f32(b: &Bigfloat) -> f32 {
    let (mant, truncated) = b.mantissa();
    f32::from_bits(round_to_bits(mant, b.exponent(), truncated, 23, 127, 8) as u32)
}

fn parsed_to_f64(negative: bool, p: &ParsedFloat) -> f64 {
    let v = match p {
        ParsedFloat::Nan => f64::NAN,
        ParsedFloat::Infinity => f64::INFINITY,
        ParsedFloat::Zero => 0.0,
        ParsedFloat::Finite(b) => bigfloat_to_f64(b),
    };
    if negative { -v } else { v }
}

fn parsed_to_f32(negative: bool, p: &ParsedFloat) -> f32 {
    let v = match p {
        ParsedFloat::Nan => f32::NAN,
        ParsedFloat::Infinity => f32::INFINITY,
        ParsedFloat::Zero => 0.0,
        ParsedFloat::Finite(b) => bigfloat_to_f32(b),
    };
    if negative { -v } else { v }
}

fn atof32_bytes(bytes: &[u8], base: u32) -> f32 {
    let (negative, p, _) = atof::<Binary32>(base, bytes);
    parsed_to_f32(negative, &p)
}

fn atof64_bytes(bytes: &[u8], base: u32) -> f64 {
    let (negative, p, _) = atof::<Binary64>(base, bytes);
    parsed_to_f64(negative, &p)
}

fn try_atof32_bytes(bytes: &[u8], base: u32) -> Result<f32, usize> {
    match try_atof::<Binary32>(base, bytes) {
        Ok((negative, p)) => Ok(parsed_to_f32(negative, &p)),
        Err(i) => Err(i),
    }
}

fn try_atof64_bytes(bytes: &[u8], base: u32) -> Result<f64, usize> {
    match try_atof::<Binary64>(base, bytes) {
        Ok((negative, p)) => Ok(parsed_to_f64(negative, &p)),
        Err(i) => Err(i),
    }
}

/// Equal within an absolute `epsilon`, or within `max_relative` of the
/// larger magnitude.
fn approx64(a: f64, b: f64, epsilon: f64, max_relative: f64) -> bool {
    a == b || (a - b).abs() <= epsilon || (a - b).abs() <= max_relative * a.abs().max(b.abs())
}

fn approx32(a: f32, b: f32, epsilon: f32, max_relative: f32) -> bool {
    a == b || (a - b).abs() <= epsilon || (a - b).abs() <= max_relative * a.abs().max(b.abs())
}

fn relative_eq32(a: f32, b: f32) -> bool {
    (a - b).abs() <= f32::EPSILON * a.abs().max(b.abs())
}

fn relative_eq64(a: f64, b: f64) -> bool {
    (a - b).abs() <= f64::EPSILON * a.abs().max(b.abs())
}

#[test]
fn atof_atof32_basen_test() {
    assert!(relative_eq32(1234.0, atof32_bytes(b"YA", 36)));
}

#[test]
fn atof_atof64_basen_test() {
    assert!(relative_eq64(1234.0, atof64_bytes(b"YA", 36)));
}

#[test]
fn atof_try_atof32_base10_test() {
    assert_eq!(Err(0), try_atof32_bytes(b"", 10));
    assert_eq!(Ok(0.0), try_atof32_bytes(b"0.0", 10));
    assert_eq!(Err(1), try_atof32_bytes(b"1a", 10));
}

#[test]
fn atof_try_atof64_base10_test() {
    assert_eq!(Err(0), try_atof64_bytes(b"", 10));
    assert_eq!(Ok(0.0), try_atof64_bytes(b"0.0", 10));
    assert_eq!(Err(1), try_atof64_bytes(b"1a", 10));
}

#[test]
fn api_atof32_basen_test() {
    assert!(relative_eq32(1234.0, atof32_bytes(b"YA", 36)));
}

#[test]
fn api_atof64_basen_test() {
    assert!(relative_eq64(1234.0, atof64_bytes(b"YA", 36)));
}

#[test]
fn api_special_values_test() {
    assert!(atof64_bytes(b"NaN", 10).is_nan());
    assert!(atof64_bytes(b"inf", 10).is_infinite());
    assert!(atof64_bytes(b"+inf", 10).is_infinite());
    assert!(atof64_bytes(b"-inf", 10) < 0.0);
    assert_eq!(try_atof64_bytes(b"-0.0", 10), Ok(-0.0));
    let (negative, p, end) = atof::<Binary64>(10, b"-12.5e1x");
    assert!(negative);
    assert_eq!(end, Some(7));
    assert!(relative_eq64(-125.0, parsed_to_f64(negative, &p)));
    assert_eq!(try_atof64_bytes(b"+12.5e1x", 10), Err(7));
}

#[test]
fn api_base10_values_test() {
    assert!(relative_eq64(12345.0, atof64_bytes(b"12345", 10)));
    assert!(relative_eq64(123.123, atof64_bytes(b"123.123", 10)));
    assert!(relative_eq64(1.2345e+38, atof64_bytes(b"1.2345e+38", 10)));
    assert!(relative_eq64(1.2345e-8, atof64_bytes(b"0.000000012345", 10)));
    assert!(relative_eq64(1.2345e-38, atof64_bytes(b"1.2345e-38", 10)));
}

#[test]
fn api_try_atof32_base10_test() {
    assert_eq!(Err(0), try_atof32_bytes(b"", 10));
    assert_eq!(Ok(0.0), try_atof32_bytes(b"0.0", 10));
    assert_eq!(Err(1), try_atof32_bytes(b"1a", 10));
}

#[test]
fn api_try_atof64_base10_test() {
    assert_eq!(Err(0), try_atof64_bytes(b"", 10));
    assert_eq!(Ok(0.0), try_atof64_bytes(b"0.0", 10));
    assert_eq!(Err(1), try_atof64_bytes(b"1a", 10));
}

#[test]
fn atof_atof32_base10_test() {
    // integer test
    assert!(approx32(0.0, atof32_bytes(b"0", 10), 1e-20, f32::EPSILON));
    assert!(approx32(1.0, atof32_bytes(b"1", 10), 1e-20, f32::EPSILON));
    assert!(approx32(12.0, atof32_bytes(b"12", 10), 1e-20, f32::EPSILON));
    assert!(approx32(123.0, atof32_bytes(b"123", 10), 1e-20, f32::EPSILON));
    assert!(approx32(1234.0, atof32_bytes(b"1234", 10), 1e-20, f32::EPSILON));
    assert!(approx32(12345.0, atof32_bytes(b"12345", 10), 1e-20, f32::EPSILON));
    assert!(approx32(123456.0, atof32_bytes(b"123456", 10), 1e-20, f32::EPSILON));
    assert!(approx32(1234567.0, atof32_bytes(b"1234567", 10), 1e-20, f32::EPSILON));
    assert!(approx32(12345678.0, atof32_bytes(b"12345678", 10), 1e-20, f32::EPSILON));

    // decimal test
    assert!(approx32(123.1, atof32_bytes(b"123.1", 10), 1e-20, f32::EPSILON));
    assert!(approx32(123.12, atof32_bytes(b"123.12", 10), 1e-20, f32::EPSILON));
    assert!(approx32(123.123, atof32_bytes(b"123.123", 10), 1e-20, f32::EPSILON));
    assert!(approx32(123.1234, atof32_bytes(b"123.1234", 10), 1e-20, f32::EPSILON));
    assert!(approx32(123.12345, atof32_bytes(b"123.12345", 10), 1e-20, f32::EPSILON));

    // rounding test
    assert!(approx32(123456790.0, atof32_bytes(b"123456789", 10), 1e-20, f32::EPSILON));
    assert!(approx32(123456790.0, atof32_bytes(b"123456789.1", 10), 1e-20, f32::EPSILON));
    assert!(approx32(123456790.0, atof32_bytes(b"123456789.12", 10), 1e-20, f32::EPSILON));
    assert!(approx32(123456790.0, atof32_bytes(b"123456789.123", 10), 1e-20, f32::EPSILON));
    assert!(approx32(123456790.0, atof32_bytes(b"123456789.1234", 10), 1e-20, f32::EPSILON));
    assert!(approx32(123456790.0, atof32_bytes(b"123456789.12345", 10), 1e-20, f32::EPSILON));

    // exponent test
    assert!(approx32(123456789.12345, atof32_bytes(b"1.2345678912345e8", 10), 1e-20, f32::EPSILON));
    assert!(approx32(123450000.0, atof32_bytes(b"1.2345e+8", 10), 1e-20, f32::EPSILON));
    assert!(approx32(1.2345e+11, atof32_bytes(b"1.2345e+11", 10), 1e-20, f32::EPSILON));
    assert!(approx32(1.2345e+11, atof32_bytes(b"123450000000", 10), 1e-20, f32::EPSILON));
    assert!(approx32(1.2345e+38, atof32_bytes(b"1.2345e+38", 10), 1e-20, f32::EPSILON));
    assert!(approx32(1.2345e+38, atof32_bytes(b"123450000000000000000000000000000000000", 10), 1e-20, f32::EPSILON));
    assert!(approx32(1.2345e-8, atof32_bytes(b"1.2345e-8", 10), 1e-20, f32::EPSILON));
    assert!(approx32(1.2345e-8, atof32_bytes(b"0.000000012345", 10), 1e-20, f32::EPSILON));
    assert!(approx32(1.2345e-38, atof32_bytes(b"1.2345e-38", 10), 1e-20, f32::EPSILON));
    assert!(approx32(1.2345e-38, atof32_bytes(b"0.000000000000000000000000000000000000012345", 10), 1e-20, f32::EPSILON));

        assert!(atof32_bytes(b"NaN", 10).is_nan());
    assert!(atof32_bytes(b"inf", 10).is_infinite());
    assert!(atof32_bytes(b"+inf", 10).is_infinite());
    assert!(atof32_bytes(b"-inf", 10).is_infinite());
}
#[test]
fn atof_atof64_base10_test() {
    // integer test
    assert!(approx64(0.0, atof64_bytes(b"0", 10), 1e-20, f64::EPSILON));
    assert!(approx64(1.0, atof64_bytes(b"1", 10), 1e-20, f64::EPSILON));
    assert!(approx64(12.0, atof64_bytes(b"12", 10), 1e-20, f64::EPSILON));
    assert!(approx64(123.0, atof64_bytes(b"123", 10), 1e-20, f64::EPSILON));
    assert!(approx64(1234.0, atof64_bytes(b"1234", 10), 1e-20, f64::EPSILON));
    assert!(approx64(12345.0, atof64_bytes(b"12345", 10), 1e-20, f64::EPSILON));
    assert!(approx64(123456.0, atof64_bytes(b"123456", 10), 1e-20, f64::EPSILON));
    assert!(approx64(1234567.0, atof64_bytes(b"1234567", 10), 1e-20, f64::EPSILON));
    assert!(approx64(12345678.0, atof64_bytes(b"12345678", 10), 1e-20, f64::EPSILON));

    // decimal test
    assert!(approx64(123456789.0, atof64_bytes(b"123456789", 10), 1e-20, f64::EPSILON));
    assert!(approx64(123456789.1, atof64_bytes(b"123456789.1", 10), 1e-20, f64::EPSILON));
    assert!(approx64(123456789.12, atof64_bytes(b"123456789.12", 10), 1e-20, f64::EPSILON));
    assert!(approx64(123456789.123, atof64_bytes(b"123456789.123", 10), 1e-20, f64::EPSILON));
    assert!(approx64(123456789.1234, atof64_bytes(b"123456789.1234", 10), 1e-20, f64::EPSILON));
    assert!(approx64(123456789.12345, atof64_bytes(b"123456789.12345", 10), 1e-20, f64::EPSILON));
    assert!(approx64(123456789.123456, atof64_bytes(b"123456789.123456", 10), 1e-20, f64::EPSILON));
    assert!(approx64(123456789.1234567, atof64_bytes(b"123456789.1234567", 10), 1e-20, f64::EPSILON));
    assert!(approx64(123456789.12345678, atof64_bytes(b"123456789.12345678", 10), 1e-20, f64::EPSILON));

    // rounding test
    assert!(approx64(123456789.12345679, atof64_bytes(b"123456789.123456789", 10), 1e-20, f64::EPSILON));
    assert!(approx64(123456789.12345679, atof64_bytes(b"123456789.1234567890", 10), 1e-20, f64::EPSILON));
    assert!(approx64(123456789.12345679, atof64_bytes(b"123456789.123456789012", 10), 1e-20, f64::EPSILON));
    assert!(approx64(123456789.12345679, atof64_bytes(b"123456789.1234567890123", 10), 1e-20, f64::EPSILON));
    assert!(approx64(123456789.12345679, atof64_bytes(b"123456789.12345678901234", 10), 1e-20, f64::EPSILON));

    // exponent test
    assert!(approx64(123456789.12345, atof64_bytes(b"1.2345678912345e8", 10), 1e-20, f64::EPSILON));
    assert!(approx64(123450000.0, atof64_bytes(b"1.2345e+8", 10), 1e-20, f64::EPSILON));
    assert!(approx64(1.2345e+11, atof64_bytes(b"123450000000", 10), 1e-20, f64::EPSILON));
    assert!(approx64(1.2345e+11, atof64_bytes(b"1.2345e+11", 10), 1e-20, f64::EPSILON));
    assert!(approx64(1.2345e+38, atof64_bytes(b"1.2345e+38", 10), 1e-20, f64::EPSILON));
    assert!(approx64(1.2345e+38, atof64_bytes(b"123450000000000000000000000000000000000", 10), 1e-20, f64::EPSILON));
    assert!(approx64(1.2345e+308, atof64_bytes(b"1.2345e+308", 10), 0.0, 1e-12));
    assert!(approx64(1.2345e+308, atof64_bytes(b"123450000000000000000000000000000000000000000000000000000000000000000000000000000000000000000000000000000000000000000000000000000000000000000000000000000000000000000000000000000000000000000000000000000000000000000000000000000000000000000000000000000000000000000000000000000000000000000000000000000000000000000", 10), 0.0, 1e-12));
    assert!(approx64(0.000000012345, atof64_bytes(b"1.2345e-8", 10), 1e-20, f64::EPSILON));
    assert!(approx64(1.2345e-8, atof64_bytes(b"0.000000012345", 10), 1e-20, f64::EPSILON));
    assert!(approx64(1.2345e-38, atof64_bytes(b"1.2345e-38", 10), 1e-20, f64::EPSILON));
    assert!(approx64(1.2345e-38, atof64_bytes(b"0.000000000000000000000000000000000000012345", 10), 1e-20, f64::EPSILON));

    // denormalized (try extremely low values)
    assert!(approx64(1.2345e-308, atof64_bytes(b"1.2345e-308", 10), 1e-20, f64::EPSILON));
    assert_eq!(5e-322, atof64_bytes(b"5e-322", 10));
    assert_eq!(5e-323, atof64_bytes(b"5e-323", 10));
    assert_eq!(5e-324, atof64_bytes(b"5e-324", 10));
    // due to issues in how the data is parsed, manually extracting
    // non-exponents of 1.<e-299 is prone to error
    // test the limit of our ability
    // We tend to get relative errors of 1e-16, even at super low values.
    assert!(approx64(1.2345e-299, atof64_bytes(b"0.000000000000000000000000000000000000000000000000000000000000000000000000000000000000000000000000000000000000000000000000000000000000000000000000000000000000000000000000000000000000000000000000000000000000000000000000000000000000000000000000000000000000000000000000000000000000000000000000000000000012345", 10), 1e-314, f64::EPSILON));

    // Keep pushing from -300 to -324
    assert!(approx64(1.2345e-300, atof64_bytes(b"0.0000000000000000000000000000000000000000000000000000000000000000000000000000000000000000000000000000000000000000000000000000000000000000000000000000000000000000000000000000000000000000000000000000000000000000000000000000000000000000000000000000000000000000000000000000000000000000000000000000000000012345", 10), 1e-315, f64::EPSILON));
    assert!(approx64(1.2345e-310, atof64_bytes(b"0.00000000000000000000000000000000000000000000000000000000000000000000000000000000000000000000000000000000000000000000000000000000000000000000000000000000000000000000000000000000000000000000000000000000000000000000000000000000000000000000000000000000000000000000000000000000000000000000000000000000000000000000012345", 10), 5e-324, f64::EPSILON));
    assert!(approx64(1.2345e-320, atof64_bytes(b"0.000000000000000000000000000000000000000000000000000000000000000000000000000000000000000000000000000000000000000000000000000000000000000000000000000000000000000000000000000000000000000000000000000000000000000000000000000000000000000000000000000000000000000000000000000000000000000000000000000000000000000000000000000000012345", 10), 5e-324, f64::EPSILON));
    assert!(approx64(1.2345e-321, atof64_bytes(b"0.0000000000000000000000000000000000000000000000000000000000000000000000000000000000000000000000000000000000000000000000000000000000000000000000000000000000000000000000000000000000000000000000000000000000000000000000000000000000000000000000000000000000000000000000000000000000000000000000000000000000000000000000000000000012345", 10), 5e-324, f64::EPSILON));
    assert!(approx64(1.24e-322, atof64_bytes(b"0.000000000000000000000000000000000000000000000000000000000000000000000000000000000000000000000000000000000000000000000000000000000000000000000000000000000000000000000000000000000000000000000000000000000000000000000000000000000000000000000000000000000000000000000000000000000000000000000000000000000000000000000000000000000124", 10), 5e-324, f64::EPSILON));
    assert_eq!(1e-323, atof64_bytes(b"0.00000000000000000000000000000000000000000000000000000000000000000000000000000000000000000000000000000000000000000000000000000000000000000000000000000000000000000000000000000000000000000000000000000000000000000000000000000000000000000000000000000000000000000000000000000000000000000000000000000000000000000000000000000000001", 10));
    assert_eq!(5e-324, atof64_bytes(b"0.000000000000000000000000000000000000000000000000000000000000000000000000000000000000000000000000000000000000000000000000000000000000000000000000000000000000000000000000000000000000000000000000000000000000000000000000000000000000000000000000000000000000000000000000000000000000000000000000000000000000000000000000000000000005", 10));

        assert!(atof64_bytes(b"NaN", 10).is_nan());
    assert!(atof64_bytes(b"inf", 10).is_infinite());
    assert!(atof64_bytes(b"+inf", 10).is_infinite());
    assert!(atof64_bytes(b"-inf", 10).is_infinite());
}
#[test]
fn api_atof32_base10_test() {
    // integer test
    assert!(approx32(0.0, atof32_bytes(b"0", 10), 1e-20, f32::EPSILON));
    assert!(approx32(1.0, atof32_bytes(b"1", 10), 1e-20, f32::EPSILON));
    assert!(approx32(12.0, atof32_bytes(b"12", 10), 1e-20, f32::EPSILON));
    assert!(approx32(123.0, atof32_bytes(b"123", 10), 1e-20, f32::EPSILON));
    assert!(approx32(1234.0, atof32_bytes(b"1234", 10), 1e-20, f32::EPSILON));
    assert!(approx32(12345.0, atof32_bytes(b"12345", 10), 1e-20, f32::EPSILON));
    assert!(approx32(123456.0, atof32_bytes(b"123456", 10), 1e-20, f32::EPSILON));
    assert!(approx32(1234567.0, atof32_bytes(b"1234567", 10), 1e-20, f32::EPSILON));
    assert!(approx32(12345678.0, atof32_bytes(b"12345678", 10), 1e-20, f32::EPSILON));

    // decimal test
    assert!(approx32(123.1, atof32_bytes(b"123.1", 10), 1e-20, f32::EPSILON));
    assert!(approx32(123.12, atof32_bytes(b"123.12", 10), 1e-20, f32::EPSILON));
    assert!(approx32(123.123, atof32_bytes(b"123.123", 10), 1e-20, f32::EPSILON));
    assert!(approx32(123.1234, atof32_bytes(b"123.1234", 10), 1e-20, f32::EPSILON));
    assert!(approx32(123.12345, atof32_bytes(b"123.12345", 10), 1e-20, f32::EPSILON));

    // rounding test
    assert!(approx32(123456790.0, atof32_bytes(b"123456789", 10), 1e-20, f32::EPSILON));
    assert!(approx32(123456790.0, atof32_bytes(b"123456789.1", 10), 1e-20, f32::EPSILON));
    assert!(approx32(123456790.0, atof32_bytes(b"123456789.12", 10), 1e-20, f32::EPSILON));
    assert!(approx32(123456790.0, atof32_bytes(b"123456789.123", 10), 1e-20, f32::EPSILON));
    assert!(approx32(123456790.0, atof32_bytes(b"123456789.1234", 10), 1e-20, f32::EPSILON));
    assert!(approx32(123456790.0, atof32_bytes(b"123456789.12345", 10), 1e-20, f32::EPSILON));

    // exponent test
    assert!(approx32(123456789.12345, atof32_bytes(b"1.2345678912345e8", 10), 1e-20, f32::EPSILON));
    assert!(approx32(123450000.0, atof32_bytes(b"1.2345e+8", 10), 1e-20, f32::EPSILON));
    assert!(approx32(1.2345e+11, atof32_bytes(b"1.2345e+11", 10), 1e-20, f32::EPSILON));
    assert!(approx32(1.2345e+11, atof32_bytes(b"123450000000", 10), 1e-20, f32::EPSILON));
    assert!(approx32(1.2345e+38, atof32_bytes(b"1.2345e+38", 10), 1e-20, f32::EPSILON));
    assert!(approx32(1.2345e+38, atof32_bytes(b"123450000000000000000000000000000000000", 10), 1e-20, f32::EPSILON));
    assert!(approx32(1.2345e-8, atof32_bytes(b"1.2345e-8", 10), 1e-20, f32::EPSILON));
    assert!(approx32(1.2345e-8, atof32_bytes(b"0.000000012345", 10), 1e-20, f32::EPSILON));
    assert!(approx32(1.2345e-38, atof32_bytes(b"1.2345e-38", 10), 1e-20, f32::EPSILON));
    assert!(approx32(1.2345e-38, atof32_bytes(b"0.000000000000000000000000000000000000012345", 10), 1e-20, f32::EPSILON));

        assert!(atof32_bytes(b"NaN", 10).is_nan());
    assert!(atof32_bytes(b"inf", 10).is_infinite());
    assert!(atof32_bytes(b"+inf", 10).is_infinite());
    assert!(atof32_bytes(b"-inf", 10).is_infinite());
}
#[test]
fn api_atof64_base10_test() {
    // integer test
    assert!(approx64(0.0, atof64_bytes(b"0", 10), 1e-20, f64::EPSILON));
    assert!(approx64(1.0, atof64_bytes(b"1", 10), 1e-20, f64::EPSILON));
    assert!(approx64(12.0, atof64_bytes(b"12", 10), 1e-20, f64::EPSILON));
    assert!(approx64(123.0, atof64_bytes(b"123", 10), 1e-20, f64::EPSILON));
    assert!(approx64(1234.0, atof64_bytes(b"1234", 10), 1e-20, f64::EPSILON));
    assert!(approx64(12345.0, atof64_bytes(b"12345", 10), 1e-20, f64::EPSILON));
    assert!(approx64(123456.0, atof64_bytes(b"123456", 10), 1e-20, f64::EPSILON));
    assert!(approx64(1234567.0, atof64_bytes(b"1234567", 10), 1e-20, f64::EPSILON));
    assert!(approx64(12345678.0, atof64_bytes(b"12345678", 10), 1e-20, f64::EPSILON));

    // decimal test
    assert!(approx64(123456789.0, atof64_bytes(b"123456789", 10), 1e-20, f64::EPSILON));
    assert!(approx64(123456789.1, atof64_bytes(b"123456789.1", 10), 1e-20, f64::EPSILON));
    assert!(approx64(123456789.12, atof64_bytes(b"123456789.12", 10), 1e-20, f64::EPSILON));
    assert!(approx64(123456789.123, atof64_bytes(b"123456789.123", 10), 1e-20, f64::EPSILON));
    assert!(approx64(123456789.1234, atof64_bytes(b"123456789.1234", 10), 1e-20, f64::EPSILON));
    assert!(approx64(123456789.12345, atof64_bytes(b"123456789.12345", 10), 1e-20, f64::EPSILON));
    assert!(approx64(123456789.123456, atof64_bytes(b"123456789.123456", 10), 1e-20, f64::EPSILON));
    assert!(approx64(123456789.1234567, atof64_bytes(b"123456789.1234567", 10), 1e-20, f64::EPSILON));
    assert!(approx64(123456789.12345678, atof64_bytes(b"123456789.12345678", 10), 1e-20, f64::EPSILON));

    // rounding test
    assert!(approx64(123456789.12345679, atof64_bytes(b"123456789.123456789", 10), 1e-20, f64::EPSILON));
    assert!(approx64(123456789.12345679, atof64_bytes(b"123456789.1234567890", 10), 1e-20, f64::EPSILON));
    assert!(approx64(123456789.12345679, atof64_bytes(b"123456789.123456789012", 10), 1e-20, f64::EPSILON));
    assert!(approx64(123456789.12345679, atof64_bytes(b"123456789.1234567890123", 10), 1e-20, f64::EPSILON));
    assert!(approx64(123456789.12345679, atof64_bytes(b"123456789.12345678901234", 10), 1e-20, f64::EPSILON));

    // exponent test
    assert!(approx64(123456789.12345, atof64_bytes(b"1.2345678912345e8", 10), 1e-20, f64::EPSILON));
    assert!(approx64(123450000.0, atof64_bytes(b"1.2345e+8", 10), 1e-20, f64::EPSILON));
    assert!(approx64(1.2345e+11, atof64_bytes(b"123450000000", 10), 1e-20, f64::EPSILON));
    assert!(approx64(1.2345e+11, atof64_bytes(b"1.2345e+11", 10), 1e-20, f64::EPSILON));
    assert!(approx64(1.2345e+38, atof64_bytes(b"1.2345e+38", 10), 1e-20, f64::EPSILON));
    assert!(approx64(1.2345e+38, atof64_bytes(b"123450000000000000000000000000000000000", 10), 1e-20, f64::EPSILON));
    assert!(approx64(1.2345e+308, atof64_bytes(b"1.2345e+308", 10), 0.0, 1e-12));
    assert!(approx64(1.2345e+308, atof64_bytes(b"123450000000000000000000000000000000000000000000000000000000000000000000000000000000000000000000000000000000000000000000000000000000000000000000000000000000000000000000000000000000000000000000000000000000000000000000000000000000000000000000000000000000000000000000000000000000000000000000000000000000000000000", 10), 0.0, 1e-12));
    assert!(approx64(0.000000012345, atof64_bytes(b"1.2345e-8", 10), 1e-20, f64::EPSILON));
    assert!(approx64(1.2345e-8, atof64_bytes(b"0.000000012345", 10), 1e-20, f64::EPSILON));
    assert!(approx64(1.2345e-38, atof64_bytes(b"1.2345e-38", 10), 1e-20, f64::EPSILON));
    assert!(approx64(1.2345e-38, atof64_bytes(b"0.000000000000000000000000000000000000012345", 10), 1e-20, f64::EPSILON));

    // denormalized (try extremely low values)
    assert!(approx64(1.2345e-308, atof64_bytes(b"1.2345e-308", 10), 1e-20, f64::EPSILON));
    assert_eq!(5e-322, atof64_bytes(b"5e-322", 10));
    assert_eq!(5e-323, atof64_bytes(b"5e-323", 10));
    assert_eq!(5e-324, atof64_bytes(b"5e-324", 10));
    // due to issues in how the data is parsed, manually extracting
    // non-exponents of 1.<e-299 is prone to error
    // test the limit of our ability
    // We tend to get relative errors of 1e-16, even at super low values.
    assert!(approx64(1.2345e-299, atof64_bytes(b"0.000000000000000000000000000000000000000000000000000000000000000000000000000000000000000000000000000000000000000000000000000000000000000000000000000000000000000000000000000000000000000000000000000000000000000000000000000000000000000000000000000000000000000000000000000000000000000000000000000000000012345", 10), 1e-314, f64::EPSILON));

    // Keep pushing from -300 to -324
    assert!(approx64(1.2345e-300, atof64_bytes(b"0.0000000000000000000000000000000000000000000000000000000000000000000000000000000000000000000000000000000000000000000000000000000000000000000000000000000000000000000000000000000000000000000000000000000000000000000000000000000000000000000000000000000000000000000000000000000000000000000000000000000000012345", 10), 1e-315, f64::EPSILON));
    assert!(approx64(1.2345e-310, atof64_bytes(b"0.00000000000000000000000000000000000000000000000000000000000000000000000000000000000000000000000000000000000000000000000000000000000000000000000000000000000000000000000000000000000000000000000000000000000000000000000000000000000000000000000000000000000000000000000000000000000000000000000000000000000000000000012345", 10), 5e-324, f64::EPSILON));
    assert!(approx64(1.2345e-320, atof64_bytes(b"0.000000000000000000000000000000000000000000000000000000000000000000000000000000000000000000000000000000000000000000000000000000000000000000000000000000000000000000000000000000000000000000000000000000000000000000000000000000000000000000000000000000000000000000000000000000000000000000000000000000000000000000000000000000012345", 10), 5e-324, f64::EPSILON));
    assert!(approx64(1.2345e-321, atof64_bytes(b"0.0000000000000000000000000000000000000000000000000000000000000000000000000000000000000000000000000000000000000000000000000000000000000000000000000000000000000000000000000000000000000000000000000000000000000000000000000000000000000000000000000000000000000000000000000000000000000000000000000000000000000000000000000000000012345", 10), 5e-324, f64::EPSILON));
    assert!(approx64(1.24e-322, atof64_bytes(b"0.000000000000000000000000000000000000000000000000000000000000000000000000000000000000000000000000000000000000000000000000000000000000000000000000000000000000000000000000000000000000000000000000000000000000000000000000000000000000000000000000000000000000000000000000000000000000000000000000000000000000000000000000000000000124", 10), 5e-324, f64::EPSILON));
    assert_eq!(1e-323, atof64_bytes(b"0.00000000000000000000000000000000000000000000000000000000000000000000000000000000000000000000000000000000000000000000000000000000000000000000000000000000000000000000000000000000000000000000000000000000000000000000000000000000000000000000000000000000000000000000000000000000000000000000000000000000000000000000000000000000001", 10));
    assert_eq!(5e-324, atof64_bytes(b"0.000000000000000000000000000000000000000000000000000000000000000000000000000000000000000000000000000000000000000000000000000000000000000000000000000000000000000000000000000000000000000000000000000000000000000000000000000000000000000000000000000000000000000000000000000000000000000000000000000000000000000000000000000000000005", 10));

        assert!(atof64_bytes(b"NaN", 10).is_nan());
    assert!(atof64_bytes(b"inf", 10).is_infinite());
    assert!(atof64_bytes(b"+inf", 10).is_infinite());
    assert!(atof64_bytes(b"-inf", 10).is_infinite());
}
#[test]
fn api_pow2_radix_test() {
    // Radixes that are powers of two parse without a division.
    assert_eq!(atof64_bytes(b"ff", 16), 255.0);
    assert_eq!(atof64_bytes(b"1^2", 16), 256.0);
    assert_eq!(atof64_bytes(b"-101.1", 2), -5.5);
    // The exponent is written in the radix too: 2^0b11.
    assert_eq!(atof32_bytes(b"1e11", 2), 8.0);
    // A negative exponent or a fraction lowers the binary exponent only.
    assert_eq!(atof64_bytes(b"1^-2", 16), 0.00390625);
    assert_eq!(atof64_bytes(b"-0.1", 2), -0.5);
    assert_eq!(atof64_bytes(b"0.8", 16), 0.5);
    assert_eq!(atof32_bytes(b"0.04", 8), 0.0625);
    assert_eq!(atof64_bytes(b"1e-10", 4), 0.00390625);
    assert_eq!(atof64_bytes(b"0.00000001", 32), 2f64.powi(-40));
    assert_eq!(try_atof64_bytes(b"-1.f^-1", 16), Ok(-0.12109375));
}
