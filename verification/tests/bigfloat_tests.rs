use lexical_core::bigfloat::{
    padded_bits, parse_float, parse_mantissa, Bigfloat, Binary64, FloatMaxExponent,
};

/// Bases that are not powers of two.
const BASE_POWN: [u32; 30] = [
    3, 5, 6, 7, 9, 10, 11, 12, 13, 14, 15, 17, 18, 19, 20, 21, 22, 23, 24, 25, 26, 27, 28, 29,
    30, 31, 33, 34, 35, 36,
];

fn assert_same(a: &Bigfloat, b: &Bigfloat) {
    assert_eq!(a.data(), b.data());
    assert_eq!(a.exp(), b.exp());
}

// CREATION

#[test]
fn new_test() {
    let bigfloat = Bigfloat::new();
    assert_same(&bigfloat, &Bigfloat::from_raw_parts(vec![], 0));
}

#[test]
fn from_u32_test() {
    let bigfloat = Bigfloat::from_u32(255);
    assert_same(&bigfloat, &Bigfloat::from_raw_parts(vec![255], 0));
}

#[test]
fn from_u64_test() {
    assert_same(&Bigfloat::from_u32(255), &Bigfloat::from_u64(255));

    let bigfloat = Bigfloat::from_u64(1152921504606847231);
    assert_same(&bigfloat, &Bigfloat::from_raw_parts(vec![255, 1 << 28], 0));
}

#[test]
fn from_u128_test() {
    assert_same(&Bigfloat::from_u32(255), &Bigfloat::from_u128(255));
    assert_same(&Bigfloat::from_u64(255), &Bigfloat::from_u128(255));
    assert_same(&Bigfloat::from_u64(1152921504606847231), &Bigfloat::from_u128(1152921504606847231));

    let bigfloat = Bigfloat::from_u128(1329227997022855913342108839786316031);
    assert_same(&bigfloat, &Bigfloat::from_raw_parts(vec![255, 1 << 28, 1 << 26, 1<< 24], 0));
}

// DIVISION

#[test]
fn padded_bits_test() {
    // Ensure it works for all bases.
    for base in BASE_POWN.iter().cloned() {
        padded_bits(base, 1);
    }

    // Check compared to known values.
    assert_eq!(padded_bits(3, 10), 76);
    assert_eq!(padded_bits(6, 10), 76);
    assert_eq!(padded_bits(12, 10), 76);
    assert_eq!(padded_bits(24, 10), 76);
    assert_eq!(padded_bits(5, 10), 82);
    assert_eq!(padded_bits(10, 10), 82);
    assert_eq!(padded_bits(20, 10), 82);
    assert_eq!(padded_bits(7, 10), 87);
    assert_eq!(padded_bits(14, 10), 87);
    assert_eq!(padded_bits(28, 10), 87);
    assert_eq!(padded_bits(11, 10), 94);
    assert_eq!(padded_bits(22, 10), 94);
    assert_eq!(padded_bits(13, 10), 98);
    assert_eq!(padded_bits(26, 10), 98);
    assert_eq!(padded_bits(17, 10), 102);
    assert_eq!(padded_bits(34, 10), 102);
    assert_eq!(padded_bits(19, 10), 102);
    assert_eq!(padded_bits(23, 10), 103);
    assert_eq!(padded_bits(29, 10), 110);
    assert_eq!(padded_bits(31, 10), 109);
    assert_eq!(padded_bits(9, 10), 87);
    assert_eq!(padded_bits(18, 10), 87);
    assert_eq!(padded_bits(36, 10), 87);
    assert_eq!(padded_bits(15, 10), 97);
    assert_eq!(padded_bits(30, 10), 97);
    assert_eq!(padded_bits(21, 10), 98);
    assert_eq!(padded_bits(27, 10), 104);
    assert_eq!(padded_bits(33, 10), 106);
    assert_eq!(padded_bits(25, 10), 103);
    assert_eq!(padded_bits(35, 10), 110);
}

#[test]
fn bigfloat_pad_zeros_test() {
    // Pad 0
    let mut x = Bigfloat::from_raw_parts(vec![0, 0, 0, 1], 0);
    x.pad_zeros(3);
    assert_same(&x, &Bigfloat::from_raw_parts(vec![0, 0, 0, 1], 0));

    // Pad 1
    let mut x = Bigfloat::from_raw_parts(vec![0, 0, 1], 0);
    x.pad_zeros(3);
    assert_same(&x, &Bigfloat::from_raw_parts(vec![0, 0, 0, 1], -32));

    // Pad 2
    let mut x = Bigfloat::from_raw_parts(vec![0, 1], 0);
    x.pad_zeros(3);
    assert_same(&x, &Bigfloat::from_raw_parts(vec![0, 0, 0, 1], -64));

    // Pad 3
    let mut x = Bigfloat::from_u32(1);
    x.pad_zeros(3);
    assert_same(&x, &Bigfloat::from_raw_parts(vec![0, 0, 0, 1], -96));

    let mut x = Bigfloat::from_u64(0x100000001);
    x.pad_zeros(3);
    assert_same(&x, &Bigfloat::from_raw_parts(vec![0, 0, 0, 1, 1], -96));

    let mut x = Bigfloat::from_raw_parts(vec![1, 1, 1], 0);
    x.pad_zeros(3);
    assert_same(&x, &Bigfloat::from_raw_parts(vec![0, 0, 0, 1, 1, 1], -96));

    // Pad 4
    let mut x = Bigfloat::from_u128(0x1000000010000000100000001);
    x.pad_zeros(4);
    assert_same(&x, &Bigfloat::from_raw_parts(vec![0, 0, 0, 0, 1, 1, 1, 1], -128));
}

#[test]
fn pad_division_test() {
    // Pad 0
    let mut x = Bigfloat::from_raw_parts(vec![1], 0);
    x.pad_division(10, 3);
    assert_same(&x, &Bigfloat::from_raw_parts(vec![0, 0, 0, 1], -96));
}

#[test]
fn bigfloat_idiv_small_test() {
    // 1-int.
    let mut x = Bigfloat::from_u32(5);
    x.pad_zeros(2);
    assert_eq!(x.idiv_small(7), 3);
    assert_same(&x, &Bigfloat::from_raw_parts(vec![0xDB6DB6DB, 0xB6DB6DB6], -64));

    // 2-ints.
    let mut x = Bigfloat::from_u64(0x4000000040000);
    x.pad_zeros(2);
    assert_eq!(x.idiv_small(5), 3);
    assert_same(&x, &Bigfloat::from_raw_parts(vec![0x99999999, 0x99999999, 0xCCCD9999, 0xCCCC], -64));

    // 1-int.
    let mut x = Bigfloat::from_u32(0x33333334);
    x.pad_zeros(2);
    assert_eq!(x.idiv_small(5), 0);
    assert_same(&x, &Bigfloat::from_raw_parts(vec![0x0, 0x0, 0xA3D70A4], -64));

    // 2-ints.
    let mut x = Bigfloat::from_u64(0x133333334);
    x.pad_zeros(2);
    assert_eq!(x.idiv_small(5), 1);
    assert_same(&x, &Bigfloat::from_raw_parts(vec![0x33333333, 0x33333333, 0x3D70A3D7], -64));

    // 2-ints.
    let mut x = Bigfloat::from_u64(0x3333333333333334);
    x.pad_zeros(2);
    assert_eq!(x.idiv_small(5), 4);
    assert_same(&x, &Bigfloat::from_raw_parts(vec![0xCCCCCCCC, 0xCCCCCCCC, 0xD70A3D70, 0xA3D70A3], -64));
}

// AS FLOAT

#[test]
fn bigfloat_binary_exponent_test() {
    // Empty
    let x = Bigfloat::new();
    assert_eq!(x.binary_exponent(10, 0), 0);

    // Denormal float, extreme halfway case
    let x = Bigfloat::from_raw_parts(vec![1727738441, 330069557, 3509095598, 686205316, 156923684, 750687444, 2688855918, 28211928, 1887482096, 3222998811, 913348873, 1652282845, 1600735541, 1664240266, 84454144, 1487769792, 1855966778, 2832488299, 507030148, 1410055467, 2513359584, 3453963205, 779237894, 3456088326, 3671009895, 3094451696, 1250165638, 2682979794, 357925323, 1713890438, 3271046672, 3485897285, 3934710962, 1813530592, 199705026, 976390839, 2805488572, 2194288220, 2094065006, 2592523639, 3798974617, 586957244, 1409218821, 3442050171, 3789534764, 1380190380, 2055222457, 3535299831, 429482276, 389342206, 133558576, 721875297, 3013586570, 540178306, 2389746866, 2313334501, 422440635, 1288499129, 864978311, 842263325, 3016323856, 2282442263, 1440906063, 3931458696, 3511314276, 1884879882, 946366824, 4260548261, 1073379659, 1732329252, 3828972211, 1915607049, 3665440937, 1844358779, 3735281178, 2646335050, 1457460927, 2940016422, 1051], 0);
    assert_eq!(x.binary_exponent(10, -1078), -1075);
}

#[test]
fn mantissa_test() {
    // Empty
    let x = Bigfloat::new();
    assert_eq!(x.mantissa(), (0, false));

    // 1-int
    let x = Bigfloat::from_u32(1);
    assert_eq!(x.mantissa(), (1<<63, false));

    // 2-ints
    let x = Bigfloat::from_u64(0x1000000000000000);
    assert_eq!(x.mantissa(), (1<<63, false));

    // 3-ints
    let x = Bigfloat::from_u128(0x40000000000000000000000);
    assert_eq!(x.mantissa(), (1<<63, false));

    // 4-ints
    let x = Bigfloat::from_u128(0x1000000000000000000000000000000);
    assert_eq!(x.mantissa(), (1<<63, false));

    // 2-ints + halfway (round-down)
    let x = Bigfloat::from_u64(0x20000000000001);
    assert_eq!(x.mantissa(), (0x8000000000000400, false));

    // 2-ints + halfway (round-up)
    let x = Bigfloat::from_u64(0x20000000000003);
    assert_eq!(x.mantissa(), (0x8000000000000C00, false));

    // 2-ints + below halfway (not truncated)
    let x = Bigfloat::from_u64(0x80000000000003FF);
    assert_eq!(x.mantissa(), (0x80000000000003FF, false));

    // 2-ints + above halfway (not truncated)
    let x = Bigfloat::from_u64(0x8000000000000401);
    assert_eq!(x.mantissa(), (0x8000000000000401, false));

    // 3-ints + halfway (round-down) (not truncated)
    let x = Bigfloat::from_u128(0x100000000000008000);
    assert_eq!(x.mantissa(), (0x8000000000000400, false));

    // 3-ints + halfway (round-up) (not truncated)
    let x = Bigfloat::from_u128(0x100000000000018000);
    assert_eq!(x.mantissa(), (0x8000000000000C00, false));

    // 3-ints + below halfway (truncated)
    let x = Bigfloat::from_u128(0x100000000000007FFF);
    assert_eq!(x.mantissa(), (0x80000000000003FF, true));

    // 3-ints + above halfway (truncated)
    let x = Bigfloat::from_u128(0x100000000000008001);
    assert_eq!(x.mantissa(), (0x8000000000000400, true));

    // Custom (bug fix), 0x20000000000001 << 100
    let x = Bigfloat::from_raw_parts(vec![0, 0, 0, 16, 33554432], 0);
    assert_eq!(x.mantissa(), (0x8000000000000400, false));

    // Underflow
    // Adapted from failures in strtod.
    let x = Bigfloat::from_raw_parts(vec![635365730, 2971208776, 32671145, 0, 0, 0, 0, 0, 0, 0, 0, 0, 0, 0, 0, 0, 0, 0, 0, 0, 0, 0, 0, 0, 0, 0, 0, 0, 0, 0, 0, 0, 0, 0, 0, 0, 0, 0, 0, 0, 0, 0, 0, 0, 0, 0, 0, 0, 0, 0, 0, 0, 0, 0, 0, 0, 0, 0, 0, 0, 0, 0, 0, 0, 0, 0, 0, 0, 0, 0, 0, 0, 0, 0, 0, 0, 0, 0, 0, 0, 0, 8], -3670);
    assert_eq!(x.mantissa(), (0x8000000000000000, true));
}

#[test]
fn exponent_test() {
    // Empty
    let x = Bigfloat::new();
    assert_eq!(x.exponent(), -64);

    // 1-int
    let x = Bigfloat::from_u32(1);
    assert_eq!(x.exponent(), -63);

    // 2-ints
    let x = Bigfloat::from_u64(0x1000000000000000);
    assert_eq!(x.exponent(), -3);

    // 3-ints
    let x = Bigfloat::from_u128(0x40000000000000000000000);
    assert_eq!(x.exponent(), 27);

    // 4-ints
    let x = Bigfloat::from_u128(0x1000000000000000000000000000000);
    assert_eq!(x.exponent(), 57);

    // Multiply by a power-of-two
    let mut x = Bigfloat::from_u32(1);
    x.imul_power(1, 2);
    assert_eq!(x.exponent(), -62);

    // Divide by a power-of-two
    let mut x = Bigfloat::from_u32(1);
    x.idiv_power(1, 2, true);
    assert_eq!(x.exponent(), -64);

    // Custom (bug fix), 0x20000000000001 << 100
    let x = Bigfloat::from_raw_parts(vec![0, 0, 0, 16, 33554432], 0);
    assert_eq!(x.exponent(), 90);

    // Underflow
    // Adapted from failures in strtod.
    let x = Bigfloat::from_raw_parts(vec![635365730, 2971208776, 32671145, 0, 0, 0, 0, 0, 0, 0, 0, 0, 0, 0, 0, 0, 0, 0, 0, 0, 0, 0, 0, 0, 0, 0, 0, 0, 0, 0, 0, 0, 0, 0, 0, 0, 0, 0, 0, 0, 0, 0, 0, 0, 0, 0, 0, 0, 0, 0, 0, 0, 0, 0, 0, 0, 0, 0, 0, 0, 0, 0, 0, 0, 0, 0, 0, 0, 0, 0, 0, 0, 0, 0, 0, 0, 0, 0, 0, 0, 0, 8], -3670);
    assert_eq!(x.exponent(), -1138);
}

// PARSING

fn check_parse_mantissa(base: u32, s: &str, tup: (Bigfloat, usize, usize)) {
    let mut value = Bigfloat::new();
    let (fraction_digits, end) = parse_mantissa(&mut value, s.as_bytes(), 0, base);
    assert_same(&value, &tup.0);
    assert_eq!(fraction_digits, tup.1);
    assert_eq!(end, tup.2);
}

#[test]
fn bigfloat_parse_mantissa_test() {
    {
        check_parse_mantissa(10, "1.2345", (Bigfloat::from_u32(12345), 4, 6));
        check_parse_mantissa(10, "12.345", (Bigfloat::from_u32(12345), 3, 6));
        check_parse_mantissa(10, "1.234567890123456789012345678901234567890123456789012345678901234567890123456789012345678901234567890", (Bigfloat::from_raw_parts(vec![3460238034, 2899308950, 4017877323, 1199904321, 1198752190, 2818107006, 390189029, 1795052211, 2368297274, 4229382910, 577], 0), 99, 101));
        check_parse_mantissa(10, "0", (Bigfloat::new(), 0, 1));
        check_parse_mantissa(10, "12", (Bigfloat::from_u32(12), 0, 2));

        // Check the bigfloat parser works with extremely difficult, close-to-halfway cases.
        // Round-down, halfway
        check_parse_mantissa(10, "11417981541647679048466287755595961091061972992", (Bigfloat::from_raw_parts(vec![0, 0, 0, 0, 33554432], 0), 0, 47));
        check_parse_mantissa(10, "11417981541647680316116887983825362587765178368", (Bigfloat::from_raw_parts(vec![0, 0, 0, 16, 33554432], 0), 0, 47));
        check_parse_mantissa(10, "11417981541647681583767488212054764084468383744", (Bigfloat::from_raw_parts(vec![0, 0, 0, 32, 33554432], 0), 0, 47));

        // Round-up, halfway
        check_parse_mantissa(10, "11417981541647681583767488212054764084468383744", (Bigfloat::from_raw_parts(vec![0, 0, 0, 32, 33554432], 0), 0, 47));
        check_parse_mantissa(10, "11417981541647682851418088440284165581171589120", (Bigfloat::from_raw_parts(vec![0, 0, 0, 48, 33554432], 0), 0, 47));
        check_parse_mantissa(10, "11417981541647684119068688668513567077874794496", (Bigfloat::from_raw_parts(vec![0, 0, 0, 64, 33554432], 0), 0, 47));

        // Round-up, above halfway
        check_parse_mantissa(10, "11417981541647680316116887983825362587765178369", (Bigfloat::from_raw_parts(vec![1, 0, 0, 16, 33554432], 0), 0, 47));
    }
}

fn check_parse_float(base: u32, s: &str, tup: (Bigfloat, i32, usize)) {
    let (value, exp, end) = parse_float(base, s.as_bytes(), 0);
    assert_same(&value, &tup.0);
    assert_eq!(exp, tup.1);
    assert_eq!(end, tup.2);
}

#[test]
fn bigfloat_parse_float_test() {
    {
        check_parse_float(10, "1.2345", (Bigfloat::from_u32(12345), -4, 6));
        check_parse_float(10, "12.345", (Bigfloat::from_u32(12345), -3, 6));
        check_parse_float(10, "1.234567890123456789012345678901234567890123456789012345678901234567890123456789012345678901234567890", (Bigfloat::from_raw_parts(vec![3460238034, 2899308950, 4017877323, 1199904321, 1198752190, 2818107006, 390189029, 1795052211, 2368297274, 4229382910, 577], 0), -99, 101));
        check_parse_float(10, "0", (Bigfloat::new(), 0, 1));
        check_parse_float(10, "12", (Bigfloat::from_u32(12), 0, 2));
        check_parse_float(10, "1.234567890123456789012345678901234567890123456789012345678901234567890123456789012345678901234567890e308", (Bigfloat::from_raw_parts(vec![3460238034, 2899308950, 4017877323, 1199904321, 1198752190, 2818107006, 390189029, 1795052211, 2368297274, 4229382910, 577], 0), 209, 105));

        // Check the bigfloat parser works with extremely difficult, close-to-halfway cases.
        // Round-down, halfway
        check_parse_float(10, "11417981541647679048466287755595961091061972992", (Bigfloat::from_raw_parts(vec![0, 0, 0, 0, 33554432], 0), 0, 47));
        check_parse_float(10, "11417981541647680316116887983825362587765178368", (Bigfloat::from_raw_parts(vec![0, 0, 0, 16, 33554432], 0), 0, 47));
        check_parse_float(10, "11417981541647681583767488212054764084468383744", (Bigfloat::from_raw_parts(vec![0, 0, 0, 32, 33554432], 0), 0, 47));

        // Round-up, halfway
        check_parse_float(10, "11417981541647681583767488212054764084468383744", (Bigfloat::from_raw_parts(vec![0, 0, 0, 32, 33554432], 0), 0, 47));
        check_parse_float(10, "11417981541647682851418088440284165581171589120", (Bigfloat::from_raw_parts(vec![0, 0, 0, 48, 33554432], 0), 0, 47));
        check_parse_float(10, "11417981541647684119068688668513567077874794496", (Bigfloat::from_raw_parts(vec![0, 0, 0, 64, 33554432], 0), 0, 47));

        // Round-up, above halfway
        check_parse_float(10, "11417981541647680316116887983825362587765178369", (Bigfloat::from_raw_parts(vec![1, 0, 0, 16, 33554432], 0), 0, 47));

        // Underflow
        // Adapted from failures in strtod.
        check_parse_float(10, "2.4703282292062327208828439643411068618252990130716238221279284125033775363510437593264991818081799618989828234772285886546332835517796989819938739800539093906315035659515570226392290858392449105184435931802849936536152500319370457678249219365623669863658480757001585769269903706311928279558551332927834338409351978015531246597263579574622766465272827220056374006485499977096599470454020828166226237857393450736339007967761930577506740176324673600968951340535537458516661134223766678604162159680461914467291840300530057530849048765391711386591646239524912623653881879636239373280423891018672348497668235089863388587925628302755995657524455507255189313690836254779186948667994968324049705821028513185451396213837722826145437693412532098591327667236328125001e-324", (Bigfloat::from_raw_parts(vec![1727738441, 330069557, 3509095598, 686205316, 156923684, 750687444, 2688855918, 28211928, 1887482096, 3222998811, 913348873, 1652282845, 1600735541, 1664240266, 84454144, 1487769792, 1855966778, 2832488299, 507030148, 1410055467, 2513359584, 3453963205, 779237894, 3456088326, 3671009895, 3094451696, 1250165638, 2682979794, 357925323, 1713890438, 3271046672, 3485897285, 3934710962, 1813530592, 199705026, 976390839, 2805488572, 2194288220, 2094065006, 2592523639, 3798974617, 586957244, 1409218821, 3442050171, 3789534764, 1380190380, 2055222457, 3535299831, 429482276, 389342206, 133558576, 721875297, 3013586570, 540178306, 2389746866, 2313334501, 422440635, 1288499129, 864978311, 842263325, 3016323856, 2282442263, 1440906063, 3931458696, 3511314276, 1884879882, 946366824, 4260548261, 1073379659, 1732329252, 3828972211, 1915607049, 3665440937, 1844358779, 3735281178, 2646335050, 1457460927, 2940016422, 1051], 0), -1078, 761));

        // Rounding error
        // Adapted from test-float-parse failures.
        check_parse_float(10, "1009e-31", (Bigfloat::from_raw_parts(vec![1009], 0), -31, 8));
    }
}

fn check_from_bytes<F: FloatMaxExponent>(base: u32, s: &str, tup: (Bigfloat, usize)) {
    let (v, end) = Bigfloat::from_bytes::<F>(base, s.as_bytes());
    assert_same(&v, &tup.0);
    assert_eq!(end, tup.1);
}

#[test]
fn from_bytes_test() {
    {
        // Underflow
        // Adapted from failures in strtod.
        check_from_bytes::<Binary64>(10, "2.4703282292062327208828439643411068618252990130716238221279284125033775363510437593264991818081799618989828234772285886546332835517796989819938739800539093906315035659515570226392290858392449105184435931802849936536152500319370457678249219365623669863658480757001585769269903706311928279558551332927834338409351978015531246597263579574622766465272827220056374006485499977096599470454020828166226237857393450736339007967761930577506740176324673600968951340535537458516661134223766678604162159680461914467291840300530057530849048765391711386591646239524912623653881879636239373280423891018672348497668235089863388587925628302755995657524455507255189313690836254779186948667994968324049705821028513185451396213837722826145437693412532098591327667236328125001e-324", (Bigfloat::from_raw_parts(vec![642017486, 3921539298, 3824343719, 91359114, 1738187133, 1383153214, 3150573688, 2249385240, 2573401083, 3095825845, 3660217666, 1733774432, 4281766689, 4040834041, 3939311820, 1480925659, 635365729, 2971208776, 32671145, 0, 0, 0, 0, 0, 0, 0, 0, 0, 0, 0, 0, 0, 0, 0, 0, 0, 0, 0, 0, 0, 0, 0, 0, 0, 0, 0, 0, 0, 0, 0, 0, 0, 0, 0, 0, 0, 0, 0, 0, 0, 0, 0, 0, 0, 0, 0, 0, 0, 0, 0, 0, 0, 0, 0, 0, 0, 0, 0, 0, 0, 0, 0, 0, 0, 0, 0, 0, 0, 0, 0, 0, 0, 0, 0, 0, 0, 0, 8], -4182), 761));

        // Rounding error
        // Adapted from test-float-parse failures.
        check_from_bytes::<Binary64>(5, "0.00000000000000000000000000000000000000004243233340111410410443", (Bigfloat::from_raw_parts(vec![880090781, 186210280, 869146737, 1385950651, 4269719750, 7], -256), 64));
        check_from_bytes::<Binary64>(10, "1009e-31", (Bigfloat::from_raw_parts(vec![1614477393, 692973567, 4282343523, 3], -191), 8));
    }
}
