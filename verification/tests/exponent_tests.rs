use lexical_core::exponent::{binary_exponent, binary_factor, normalize_exponent, parse_exponent};

fn check_parse_exponent(base: u32, s: &str, tup: (i32, usize)) {
    let (v, end) = parse_exponent(s.as_bytes(), 0, base);
    assert_eq!(v, tup.0);
    assert_eq!(end, tup.1);
}

#[test]
fn exponent_parse_exponent_test() {
    let data = [
        (2, "e101101"),
        (3, "e1200"),
        (4, "e231"),
        (5, "e140"),
        (6, "e113"),
        (7, "e63"),
        (8, "e55"),
        (9, "e50"),
        (10, "e45"),
        (11, "e41"),
        (12, "e39"),
        (13, "e36"),
        (14, "e33"),
        (15, "^30"),
        (16, "^2d"),
        (17, "^2b"),
        (18, "^29"),
        (19, "^27"),
        (20, "^25"),
        (21, "^23"),
        (22, "^21"),
        (23, "^1m"),
        (24, "^1l"),
        (25, "^1k"),
        (26, "^1j"),
        (27, "^1i"),
        (28, "^1h"),
        (29, "^1g"),
        (30, "^1f"),
        (31, "^1e"),
        (32, "^1d"),
        (33, "^1c"),
        (34, "^1b"),
        (35, "^1a"),
        (36, "^19")
    ];
    {
        // basen
        for item in data.iter() {
            check_parse_exponent(item.0, item.1, (45, item.1.len()));
        }

        // empty
        check_parse_exponent(10, "", (0, 0));

        // invalid exponent character
        check_parse_exponent(28, "e1h", (0, 0));
        check_parse_exponent(10, "^45", (0, 0));

        // trailing characters
        check_parse_exponent(10, "e45 ", (45, 3));
        check_parse_exponent(10, "e45-", (45, 3));
        check_parse_exponent(10, "e45+", (45, 3));
        check_parse_exponent(10, "e45a", (45, 3));

        // positive
        check_parse_exponent(10, "e+45", (45, 4));

        // negative
        check_parse_exponent(10, "e-45", (-45, 4));

        // overflow
        check_parse_exponent(10, "e3000000000", (i32::max_value(), 11));
        check_parse_exponent(10, "e+3000000000", (i32::max_value(), 12));
        check_parse_exponent(10, "e-3000000000", (-i32::max_value(), 12));

        // lowercase
        check_parse_exponent(10, "e45", (45, 3));
        check_parse_exponent(10, "e+45", (45, 4));
        check_parse_exponent(10, "e-45", (-45, 4));
        check_parse_exponent(10, "e20", (20, 3));
        check_parse_exponent(10, "e+20", (20, 4));
        check_parse_exponent(10, "e-20", (-20, 4));

        // uppercase
        check_parse_exponent(10, "E45", (45, 3));
        check_parse_exponent(10, "E+45", (45, 4));
        check_parse_exponent(10, "E-45", (-45, 4));
        check_parse_exponent(10, "E20", (20, 3));
        check_parse_exponent(10, "E+20", (20, 4));
        check_parse_exponent(10, "E-20", (-20, 4));

        // >= base15
        check_parse_exponent(15, "^20", (30, 3));
        check_parse_exponent(15, "^+20", (30, 4));
        check_parse_exponent(15, "^-20", (-30, 4));

        // overflow
        check_parse_exponent(10, "e10000000000", (i32::max_value(), 12));
        check_parse_exponent(10, "e+10000000000", (i32::max_value(), 13));
        check_parse_exponent(10, "e-10000000000", (-i32::max_value(), 13));
    }
}

#[test]
fn exponent_normalize_exponent_test() {
    assert_eq!(normalize_exponent(10, 5, 0), 5);
    assert_eq!(normalize_exponent(0, 5, 0), -5);
    assert_eq!(normalize_exponent(i32::max_value(), 5, 0), i32::max_value()-5);
    assert_eq!(normalize_exponent(i32::max_value(), 0, 5), i32::max_value());
    assert_eq!(normalize_exponent(i32::min_value(), 5, 0), i32::min_value());
    assert_eq!(normalize_exponent(i32::min_value(), 0, 5), i32::min_value()+5);
}

#[test]
fn exponent_binary_exponent_test() {
    assert_eq!(binary_exponent(10, -324), -1077);
    assert_eq!(binary_exponent(10, -323), -1073);
    assert_eq!(binary_exponent(10, -150), -499);
    assert_eq!(binary_exponent(10, -50), -167);
    assert_eq!(binary_exponent(10, 0), 0);
    assert_eq!(binary_exponent(10, 50), 167);
    assert_eq!(binary_exponent(10, 150), 499);
    assert_eq!(binary_exponent(10, 323), 1073);
    assert_eq!(binary_exponent(10, 324), 1077);
}

#[test]
fn correct_parse_exponent_test() {
    {
        // empty
        check_parse_exponent(10, "", (0, 0));

        // lowercase
        check_parse_exponent(10, "e20", (20, 3));
        check_parse_exponent(10, "e+20", (20, 4));
        check_parse_exponent(10, "e-20", (-20, 4));

        // uppercase
        check_parse_exponent(10, "E20", (20, 3));
        check_parse_exponent(10, "E+20", (20, 4));
        check_parse_exponent(10, "E-20", (-20, 4));

        // >= base15
        check_parse_exponent(15, "^20", (30, 3));
        check_parse_exponent(15, "^+20", (30, 4));
        check_parse_exponent(15, "^-20", (-30, 4));

        // overflow
        check_parse_exponent(10, "e10000000000", (i32::max_value(), 12));
        check_parse_exponent(10, "e+10000000000", (i32::max_value(), 13));
        check_parse_exponent(10, "e-10000000000", (-i32::max_value(), 13));

        // trailing
        check_parse_exponent(10, "e20 ", (20, 3));
        check_parse_exponent(10, "e+20 ", (20, 4));
    }
}


#[test]
fn binary_factor_test() {
    const TABLE: [f64; 35] = [1.0, 1.584962500721156, 2.0, 2.321928094887362, 2.584962500721156, 2.807354922057604, 3.0, 3.169925001442312, 3.321928094887362, 3.4594316186372973, 3.584962500721156, 3.700439718141092, 3.807354922057604, 3.9068905956085187, 4.0, 4.087462841250339, 4.169925001442312, 4.247927513443585, 4.321928094887363, 4.392317422778761, 4.459431618637297, 4.523561956057013, 4.584962500721156, 4.643856189774724, 4.700439718141092, 4.754887502163468, 4.807354922057604, 4.857980995127572, 4.906890595608519, 4.954196310386875, 5.0, 5.044394119358453, 5.087462841250339, 5.129283016944966, 5.169925001442312];
    for (idx, base) in (2..37).enumerate() {
        // The factor is log2(base) in 32.32 fixed point.
        let factor = binary_factor(base) as f64 / 4294967296.0;
        assert!((factor - TABLE[idx]).abs() < 1e-9, "base {}: {} vs {}", base, factor, TABLE[idx]);
    }
}
