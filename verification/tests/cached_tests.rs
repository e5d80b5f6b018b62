use lexical_core::cached160::get_powers;

const BASEN: [u32; 30] = [
    3, 5, 6, 7, 9, 10, 11, 12, 13, 14, 15, 17, 18, 19, 20, 21,
    22, 23, 24, 25, 26, 27, 28, 29, 30, 31, 33, 34, 35, 36
];

#[test]
fn normalization_test() {
    // Ensure each valid is normalized.
    for base in BASEN.iter().cloned() {
        let powers = get_powers(base);
        for i in 0..powers.small.len() {
            assert_eq!(powers.get_small(i).mant.leading_zeros(), 0);
        }
        for i in 0..powers.large.len() {
            assert_eq!(powers.get_large(i).mant.leading_zeros(), 0);
        }
    }
}

#[test]
fn cached_small_powers_exact_test() {
    // Small powers are exact: mant * 2^exp == base^i.
    for base in BASEN.iter().cloned() {
        let powers = get_powers(base);
        assert_eq!(powers.small.len(), powers.step as usize);
        for i in 0..powers.small.len() {
            let fp = powers.get_small(i);
            let int = powers.get_small_int(i);
            assert_eq!(int, (base as u128).pow(i as u32));
            assert!(fp.exp < 0);
            assert_eq!(fp.mant >> ((-fp.exp) as u32), int);
        }
    }
}

#[test]
fn cached_base10_test() {
    let powers = get_powers(10);
    assert_eq!(powers.step, 10);
    assert_eq!(powers.bias, 370);
    assert_eq!(powers.large.len(), 68);
    let one = powers.get_small(0);
    assert_eq!(one.mant, 1u128 << 127);
    assert_eq!(one.exp, -127);
    let ten = powers.get_small(1);
    assert_eq!(ten.mant, 10u128 << 124);
    assert_eq!(ten.exp, -124);
}
