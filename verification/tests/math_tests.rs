use lexical_core::bigcomp::Bigint;
use lexical_core::math::large;
use lexical_core::math::small::pow;
use lexical_core::math::small::{div_power, mul_power};

fn bigint(data: Vec<u32>) -> Bigint {
    Bigint::from_raw_parts(data, 0)
}


#[test]
fn greater_test() {
    // Simple
    let x = bigint(vec![1]);
    let y = bigint(vec![2]);
    assert!(!x.greater(&y));
    assert!(!x.greater(&x));
    assert!(y.greater(&x));

    // Check asymmetric
    let x = bigint(vec![5, 1]);
    let y = bigint(vec![2]);
    assert!(x.greater(&y));
    assert!(!x.greater(&x));
    assert!(!y.greater(&x));

    // Check when we use reverse ordering properly.
    let x = bigint(vec![5, 1, 9]);
    let y = bigint(vec![6, 2, 8]);
    assert!(x.greater(&y));
    assert!(!x.greater(&x));
    assert!(!y.greater(&x));
}

#[test]
fn greater_equal_test() {
    // Simple
    let x = bigint(vec![1]);
    let y = bigint(vec![2]);
    assert!(!x.greater_equal(&y));
    assert!(x.greater_equal(&x));
    assert!(y.greater_equal(&x));

    // Check asymmetric
    let x = bigint(vec![5, 1]);
    let y = bigint(vec![2]);
    assert!(x.greater_equal(&y));
    assert!(x.greater_equal(&x));
    assert!(!y.greater_equal(&x));

    // Check when we use reverse ordering properly.
    let x = bigint(vec![5, 1, 9]);
    let y = bigint(vec![6, 2, 8]);
    assert!(x.greater_equal(&y));
    assert!(x.greater_equal(&x));
    assert!(!y.greater_equal(&x));
}

#[test]
fn equal_test() {
    // Simple
    let x = bigint(vec![1]);
    let y = bigint(vec![2]);
    assert!(!x.equal(&y));
    assert!(x.equal(&x));
    assert!(!y.equal(&x));

    // Check asymmetric
    let x = bigint(vec![5, 1]);
    let y = bigint(vec![2]);
    assert!(!x.equal(&y));
    assert!(x.equal(&x));
    assert!(!y.equal(&x));

    // Check when we use reverse ordering properly.
    let x = bigint(vec![5, 1, 9]);
    let y = bigint(vec![6, 2, 8]);
    assert!(!x.equal(&y));
    assert!(x.equal(&x));
    assert!(!y.equal(&x));
}

#[test]
fn less_test() {
    // Simple
    let x = bigint(vec![1]);
    let y = bigint(vec![2]);
    assert!(x.less(&y));
    assert!(!x.less(&x));
    assert!(!y.less(&x));

    // Check asymmetric
    let x = bigint(vec![5, 1]);
    let y = bigint(vec![2]);
    assert!(!x.less(&y));
    assert!(!x.less(&x));
    assert!(y.less(&x));

    // Check when we use reverse ordering properly.
    let x = bigint(vec![5, 1, 9]);
    let y = bigint(vec![6, 2, 8]);
    assert!(!x.less(&y));
    assert!(!x.less(&x));
    assert!(y.less(&x));
}

#[test]
fn less_equal_test() {
    // Simple
    let x = bigint(vec![1]);
    let y = bigint(vec![2]);
    assert!(x.less_equal(&y));
    assert!(x.less_equal(&x));
    assert!(!y.less_equal(&x));

    // Check asymmetric
    let x = bigint(vec![5, 1]);
    let y = bigint(vec![2]);
    assert!(!x.less_equal(&y));
    assert!(x.less_equal(&x));
    assert!(y.less_equal(&x));

    // Check when we use reverse ordering properly.
    let x = bigint(vec![5, 1, 9]);
    let y = bigint(vec![6, 2, 8]);
    assert!(!x.less_equal(&y));
    assert!(x.less_equal(&x));
    assert!(y.less_equal(&x));
}

#[test]
fn leading_zero_values_test() {
    assert_eq!(Bigint::new().leading_zero_values(), 0);

    assert_eq!(Bigint::from_u32(0xFF).leading_zero_values(), 0);
    assert_eq!(Bigint::from_u64(0xFF00000000).leading_zero_values(), 0);
    assert_eq!(Bigint::from_u128(0xFF000000000000000000000000).leading_zero_values(), 0);

    assert_eq!(Bigint::from_u32(0xF).leading_zero_values(), 0);
    assert_eq!(Bigint::from_u64(0xF00000000).leading_zero_values(), 0);
    assert_eq!(Bigint::from_u128(0xF000000000000000000000000).leading_zero_values(), 0);

    assert_eq!(Bigint::from_u32(0xF0).leading_zero_values(), 0);
    assert_eq!(Bigint::from_u64(0xF000000000).leading_zero_values(), 0);
    assert_eq!(Bigint::from_u128(0xF0000000000000000000000000).leading_zero_values(), 0);
}

#[test]
fn trailing_zero_values_test() {
    assert_eq!(Bigint::new().trailing_zero_values(), 0);

    assert_eq!(Bigint::from_u32(0xFF).trailing_zero_values(), 0);
    assert_eq!(Bigint::from_u64(0xFF00000000).trailing_zero_values(), 1);
    assert_eq!(Bigint::from_u128(0xFF000000000000000000000000).trailing_zero_values(), 3);

    assert_eq!(Bigint::from_u32(0xF).trailing_zero_values(), 0);
    assert_eq!(Bigint::from_u64(0xF00000000).trailing_zero_values(), 1);
    assert_eq!(Bigint::from_u128(0xF000000000000000000000000).trailing_zero_values(), 3);

    assert_eq!(Bigint::from_u32(0xF0).trailing_zero_values(), 0);
    assert_eq!(Bigint::from_u64(0xF000000000).trailing_zero_values(), 1);
    assert_eq!(Bigint::from_u128(0xF0000000000000000000000000).trailing_zero_values(), 3);
}

#[test]
fn leading_zeros_test() {
    assert_eq!(Bigint::new().leading_zeros(), 0);

    assert_eq!(Bigint::from_u32(0xFF).leading_zeros(), 24);
    assert_eq!(Bigint::from_u64(0xFF00000000).leading_zeros(), 24);
    assert_eq!(Bigint::from_u128(0xFF000000000000000000000000).leading_zeros(), 24);

    assert_eq!(Bigint::from_u32(0xF).leading_zeros(), 28);
    assert_eq!(Bigint::from_u64(0xF00000000).leading_zeros(), 28);
    assert_eq!(Bigint::from_u128(0xF000000000000000000000000).leading_zeros(), 28);

    assert_eq!(Bigint::from_u32(0xF0).leading_zeros(), 24);
    assert_eq!(Bigint::from_u64(0xF000000000).leading_zeros(), 24);
    assert_eq!(Bigint::from_u128(0xF0000000000000000000000000).leading_zeros(), 24);
}

#[test]
fn trailing_zeros_test() {
    assert_eq!(Bigint::new().trailing_zeros(), 0);

    assert_eq!(Bigint::from_u32(0xFF).trailing_zeros(), 0);
    assert_eq!(Bigint::from_u64(0xFF00000000).trailing_zeros(), 32);
    assert_eq!(Bigint::from_u128(0xFF000000000000000000000000).trailing_zeros(), 96);

    assert_eq!(Bigint::from_u32(0xF).trailing_zeros(), 0);
    assert_eq!(Bigint::from_u64(0xF00000000).trailing_zeros(), 32);
    assert_eq!(Bigint::from_u128(0xF000000000000000000000000).trailing_zeros(), 96);

    assert_eq!(Bigint::from_u32(0xF0).trailing_zeros(), 4);
    assert_eq!(Bigint::from_u64(0xF000000000).trailing_zeros(), 36);
    assert_eq!(Bigint::from_u128(0xF0000000000000000000000000).trailing_zeros(), 100);
}

#[test]
fn math_pad_zeros_test() {
    let mut x = bigint(vec![0, 0, 0, 1]);
    x.pad_zeros(3);
    assert_eq!(x.data(), vec![0, 0, 0, 0, 0, 0, 1]);

    let mut x = bigint(vec![1]);
    x.pad_zeros(1);
    assert_eq!(x.data(), vec![0, 1]);
}

#[test]
fn shl_test() {
    // Pattern generated via `''.join(["1" +"0"*i for i in range(20)])`
    let mut big = bigint(vec![0xD2210408]);
    big.ishl(5);
    assert_eq!(big.data(), vec![0x44208100, 0x1A]);
    big.ishl(32);
    assert_eq!(big.data(), vec![0, 0x44208100, 0x1A]);
    big.ishl(27);
    assert_eq!(big.data(), vec![0, 0, 0xD2210408]);

    // 96-bits of previous pattern
    let mut big = bigint(vec![0x20020010, 0x8040100, 0xD2210408]);
    big.ishl(5);
    assert_eq!(big.data(), vec![0x400200, 0x802004, 0x44208101, 0x1A]);
    big.ishl(32);
    assert_eq!(big.data(), vec![0, 0x400200, 0x802004, 0x44208101, 0x1A]);
    big.ishl(27);
    assert_eq!(big.data(), vec![0, 0, 0x20020010, 0x8040100, 0xD2210408]);
}

#[test]
fn shr_test() {
    // Simple case.
    let mut big = bigint(vec![0xD2210408]);
    big.ishr(5, false);
    assert_eq!(big.data(), vec![0x6910820]);
    big.ishr(27, false);
    assert_eq!(big.data(), vec![]);

    // Pattern generated via `''.join(["1" +"0"*i for i in range(20)])`
    let mut big = bigint(vec![0x20020010, 0x8040100, 0xD2210408]);
    big.ishr(5, false);
    assert_eq!(big.data(), vec![0x1001000, 0x40402008, 0x6910820]);
    big.ishr(32, false);
    assert_eq!(big.data(), vec![0x40402008, 0x6910820]);
    big.ishr(27, false);
    assert_eq!(big.data(), vec![0xD2210408]);

    // Check no-roundup with halfway and even
    let mut big = bigint(vec![0xD2210408]);
    big.ishr(3, true);
    assert_eq!(big.data(), vec![0x1A442081]);
    big.ishr(1, true);
    assert_eq!(big.data(), vec![0xD221040]);

    let mut big = bigint(vec![0xD2210408]);
    big.ishr(4, true);
    assert_eq!(big.data(), vec![0xD221040]);

    // Check roundup with halfway and odd
    let mut big = bigint(vec![0xD2210438]);
    big.ishr(3, true);
    assert_eq!(big.data(), vec![0x1A442087]);
    big.ishr(1, true);
    assert_eq!(big.data(), vec![0xD221044]);

    let mut big = bigint(vec![0xD2210438]);
    big.ishr(5, true);
    assert_eq!(big.data(), vec![0x6910822]);
}

#[test]
fn bit_length_test() {
    let x = bigint(vec![0, 0, 0, 1]);
    assert_eq!(x.bit_length(), 97);

    let x = bigint(vec![0, 0, 0, 3]);
    assert_eq!(x.bit_length(), 98);

    let x = bigint(vec![1<<31]);
    assert_eq!(x.bit_length(), 32);
}

// SMALL OPS

#[test]
fn iadd_small_test() {
    // Overflow check (single)
    // This should set all the internal data values to 0, the top
    // value to (1<<31), and the bottom value to (4>>1).
    // This is because the max_value + 1 leads to all 0s, we set the
    // topmost bit to 1.
    let mut x = bigint(vec![4294967295]);
    x.iadd_small(5);
    assert_eq!(x.data(), vec![4, 1]);

    // No overflow, single value
    let mut x = bigint(vec![5]);
    x.iadd_small(7);
    assert_eq!(x.data(), vec![12]);

    // Single carry, internal overflow
    let mut x = Bigint::from_u64(0x80000000FFFFFFFF);
    x.iadd_small(7);
    assert_eq!(x.data(), vec![6, 0x80000001]);

    // Double carry, overflow
    let mut x = Bigint::from_u64(0xFFFFFFFFFFFFFFFF);
    x.iadd_small(7);
    assert_eq!(x.data(), vec![6, 0, 1]);
}

#[test]
fn isub_small_test() {
    {
        // Overflow check (single)
        let mut x = bigint(vec![4, 1]);
        x.isub_small(5);
        assert_eq!(x.data(), vec![4294967295]);

        // No overflow, single value
        let mut x = bigint(vec![12]);
        x.isub_small(7);
        assert_eq!(x.data(), vec![5]);

        // Single carry, internal overflow
        let mut x = bigint(vec![6, 0x80000001]);
        x.isub_small(7);
        assert_eq!(x.data(), vec![0xFFFFFFFF, 0x80000000]);

        // Double carry, overflow
        let mut x = bigint(vec![6, 0, 1]);
        x.isub_small(7);
        assert_eq!(x.data(), vec![0xFFFFFFFF, 0xFFFFFFFF]);
    }
}

#[test]
fn imul_small_test() {
    // No overflow check, 1-int.
    let mut x = bigint(vec![5]);
    x.imul_small(7);
    assert_eq!(x.data(), vec![35]);

    // No overflow check, 2-ints.
    let mut x = Bigint::from_u64(0x4000000040000);
    x.imul_small(5);
    assert_eq!(x.data(), vec![0x00140000, 0x140000]);

    // Overflow, 1 carry.
    let mut x = bigint(vec![0x33333334]);
    x.imul_small(5);
    assert_eq!(x.data(), vec![4, 1]);

    // Overflow, 1 carry, internal.
    let mut x = Bigint::from_u64(0x133333334);
    x.imul_small(5);
    assert_eq!(x.data(), vec![4, 6]);

    // Overflow, 2 carries.
    let mut x = Bigint::from_u64(0x3333333333333334);
    x.imul_small(5);
    assert_eq!(x.data(), vec![4, 0, 1]);
}

#[test]
fn math_idiv_small_test() {
    let mut x = bigint(vec![4]);
    assert_eq!(x.idiv_small(7), 4);
    assert_eq!(x.data(), vec![]);

    let mut x = bigint(vec![3]);
    assert_eq!(x.idiv_small(7), 3);
    assert_eq!(x.data(), vec![]);

    // Check roundup, odd, halfway
    let mut x = bigint(vec![15]);
    assert_eq!(x.idiv_small(10), 5);
    assert_eq!(x.data(), vec![1]);

    // Check 1 carry.
    let mut x = Bigint::from_u64(0x133333334);
    assert_eq!(x.idiv_small(5), 1);
    assert_eq!(x.data(), vec![0x3D70A3D7]);

    // Check 2 carries.
    let mut x = Bigint::from_u64(0x3333333333333334);
    assert_eq!(x.idiv_small(5), 4);
    assert_eq!(x.data(), vec![0xD70A3D70, 0xA3D70A3]);
}

#[test]
fn ipow_tes() {
    let x = bigint(vec![5]);
    assert_eq!(pow(&x.data(), 2), [25]);
    assert_eq!(pow(&x.data(), 15), [452807053, 7]);
    assert_eq!(pow(&x.data(), 16), [2264035265, 35]);
    assert_eq!(pow(&x.data(), 17), [2730241733, 177]);
    assert_eq!(pow(&x.data(), 302), [2443090281, 2149694430, 2297493928, 1584384001, 1279504719, 1930002239, 3312868939, 3735173465, 3523274756, 2025818732, 1641675015, 2431239749, 4292780461, 3719612855, 4174476133, 3296847770, 2677357556, 638848153, 2198928114, 3285049351, 2159526706, 626302612]);
}

// LARGE OPS

#[test]
fn iadd_large_test() {
    // Overflow, both single values
    let mut x = bigint(vec![4294967295]);
    let y = bigint(vec![5]);
    x.iadd_large(&y);
    assert_eq!(x.data(), vec![4, 1]);

    // No overflow, single value
    let mut x = bigint(vec![5]);
    let y = bigint(vec![7]);
    x.iadd_large(&y);
    assert_eq!(x.data(), vec![12]);

    // Single carry, internal overflow
    let mut x = Bigint::from_u64(0x80000000FFFFFFFF);
    let y = bigint(vec![7]);
    x.iadd_large(&y);
    assert_eq!(x.data(), vec![6, 0x80000001]);

    // 1st overflows, 2nd doesn't.
    let mut x = Bigint::from_u64(0x7FFFFFFFFFFFFFFF);
    let y = Bigint::from_u64(0x7FFFFFFFFFFFFFFF);
    x.iadd_large(&y);
    assert_eq!(x.data(), vec![0xFFFFFFFE, 0xFFFFFFFF]);

    // Both overflow.
    let mut x = Bigint::from_u64(0x8FFFFFFFFFFFFFFF);
    let y = Bigint::from_u64(0x7FFFFFFFFFFFFFFF);
    x.iadd_large(&y);
    assert_eq!(x.data(), vec![0xFFFFFFFE, 0x0FFFFFFF, 1]);
}

#[test]
fn isub_large_test() {
    {
        // Overflow, both single values
        let mut x = bigint(vec![4, 1]);
        let y = bigint(vec![5]);
        x.isub_large(&y);
        assert_eq!(x.data(), vec![4294967295]);

        // No overflow, single value
        let mut x = bigint(vec![12]);
        let y = bigint(vec![7]);
        x.isub_large(&y);
        assert_eq!(x.data(), vec![5]);

        // Single carry, internal overflow
        let mut x = bigint(vec![6, 0x80000001]);
        let y = bigint(vec![7]);
        x.isub_large(&y);
        assert_eq!(x.data(), vec![0xFFFFFFFF, 0x80000000]);

        // Zeros out.
        let mut x = bigint(vec![0xFFFFFFFF, 0x7FFFFFFF]);
        let y = bigint(vec![0xFFFFFFFF, 0x7FFFFFFF]);
        x.isub_large(&y);
        assert_eq!(x.data(), vec![]);

        // 1st overflows, 2nd doesn't.
        let mut x = bigint(vec![0xFFFFFFFE, 0x80000000]);
        let y = bigint(vec![0xFFFFFFFF, 0x7FFFFFFF]);
        x.isub_large(&y);
        assert_eq!(x.data(), vec![0xFFFFFFFF]);
    }
}

#[test]
fn imul_large_test() {
    // Test by empty
    let mut x = bigint(vec![0xFFFFFFFF]);
    let y = bigint(vec![]);
    x.imul_large(&y);
    assert_eq!(x.data(), vec![]);

    // Simple case
    let mut x = bigint(vec![0xFFFFFFFF]);
    let y = bigint(vec![5]);
    x.imul_large(&y);
    assert_eq!(x.data(), vec![0xFFFFFFFB, 0x4]);

    // Large u32, but still just as easy.
    let mut x = bigint(vec![0xFFFFFFFF]);
    let y = bigint(vec![0xFFFFFFFE]);
    x.imul_large(&y);
    assert_eq!(x.data(), vec![0x2, 0xFFFFFFFD]);

    // Let's multiply two large values together
    let mut x = bigint(vec![0xFFFFFFFE, 0x0FFFFFFF, 1]);
    let y = bigint(vec![0x99999999, 0x99999999, 0xCCCD9999, 0xCCCC]);
    x.imul_large(&y);
    assert_eq!(x.data(), vec![0xCCCCCCCE, 0x5CCCCCCC, 0x9997FFFF, 0x33319999, 0x999A7333, 0xD999]);
}

#[test]
fn imul_karatsuba_mul_test() {
    // Test cases triggered to use `karatsuba_mul`.
    let mut x = bigint(vec![1, 2, 3, 4, 5, 6, 7, 8, 9, 10, 11, 12, 13, 14, 15, 16]);
    let y = bigint(vec![4, 5, 6, 7, 8, 9, 10, 11, 12, 13, 14, 15, 16, 17, 18, 19]);
    x.imul_large(&y);
    assert_eq!(x.data(), vec![4, 13, 28, 50, 80, 119, 168, 228, 300, 385, 484, 598, 728, 875, 1040, 1224, 1340, 1435, 1508, 1558, 1584, 1585, 1560, 1508, 1428, 1319, 1180, 1010, 808, 573, 304]);

    // Test cases to use karatsuba_uneven_mul
    let mut x: Vec<u32> = vec![1, 2, 3, 4, 5, 6, 7, 8, 9, 10, 11, 12, 13, 14, 15, 16];
    let y: Vec<u32> = vec![4, 5, 6, 7, 8, 9, 10, 11, 12, 13, 14, 15, 16, 17, 18, 19, 20, 21, 22, 23, 24, 25, 26, 27, 28, 29, 30, 31, 32, 33, 34, 35, 36, 37];
    large::imul(&mut x, &y);
    assert_eq!(x, vec![4, 13, 28, 50, 80, 119, 168, 228, 300, 385, 484, 598, 728, 875, 1040, 1224, 1360, 1496, 1632, 1768, 1904, 2040, 2176, 2312, 2448, 2584, 2720, 2856, 2992, 3128, 3264, 3400, 3536, 3672, 3770, 3829, 3848, 3826, 3762, 3655, 3504, 3308, 3066, 2777, 2440, 2054, 1618, 1131, 592]);
}

#[test]
fn idiv_large_test() {
    // Simple case.
    let mut x = bigint(vec![0xFFFFFFFF]);
    let y = bigint(vec![5]);
    let rem = x.idiv_large(&y);
    assert_eq!(x.data(), vec![0x33333333]);
    assert_eq!(rem.data(), vec![0]);

    // Two integer case
    let mut x = bigint(vec![0x2, 0xFFFFFFFF]);
    let y = bigint(vec![0xFFFFFFFE]);
    let rem = x.idiv_large(&y);
    assert_eq!(x.data(), vec![1, 1]);
    assert_eq!(rem.data(), vec![4]);

    // Larger large case
    let mut x = bigint(vec![0xCCCCCCCF, 0x5CCCCCCC, 0x9997FFFF, 0x33319999, 0x999A7333, 0xD999]);
    let y = bigint(vec![0x99999999, 0x99999999, 0xCCCD9999, 0xCCCC]);
    let rem = x.idiv_large(&y);
    assert_eq!(x.data(), vec![0xFFFFFFFE, 0x0FFFFFFF, 1]);
    assert_eq!(rem.data(), vec![1]);

    // Extremely large cases, examples from Karatsuba multiplication.
    let mut x = bigint(vec![4, 13, 29, 50, 80, 119, 168, 228, 300, 385, 484, 598, 728, 875, 1040, 1224, 1340, 1435, 1508, 1558, 1584, 1585, 1560, 1508, 1428, 1319, 1180, 1010, 808, 573, 304]);
    let y = bigint(vec![4, 5, 6, 7, 8, 9, 10, 11, 12, 13, 14, 15, 16, 17, 18, 19]);
    let rem = x.idiv_large(&y);
    assert_eq!(x.data(), vec![1, 2, 3, 4, 5, 6, 7, 8, 9, 10, 11, 12, 13, 14, 15, 16]);
    assert_eq!(rem.data(), vec![0, 0, 1]);
}

#[test]
fn quorem_test() {
    {
        let mut x = Bigint::from_u128(42535295865117307932921825928971026432);
        let y = Bigint::from_u128(17218479456385750618067377696052635483);
        assert_eq!(x.quorem(&y), 2);
        assert_eq!(x.data(), [1873752394, 3049207402, 3024501058, 102215382]);
    }
}


#[test]
fn bigint_copy_ops_test() {
    let x = bigint(vec![0xFFFF_FFFF, 1]);
    // Each operation leaves its operand as it was.
    assert_eq!(x.add_small(1).data(), vec![0, 2]);
    assert_eq!(x.sub_small(0xFFFF_FFFF).data(), vec![0, 1]);
    assert_eq!(x.mul_small(2).data(), vec![0xFFFF_FFFE, 3]);
    let (q, r) = x.div_small(3);
    assert_eq!(q.data(), vec![0xAAAA_AAAA]);
    assert_eq!(r, 1);
    assert_eq!(x.data(), vec![0xFFFF_FFFF, 1]);

    let y = bigint(vec![1, 1]);
    assert_eq!(x.add_large(&y).data(), vec![0, 3]);
    assert_eq!(x.sub_large(&y).data(), vec![0xFFFF_FFFE]);
    assert_eq!(x.mul_large(&y).data(), vec![0xFFFF_FFFF, 0, 2]);
    let (q, r) = x.div_large(&y);
    assert_eq!(q.data(), vec![1]);
    assert_eq!(r.data(), vec![0xFFFF_FFFE]);
    assert_eq!(x.data(), vec![0xFFFF_FFFF, 1]);
}

#[test]
fn mul_div_power_test() {
    // 3 * 10^12 = 0x2BA_7DEF_3000
    assert_eq!(mul_power(&[3], 10, 12), vec![0x7DEF_3000, 0x2BA]);
    assert_eq!(div_power(&[0x7DEF_3000, 0x2BA], 10, 12, false), vec![3]);
    // Rounding: 3.6 * 10^12 / 10^12 rounds up to 4 only when asked to.
    assert_eq!(div_power(&[0x30B8_A000, 0x346], 10, 12, false), vec![3]);
    assert_eq!(div_power(&[0x30B8_A000, 0x346], 10, 12, true), vec![4]);
    assert_eq!(mul_power(&[], 7, 5), Vec::<u32>::new());
}

fn small_ishr(data: Vec<u32>, n: usize) -> (Vec<u32>, bool) {
    let mut x = data;
    let roundup = lexical_core::math::small::ishr(&mut x, n);
    (x, roundup)
}

#[test]
fn ishr_whole_limbs_roundup_test() {
    // Only zero bits shifted out: no rounding.
    assert_eq!(small_ishr(vec![0, 1], 32), (vec![1], false));
    // Below halfway.
    assert_eq!(small_ishr(vec![1, 1], 32), (vec![1], false));
    // Above halfway.
    assert_eq!(small_ishr(vec![0x8000_0001, 2], 32), (vec![2], true));
    assert_eq!(small_ishr(vec![0, 0x8000_0000, 2], 64), (vec![2], false));
    assert_eq!(small_ishr(vec![1, 0x8000_0000, 2], 64), (vec![2], true));
    // Exactly halfway: ties to even.
    assert_eq!(small_ishr(vec![0x8000_0000, 1], 32), (vec![1], true));
    assert_eq!(small_ishr(vec![0x8000_0000, 2], 32), (vec![2], false));
    // Everything shifted out.
    assert_eq!(small_ishr(vec![0x9000_0000], 32), (vec![], true));
    assert_eq!(small_ishr(vec![0x8000_0000], 32), (vec![], false));
    assert_eq!(small_ishr(vec![5], 64), (vec![], false));
    // No shift, no rounding.
    assert_eq!(small_ishr(vec![3], 0), (vec![3], false));
    // Within a limb, as before.
    assert_eq!(small_ishr(vec![0x18], 4), (vec![1], true));
    assert_eq!(small_ishr(vec![0x28], 4), (vec![2], false));
}

#[test]
fn div_remainder_shape_test() {
    // One-limb divisor: the remainder is one limb, zero included.
    let (q, r) = large::div(&[0xFFFF_FFFF], &[5]);
    assert_eq!((q, r), (vec![0x3333_3333], vec![0]));
    // Dividend shorter than the divisor: the remainder is the dividend as is.
    let (q, r) = large::div(&[1, 0], &[0, 0, 1]);
    assert_eq!((q, r), (vec![], vec![1, 0]));
    // Longer divisors leave a normalized remainder.
    let (q, r) = large::div(&[0, 0, 1], &[0, 0x4000_0000]);
    assert_eq!((q, r), (vec![4], vec![]));
}

#[test]
fn shl_bits_length_test() {
    // One more limb exactly when the top limb's high bits are non-zero.
    assert_eq!(lexical_core::math::small::shl_bits(&[1, 0x8000_0000], 1), vec![2, 0, 1]);
    assert_eq!(lexical_core::math::small::shl_bits(&[1, 0x4000_0000], 1), vec![2, 0x8000_0000]);
    assert_eq!(lexical_core::math::small::shl_bits(&[1, 0], 1), vec![2, 0]);
    assert_eq!(lexical_core::math::small::shl_bits(&[], 5), Vec::<u32>::new());
}

#[test]
fn add_sub_small_empty_test() {
    let z = lexical_core::math::small::add(&[], 0);
    assert_eq!(z, vec![0]);
    assert_eq!(lexical_core::math::small::sub(&z, 0), Vec::<u32>::new());
}

#[test]
fn pow_normalized_test() {
    assert_eq!(pow(&[5], 0), vec![1]);
    assert_eq!(pow(&[], 3), Vec::<u32>::new());
    assert_eq!(pow(&[0x1_0000], 2), vec![0, 1]);
}

#[test]
fn div_top_bit_set_test() {
    // A divisor whose top bit is set needs no normalizing shift.
    assert_eq!(large::div(&[0, 0, 1], &[0, 0x8000_0000]), (vec![2], vec![]));
    assert_eq!(
        large::div(&[0xFFFF_FFFF, 0xFFFF_FFFF, 5, 0x1234_5678], &[1, 0x8000_0000]),
        (vec![0xB, 0x2468_ACF0], vec![0xFFFF_FFF4, 0x5B97_530F])
    );
    let mut x = bigint(vec![0, 0, 1]);
    let rem = x.idiv_large(&bigint(vec![0, 0x8000_0000]));
    assert_eq!(x.data(), vec![2]);
    assert_eq!(rem.data(), Vec::<u32>::new());
}
