use std::cmp::Ordering;
use lexical_core::bigcomp::{b_from_bits, b_from_bits32, halfway_pick};
use lexical_core::bigcomp::{
    bh, fast_compare_digits, slow_compare_digits, slow_halfway_order, slow_ratio,
    slow_ratio_fits_for, slow_scaling_factor, use_fast,
    digit_to_char, integral_binary_factor, Bigint,
};
use lexical_core::cached::ExtendedFloat;

/// `b` of an f64: its mantissa and binary exponent as an extended float.
fn b64(f: f64) -> ExtendedFloat<u64> {
    let bits = f.to_bits();
    let exp = ((bits >> 52) & 0x7FF) as i32;
    let frac = bits & ((1u64 << 52) - 1);
    if exp == 0 {
        ExtendedFloat { mant: frac, exp: -1074 }
    } else {
        ExtendedFloat { mant: frac | (1u64 << 52), exp: exp - 1075 }
    }
}

/// `b` of an f32: its mantissa and binary exponent as an extended float.
fn b32(f: f32) -> ExtendedFloat<u64> {
    let bits = f.to_bits();
    let exp = ((bits >> 23) & 0xFF) as i32;
    let frac = (bits & ((1u32 << 23) - 1)) as u64;
    if exp == 0 {
        ExtendedFloat { mant: frac, exp: -149 }
    } else {
        ExtendedFloat { mant: frac | (1u64 << 23), exp: exp - 150 }
    }
}

fn ef(mant: u64, exp: i32) -> ExtendedFloat<u64> {
    ExtendedFloat { mant, exp }
}

fn big(data: Vec<u32>, exp: i32) -> Bigint {
    Bigint::from_raw_parts(data, exp)
}

fn assert_bigint(x: &Bigint, data: Vec<u32>, exp: i32) {
    assert_eq!(x.data(), data);
    assert_eq!(x.exp(), exp);
}

#[test]
fn bh_test() {
    assert_eq!(bh(b32(1e-45_f32)), ef(3, -150));
    assert_eq!(bh(b64(5e-324_f64)), ef(3, -1075));
    assert_eq!(bh(b32(1_f32)), ef(16777217, -24));
    assert_eq!(bh(b64(1_f64)), ef(9007199254740993, -53));
    assert_eq!(bh(b32(1e38_f32)), ef(19721523, 102));
    assert_eq!(bh(b64(1e308_f64)), ef(10020841800044865, 970));
}

#[test]
fn fast_compare_digits_test() {
        {
            // 2^-1074
            let num = 42535295865117307932921825928971026432;
            let den = 17218479456385750618067377696052635483;

            // Less than halfway, truncated.
            let digits = "247032822920623272088284396434110686";
            assert_eq!(fast_compare_digits(digits.as_bytes(), 10, num, den), Ordering::Less);

            // Greater than halfway.
            let digits = "247032822920623272088284396435110686";
            assert_eq!(fast_compare_digits(digits.as_bytes(), 10, num, den), Ordering::Greater);

            // Less than halfway.
            let digits = "247032822920623272088284396433110686";
            assert_eq!(fast_compare_digits(digits.as_bytes(), 10, num, den), Ordering::Less);

            // 2*2^-1074
            let num = 127605887595351923798765477786913079296;
            let den = 17218479456385750618067377696052635483;

            // Less than halfway, truncated.
            let digits = "741098468761869816264853189302332058";
            assert_eq!(fast_compare_digits(digits.as_bytes(), 10, num, den), Ordering::Less);

            // Greater than halfway.
            let digits = "741098468761869816264853189303332058";
            assert_eq!(fast_compare_digits(digits.as_bytes(), 10, num, den), Ordering::Greater);

            // Less than halfway.
            let digits = "741098468761869816264853189301332058";
            assert_eq!(fast_compare_digits(digits.as_bytes(), 10, num, den), Ordering::Less);

            // 4503599627370496*2^971
            let num = 170141183460469250621153235194464960512;
            let den = 18928834978668395375564025560288424506;

            // Less than halfway, truncated.
            let digits = "898846567431158053656668072130502949";
            assert_eq!(fast_compare_digits(digits.as_bytes(), 10, num, den), Ordering::Less);

            // Greater than halfway.
            let digits = "898846567431158053656668072130602949";
            assert_eq!(fast_compare_digits(digits.as_bytes(), 10, num, den), Ordering::Greater);

            // Less than halfway.
            let digits = "898846567431158053656668072130402949";
            assert_eq!(fast_compare_digits(digits.as_bytes(), 10, num, den), Ordering::Less);
        }
    }

    // SLOW PATH

#[test]
fn slow_scaling_factor_test() {
        {
            assert_bigint(&slow_scaling_factor(10, 0), vec![1], 0);
            assert_bigint(&slow_scaling_factor(10, 20), vec![1977800241, 22204], 20);
            assert_bigint(&slow_scaling_factor(10, 300), vec![2502905297, 773182544, 1122691908, 922368819, 2799959258, 2138784391, 2365897751, 2382789932, 3061508751, 1799019667, 3501640837, 269048281, 2748691596, 1866771432, 2228563347, 475471294, 278892994, 2258936920, 3352132269, 1505791508, 2147965370, 25052104], 300);
        }
    }

#[test]
fn slow_ratio_test() {
        {
            let (num, den) = slow_ratio(10, -324, b64(0f64));
            assert_bigint(&num, vec![1725370368, 1252154597, 1017462556, 675087593, 2805901938, 1401824593, 1124332496, 2380663002, 1612846757, 4128923878, 1492915356, 437569744, 2975325085, 3331531962, 3367627909, 730662168, 2699172281, 1440714968, 2778340312, 690527038, 1297115354, 763425880, 1453089653, 331561842], 312);
            assert_bigint(&den, vec![0, 0, 0, 0, 0, 0, 0, 0, 0, 0, 0, 0, 0, 0, 0, 0, 0, 0, 0, 0, 0, 0, 0, 134217728], 312);

            let (num, den) = slow_ratio(10, -324, b64(5e-324f64));
            assert_bigint(&num, vec![881143808, 3756463792, 3052387668, 2025262779, 4122738518, 4205473780, 3372997488, 2847021710, 543572976, 3796837043, 183778774, 1312709233, 336040663, 1404661296, 1512949137, 2191986506, 3802549547, 27177609, 4040053641, 2071581115, 3891346062, 2290277640, 64301663, 994685527], 312);
            assert_bigint(&den, vec![0, 0, 0, 0, 0, 0, 0, 0, 0, 0, 0, 0, 0, 0, 0, 0, 0, 0, 0, 0, 0, 0, 0, 134217728], 312);

            let (num, den) = slow_ratio(10, 307, b64(8.98846567431158e+307f64));
            assert_bigint(&num, vec![0, 0, 0, 0, 0, 0, 0, 0, 0, 0, 0, 0, 0, 0, 0, 0, 0, 0, 0, 0, 0, 1024, 2147483648], 288);
            assert_bigint(&den, vec![1978138624, 2671552565, 2938166866, 3588566204, 1860064291, 2104472219, 2014975858, 2797301608, 462262832, 318515330, 1101517094, 1738264167, 3721375114, 414401884, 1406861075, 3053102637, 387329537, 2051556775, 1867945454, 3717689914, 1434550525, 1446648206, 238915486], 288);
        }
    }

#[test]
fn slow_compare_digits_test() {
        {
            // 2^-1074
            let num = big(vec![1725370368, 1252154597, 1017462556, 675087593, 2805901938, 1401824593, 1124332496, 2380663002, 1612846757, 4128923878, 1492915356, 437569744, 2975325085, 3331531962, 3367627909, 730662168, 2699172281, 1440714968, 2778340312, 690527038, 1297115354, 763425880, 1453089653, 331561842], 312);
            let den = big(vec![0, 0, 0, 0, 0, 0, 0, 0, 0, 0, 0, 0, 0, 0, 0, 0, 0, 0, 0, 0, 0, 0, 0, 134217728], 312);

            // Below halfway
            let digits = "24703282292062327208828439643411068618252990130716238221279284125033775363510437593264991818081799618989828234772285886546332835517796989819938739800539093906315035659515570226392290858392449105184435931802849936536152500319370457678249219365623669863658480757001585769269903706311928279558551332927834338409351978015531246597263579574622766465272827220056374006485499977096599470454020828166226237857393450736339007967761930577506740176324673600968951340535537458516661134223766678604162159680461914467291840300530057530849048765391711386591646239524912623653881879636239373280423891018672348497668235089863388587925628302755995657524455507255189313690836254779186948667994968324049705821028513185451396213837722826145437693412532098591327667236328124999";
            assert_eq!(slow_compare_digits(digits.as_bytes(), 10, num.clone(), den.clone()), Ordering::Less);

            // Exactly halfway.
            let digits = "24703282292062327208828439643411068618252990130716238221279284125033775363510437593264991818081799618989828234772285886546332835517796989819938739800539093906315035659515570226392290858392449105184435931802849936536152500319370457678249219365623669863658480757001585769269903706311928279558551332927834338409351978015531246597263579574622766465272827220056374006485499977096599470454020828166226237857393450736339007967761930577506740176324673600968951340535537458516661134223766678604162159680461914467291840300530057530849048765391711386591646239524912623653881879636239373280423891018672348497668235089863388587925628302755995657524455507255189313690836254779186948667994968324049705821028513185451396213837722826145437693412532098591327667236328125";
            assert_eq!(slow_compare_digits(digits.as_bytes(), 10, num.clone(), den.clone()), Ordering::Equal);

            // Above halfway.
            let digits = "24703282292062327208828439643411068618252990130716238221279284125033775363510437593264991818081799618989828234772285886546332835517796989819938739800539093906315035659515570226392290858392449105184435931802849936536152500319370457678249219365623669863658480757001585769269903706311928279558551332927834338409351978015531246597263579574622766465272827220056374006485499977096599470454020828166226237857393450736339007967761930577506740176324673600968951340535537458516661134223766678604162159680461914467291840300530057530849048765391711386591646239524912623653881879636239373280423891018672348497668235089863388587925628302755995657524455507255189313690836254779186948667994968324049705821028513185451396213837722826145437693412532098591327667236328125001";
            assert_eq!(slow_compare_digits(digits.as_bytes(), 10, num.clone(), den.clone()), Ordering::Greater);

            // 2*2^-1074
            let num = big(vec![881143808, 3756463792, 3052387668, 2025262779, 4122738518, 4205473780, 3372997488, 2847021710, 543572976, 3796837043, 183778774, 1312709233, 336040663, 1404661296, 1512949137, 2191986506, 3802549547, 27177609, 4040053641, 2071581115, 3891346062, 2290277640, 64301663, 994685527], 312);
            let den = big(vec![0, 0, 0, 0, 0, 0, 0, 0, 0, 0, 0, 0, 0, 0, 0, 0, 0, 0, 0, 0, 0, 0, 0, 134217728], 312);

            // Below halfway
            let digits = "74109846876186981626485318930233205854758970392148714663837852375101326090531312779794975454245398856969484704316857659638998506553390969459816219401617281718945106978546710679176872575177347315553307795408549809608457500958111373034747658096871009590975442271004757307809711118935784838675653998783503015228055934046593739791790738723868299395818481660169122019456499931289798411362062484498678713572180352209017023903285791732520220528974020802906854021606612375549983402671300035812486479041385743401875520901590172592547146296175134159774938718574737870961645638908718119841271673056017045493004705269590165763776884908267986972573366521765567941072508764337560846003984904972149117463085539556354188641513168478436313080237596295773983001708984374999";
            assert_eq!(slow_compare_digits(digits.as_bytes(), 10, num.clone(), den.clone()), Ordering::Less);

            // Exactly halfway.
            let digits = "74109846876186981626485318930233205854758970392148714663837852375101326090531312779794975454245398856969484704316857659638998506553390969459816219401617281718945106978546710679176872575177347315553307795408549809608457500958111373034747658096871009590975442271004757307809711118935784838675653998783503015228055934046593739791790738723868299395818481660169122019456499931289798411362062484498678713572180352209017023903285791732520220528974020802906854021606612375549983402671300035812486479041385743401875520901590172592547146296175134159774938718574737870961645638908718119841271673056017045493004705269590165763776884908267986972573366521765567941072508764337560846003984904972149117463085539556354188641513168478436313080237596295773983001708984375";
            assert_eq!(slow_compare_digits(digits.as_bytes(), 10, num.clone(), den.clone()), Ordering::Equal);

            // Above halfway.
            let digits = "74109846876186981626485318930233205854758970392148714663837852375101326090531312779794975454245398856969484704316857659638998506553390969459816219401617281718945106978546710679176872575177347315553307795408549809608457500958111373034747658096871009590975442271004757307809711118935784838675653998783503015228055934046593739791790738723868299395818481660169122019456499931289798411362062484498678713572180352209017023903285791732520220528974020802906854021606612375549983402671300035812486479041385743401875520901590172592547146296175134159774938718574737870961645638908718119841271673056017045493004705269590165763776884908267986972573366521765567941072508764337560846003984904972149117463085539556354188641513168478436313080237596295773983001708984375001";
            assert_eq!(slow_compare_digits(digits.as_bytes(), 10, num.clone(), den.clone()), Ordering::Greater);

            // 4503599627370496*2^971
            let num = big(vec![0, 0, 0, 0, 0, 0, 0, 0, 0, 0, 0, 0, 0, 0, 0, 0, 0, 0, 0, 0, 0, 1024, 2147483648], 288);
            let den = big(vec![1978138624, 2671552565, 2938166866, 3588566204, 1860064291, 2104472219, 2014975858, 2797301608, 462262832, 318515330, 1101517094, 1738264167, 3721375114, 414401884, 1406861075, 3053102637, 387329537, 2051556775, 1867945454, 3717689914, 1434550525, 1446648206, 238915486], 288);

            // Below halfway
            let digits = "89884656743115805365666807213050294962762414131308158973971342756154045415486693752413698006024096935349884403114202125541629105369684531108613657287705365884742938136589844238179474556051429647415148697857438797685859063890851407391008830874765563025951597582513936655578157348020066364210154316532161708031999";
            assert_eq!(slow_compare_digits(digits.as_bytes(), 10, num.clone(), den.clone()), Ordering::Less);

            // Exactly halfway.
            let digits = "89884656743115805365666807213050294962762414131308158973971342756154045415486693752413698006024096935349884403114202125541629105369684531108613657287705365884742938136589844238179474556051429647415148697857438797685859063890851407391008830874765563025951597582513936655578157348020066364210154316532161708032";
            assert_eq!(slow_compare_digits(digits.as_bytes(), 10, num.clone(), den.clone()), Ordering::Equal);

            // Above halfway.
            let digits = "89884656743115805365666807213050294962762414131308158973971342756154045415486693752413698006024096935349884403114202125541629105369684531108613657287705365884742938136589844238179474556051429648741514697857438797685859063890851407391008830874765563025951597582513936655578157348020066364210154316532161708032001";
            assert_eq!(slow_compare_digits(digits.as_bytes(), 10, num.clone(), den.clone()), Ordering::Greater);
        }
    }

#[test]
fn use_fast_test() {
    assert!(use_fast(10, 36));
    assert!(!use_fast(10, 37));
    assert!(use_fast(3, 78));
    assert!(!use_fast(3, 79));
    assert!(use_fast(36, 22));
    assert!(!use_fast(36, 23));
}

#[test]
fn digit_to_char_test() {
    assert_eq!(digit_to_char(0), b'0');
    assert_eq!(digit_to_char(9), b'9');
    assert_eq!(digit_to_char(10), b'A');
    assert_eq!(digit_to_char(35), b'Z');
}

#[test]
fn integral_binary_factor_test() {
    assert_eq!(integral_binary_factor(3), 2);
    assert_eq!(integral_binary_factor(10), 4);
    assert_eq!(integral_binary_factor(16), 4);
    assert_eq!(integral_binary_factor(17), 5);
    assert_eq!(integral_binary_factor(36), 6);
}

#[test]
fn fast_compare_digits_trailing_test() {
    // 1/4 in base 10 is exactly 0.25 (digits "025" as 0.d1d2...: num 1, den 4 -> "0" then "2", "5").
    assert_eq!(fast_compare_digits(b"025", 10, 1, 4), Ordering::Equal);
    assert_eq!(fast_compare_digits(b"02500", 10, 1, 4), Ordering::Equal);
    assert_eq!(fast_compare_digits(b"02501", 10, 1, 4), Ordering::Greater);
    assert_eq!(fast_compare_digits(b"02", 10, 1, 4), Ordering::Less);
    assert_eq!(fast_compare_digits(b"", 10, 0, 4), Ordering::Equal);
}

#[test]
fn slow_halfway_order_test() {
    // 2^-1074: below, at and above the halfway point b+h.
    let below = b"24703282292062327208828439643411068618252990130716238221279284125033775363510437593264991818081799618989828234772285886546332835517796989819938739800539093906315035659515570226392290858392449105184435931802849936536152500319370457678249219365623669863658480757001585769269903706311928279558551332927834338409351978015531246597263579574622766465272827220056374006485499977096599470454020828166226237857393450736339007967761930577506740176324673600968951340535537458516661134223766678604162159680461914467291840300530057530849048765391711386591646239524912623653881879636239373280423891018672348497668235089863388587925628302755995657524455507255189313690836254779186948667994968324049705821028513185451396213837722826145437693412532098591327667236328124999";
    let half = b"24703282292062327208828439643411068618252990130716238221279284125033775363510437593264991818081799618989828234772285886546332835517796989819938739800539093906315035659515570226392290858392449105184435931802849936536152500319370457678249219365623669863658480757001585769269903706311928279558551332927834338409351978015531246597263579574622766465272827220056374006485499977096599470454020828166226237857393450736339007967761930577506740176324673600968951340535537458516661134223766678604162159680461914467291840300530057530849048765391711386591646239524912623653881879636239373280423891018672348497668235089863388587925628302755995657524455507255189313690836254779186948667994968324049705821028513185451396213837722826145437693412532098591327667236328125";
    let above = b"24703282292062327208828439643411068618252990130716238221279284125033775363510437593264991818081799618989828234772285886546332835517796989819938739800539093906315035659515570226392290858392449105184435931802849936536152500319370457678249219365623669863658480757001585769269903706311928279558551332927834338409351978015531246597263579574622766465272827220056374006485499977096599470454020828166226237857393450736339007967761930577506740176324673600968951340535537458516661134223766678604162159680461914467291840300530057530849048765391711386591646239524912623653881879636239373280423891018672348497668235089863388587925628302755995657524455507255189313690836254779186948667994968324049705821028513185451396213837722826145437693412532098591327667236328125001";
    assert!(slow_ratio_fits_for(10, -324, b64(0f64)));
    assert_eq!(slow_halfway_order(below, 10, -324, b64(0f64)), Some(Ordering::Less));
    assert_eq!(slow_halfway_order(half, 10, -324, b64(0f64)), Some(Ordering::Equal));
    assert_eq!(slow_halfway_order(above, 10, -324, b64(0f64)), Some(Ordering::Greater));
    // The power of the base outgrows the 36 limbs.
    assert!(!slow_ratio_fits_for(10, 2000, b64(1f64)));
    assert_eq!(slow_halfway_order(b"1", 10, 2000, b64(1f64)), None);
    assert!(!slow_ratio_fits_for(3, -800, b64(1f64)));
    // Fits near the top of the range too.
    assert!(slow_ratio_fits_for(10, 307, b64(8.98846567431158e+307f64)));
    // b+h = 123 is not below base^(sci_exponent + 1): num >= base * den.
    assert_eq!(slow_halfway_order(b"5", 10, 0, b64(123.0f64)), None);
}

#[test]
fn b_from_bits_test() {
    for f in [0f64, 5e-324, 1.0, 0.1, 1e300, f64::MAX, 2.2250738585072014e-308] {
        assert_eq!(b_from_bits(f.to_bits()), b64(f));
    }
    for f in [0f32, 1e-45, 1.0, 0.1, 1e30, f32::MAX] {
        assert_eq!(b_from_bits32(f.to_bits()), b32(f));
    }
    // 1.0: hidden bit set, exponent of the lowest bit.
    assert_eq!(b_from_bits(1f64.to_bits()), ExtendedFloat { mant: 1 << 52, exp: -52 });
}

#[test]
fn halfway_pick_test() {
    assert_eq!(halfway_pick(Ordering::Greater, 10), 11);
    assert_eq!(halfway_pick(Ordering::Less, 10), 10);
    assert_eq!(halfway_pick(Ordering::Equal, 10), 10);
    assert_eq!(halfway_pick(Ordering::Equal, 11), 12);
}
