//! Precalculated small powers for 32-bit limbs: every power of the base
//! that fits in a `u32`.

use vstd::prelude::*;
use crate::limbs::powi;

verus! {
/// Small powers (u32) for base2 operations.
pub const POW2: [u32; 32] = [1, 2, 4, 8, 16, 32, 64, 128, 256, 512, 1024, 2048, 4096, 8192, 16384, 32768, 65536, 131072, 262144, 524288, 1048576, 2097152, 4194304, 8388608, 16777216, 33554432, 67108864, 134217728, 268435456, 536870912, 1073741824, 2147483648];
/// Small powers (u32) for base3 operations.
pub const POW3: [u32; 21] = [1, 3, 9, 27, 81, 243, 729, 2187, 6561, 19683, 59049, 177147, 531441, 1594323, 4782969, 14348907, 43046721, 129140163, 387420489, 1162261467, 3486784401];
/// Small powers (u32) for base4 operations.
pub const POW4: [u32; 16] = [1, 4, 16, 64, 256, 1024, 4096, 16384, 65536, 262144, 1048576, 4194304, 16777216, 67108864, 268435456, 1073741824];
/// Small powers (u32) for base5 operations.
pub const POW5: [u32; 14] = [1, 5, 25, 125, 625, 3125, 15625, 78125, 390625, 1953125, 9765625, 48828125, 244140625, 1220703125];
/// Small powers (u32) for base6 operations.
pub const POW6: [u32; 13] = [1, 6, 36, 216, 1296, 7776, 46656, 279936, 1679616, 10077696, 60466176, 362797056, 2176782336];
/// Small powers (u32) for base7 operations.
pub const POW7: [u32; 12] = [1, 7, 49, 343, 2401, 16807, 117649, 823543, 5764801, 40353607, 282475249, 1977326743];
/// Small powers (u32) for base8 operations.
pub const POW8: [u32; 11] = [1, 8, 64, 512, 4096, 32768, 262144, 2097152, 16777216, 134217728, 1073741824];
/// Small powers (u32) for base9 operations.
pub const POW9: [u32; 11] = [1, 9, 81, 729, 6561, 59049, 531441, 4782969, 43046721, 387420489, 3486784401];
/// Small powers (u32) for base10 operations.
pub const POW10: [u32; 10] = [1, 10, 100, 1000, 10000, 100000, 1000000, 10000000, 100000000, 1000000000];
/// Small powers (u32) for base11 operations.
pub const POW11: [u32; 10] = [1, 11, 121, 1331, 14641, 161051, 1771561, 19487171, 214358881, 2357947691];
/// Small powers (u32) for base12 operations.
pub const POW12: [u32; 9] = [1, 12, 144, 1728, 20736, 248832, 2985984, 35831808, 429981696];
/// Small powers (u32) for base13 operations.
pub const POW13: [u32; 9] = [1, 13, 169, 2197, 28561, 371293, 4826809, 62748517, 815730721];
/// Small powers (u32) for base14 operations.
pub const POW14: [u32; 9] = [1, 14, 196, 2744, 38416, 537824, 7529536, 105413504, 1475789056];
/// Small powers (u32) for base15 operations.
pub const POW15: [u32; 9] = [1, 15, 225, 3375, 50625, 759375, 11390625, 170859375, 2562890625];
/// Small powers (u32) for base16 operations.
pub const POW16: [u32; 8] = [1, 16, 256, 4096, 65536, 1048576, 16777216, 268435456];
/// Small powers (u32) for base17 operations.
pub const POW17: [u32; 8] = [1, 17, 289, 4913, 83521, 1419857, 24137569, 410338673];
/// Small powers (u32) for base18 operations.
pub const POW18: [u32; 8] = [1, 18, 324, 5832, 104976, 1889568, 34012224, 612220032];
/// Small powers (u32) for base19 operations.
pub const POW19: [u32; 8] = [1, 19, 361, 6859, 130321, 2476099, 47045881, 893871739];
/// Small powers (u32) for base20 operations.
pub const POW20: [u32; 8] = [1, 20, 400, 8000, 160000, 3200000, 64000000, 1280000000];
/// Small powers (u32) for base21 operations.
pub const POW21: [u32; 8] = [1, 21, 441, 9261, 194481, 4084101, 85766121, 1801088541];
/// Small powers (u32) for base22 operations.
pub const POW22: [u32; 8] = [1, 22, 484, 10648, 234256, 5153632, 113379904, 2494357888];
/// Small powers (u32) for base23 operations.
pub const POW23: [u32; 8] = [1, 23, 529, 12167, 279841, 6436343, 148035889, 3404825447];
/// Small powers (u32) for base24 operations.
pub const POW24: [u32; 7] = [1, 24, 576, 13824, 331776, 7962624, 191102976];
/// Small powers (u32) for base25 operations.
pub const POW25: [u32; 7] = [1, 25, 625, 15625, 390625, 9765625, 244140625];
/// Small powers (u32) for base26 operations.
pub const POW26: [u32; 7] = [1, 26, 676, 17576, 456976, 11881376, 308915776];
/// Small powers (u32) for base27 operations.
pub const POW27: [u32; 7] = [1, 27, 729, 19683, 531441, 14348907, 387420489];
/// Small powers (u32) for base28 operations.
pub const POW28: [u32; 7] = [1, 28, 784, 21952, 614656, 17210368, 481890304];
/// Small powers (u32) for base29 operations.
pub const POW29: [u32; 7] = [1, 29, 841, 24389, 707281, 20511149, 594823321];
/// Small powers (u32) for base30 operations.
pub const POW30: [u32; 7] = [1, 30, 900, 27000, 810000, 24300000, 729000000];
/// Small powers (u32) for base31 operations.
pub const POW31: [u32; 7] = [1, 31, 961, 29791, 923521, 28629151, 887503681];
/// Small powers (u32) for base32 operations.
pub const POW32: [u32; 7] = [1, 32, 1024, 32768, 1048576, 33554432, 1073741824];
/// Small powers (u32) for base33 operations.
pub const POW33: [u32; 7] = [1, 33, 1089, 35937, 1185921, 39135393, 1291467969];
/// Small powers (u32) for base34 operations.
pub const POW34: [u32; 7] = [1, 34, 1156, 39304, 1336336, 45435424, 1544804416];
/// Small powers (u32) for base35 operations.
pub const POW35: [u32; 7] = [1, 35, 1225, 42875, 1500625, 52521875, 1838265625];
/// Small powers (u32) for base36 operations.
pub const POW36: [u32; 7] = [1, 36, 1296, 46656, 1679616, 60466176, 2176782336];
/// The number of powers of `base` that fit in a `u32`.
pub open spec fn small_powers_len(base: nat) -> nat {
    if base == 2 {
        32
    } else if base == 3 {
        21
    } else if base == 4 {
        16
    } else if base == 5 {
        14
    } else if base == 6 {
        13
    } else if base == 7 {
        12
    } else if base == 8 {
        11
    } else if base == 9 {
        11
    } else if base == 10 {
        10
    } else if base == 11 {
        10
    } else if base == 12 {
        9
    } else if base == 13 {
        9
    } else if base == 14 {
        9
    } else if base == 15 {
        9
    } else if base == 16 {
        8
    } else if base == 17 {
        8
    } else if base == 18 {
        8
    } else if base == 19 {
        8
    } else if base == 20 {
        8
    } else if base == 21 {
        8
    } else if base == 22 {
        8
    } else if base == 23 {
        8
    } else if base == 24 {
        7
    } else if base == 25 {
        7
    } else if base == 26 {
        7
    } else if base == 27 {
        7
    } else if base == 28 {
        7
    } else if base == 29 {
        7
    } else if base == 30 {
        7
    } else if base == 31 {
        7
    } else if base == 32 {
        7
    } else if base == 33 {
        7
    } else if base == 34 {
        7
    } else if base == 35 {
        7
    } else if base == 36 {
        7
    } else {
        0
    }
}

/// The table of small powers of `base`: `base^i` for every `i` such that
/// the power fits in a `u32`.
pub open spec fn is_small_powers_table(base: nat, t: Seq<u32>) -> bool {
    &&& t.len() >= 2
    &&& forall|i: int| 0 <= i < t.len() ==> #[trigger] t[i] == powi(base, i as nat)
    &&& powi(base, t.len()) > u32::MAX
}
proof fn lemma_pow2_table()
    ensures
        is_small_powers_table(2, POW2@),
{
    reveal_with_fuel(powi, 34);
    assert(POW2@ =~= seq![1u32, 2u32, 4u32, 8u32, 16u32, 32u32, 64u32, 128u32, 256u32, 512u32, 1024u32, 2048u32, 4096u32, 8192u32, 16384u32, 32768u32, 65536u32, 131072u32, 262144u32, 524288u32, 1048576u32, 2097152u32, 4194304u32, 8388608u32, 16777216u32, 33554432u32, 67108864u32, 134217728u32, 268435456u32, 536870912u32, 1073741824u32, 2147483648u32]);
    assert(powi(2, 32) == 4294967296);
}
proof fn lemma_pow3_table()
    ensures
        is_small_powers_table(3, POW3@),
{
    reveal_with_fuel(powi, 23);
    assert(POW3@ =~= seq![1u32, 3u32, 9u32, 27u32, 81u32, 243u32, 729u32, 2187u32, 6561u32, 19683u32, 59049u32, 177147u32, 531441u32, 1594323u32, 4782969u32, 14348907u32, 43046721u32, 129140163u32, 387420489u32, 1162261467u32, 3486784401u32]);
    assert(powi(3, 21) == 10460353203);
}
proof fn lemma_pow4_table()
    ensures
        is_small_powers_table(4, POW4@),
{
    reveal_with_fuel(powi, 18);
    assert(POW4@ =~= seq![1u32, 4u32, 16u32, 64u32, 256u32, 1024u32, 4096u32, 16384u32, 65536u32, 262144u32, 1048576u32, 4194304u32, 16777216u32, 67108864u32, 268435456u32, 1073741824u32]);
    assert(powi(4, 16) == 4294967296);
}
proof fn lemma_pow5_table()
    ensures
        is_small_powers_table(5, POW5@),
{
    reveal_with_fuel(powi, 16);
    assert(POW5@ =~= seq![1u32, 5u32, 25u32, 125u32, 625u32, 3125u32, 15625u32, 78125u32, 390625u32, 1953125u32, 9765625u32, 48828125u32, 244140625u32, 1220703125u32]);
    assert(powi(5, 14) == 6103515625);
}
proof fn lemma_pow6_table()
    ensures
        is_small_powers_table(6, POW6@),
{
    reveal_with_fuel(powi, 15);
    assert(POW6@ =~= seq![1u32, 6u32, 36u32, 216u32, 1296u32, 7776u32, 46656u32, 279936u32, 1679616u32, 10077696u32, 60466176u32, 362797056u32, 2176782336u32]);
    assert(powi(6, 13) == 13060694016);
}
proof fn lemma_pow7_table()
    ensures
        is_small_powers_table(7, POW7@),
{
    reveal_with_fuel(powi, 14);
    assert(POW7@ =~= seq![1u32, 7u32, 49u32, 343u32, 2401u32, 16807u32, 117649u32, 823543u32, 5764801u32, 40353607u32, 282475249u32, 1977326743u32]);
    assert(powi(7, 12) == 13841287201);
}
proof fn lemma_pow8_table()
    ensures
        is_small_powers_table(8, POW8@),
{
    reveal_with_fuel(powi, 13);
    assert(POW8@ =~= seq![1u32, 8u32, 64u32, 512u32, 4096u32, 32768u32, 262144u32, 2097152u32, 16777216u32, 134217728u32, 1073741824u32]);
    assert(powi(8, 11) == 8589934592);
}
proof fn lemma_pow9_table()
    ensures
        is_small_powers_table(9, POW9@),
{
    reveal_with_fuel(powi, 13);
    assert(POW9@ =~= seq![1u32, 9u32, 81u32, 729u32, 6561u32, 59049u32, 531441u32, 4782969u32, 43046721u32, 387420489u32, 3486784401u32]);
    assert(powi(9, 11) == 31381059609);
}
proof fn lemma_pow10_table()
    ensures
        is_small_powers_table(10, POW10@),
{
    reveal_with_fuel(powi, 12);
    assert(POW10@ =~= seq![1u32, 10u32, 100u32, 1000u32, 10000u32, 100000u32, 1000000u32, 10000000u32, 100000000u32, 1000000000u32]);
    assert(powi(10, 10) == 10000000000);
}
proof fn lemma_pow11_table()
    ensures
        is_small_powers_table(11, POW11@),
{
    reveal_with_fuel(powi, 12);
    assert(POW11@ =~= seq![1u32, 11u32, 121u32, 1331u32, 14641u32, 161051u32, 1771561u32, 19487171u32, 214358881u32, 2357947691u32]);
    assert(powi(11, 10) == 25937424601);
}
proof fn lemma_pow12_table()
    ensures
        is_small_powers_table(12, POW12@),
{
    reveal_with_fuel(powi, 11);
    assert(POW12@ =~= seq![1u32, 12u32, 144u32, 1728u32, 20736u32, 248832u32, 2985984u32, 35831808u32, 429981696u32]);
    assert(powi(12, 9) == 5159780352);
}
proof fn lemma_pow13_table()
    ensures
        is_small_powers_table(13, POW13@),
{
    reveal_with_fuel(powi, 11);
    assert(POW13@ =~= seq![1u32, 13u32, 169u32, 2197u32, 28561u32, 371293u32, 4826809u32, 62748517u32, 815730721u32]);
    assert(powi(13, 9) == 10604499373);
}
proof fn lemma_pow14_table()
    ensures
        is_small_powers_table(14, POW14@),
{
    reveal_with_fuel(powi, 11);
    assert(POW14@ =~= seq![1u32, 14u32, 196u32, 2744u32, 38416u32, 537824u32, 7529536u32, 105413504u32, 1475789056u32]);
    assert(powi(14, 9) == 20661046784);
}
proof fn lemma_pow15_table()
    ensures
        is_small_powers_table(15, POW15@),
{
    reveal_with_fuel(powi, 11);
    assert(POW15@ =~= seq![1u32, 15u32, 225u32, 3375u32, 50625u32, 759375u32, 11390625u32, 170859375u32, 2562890625u32]);
    assert(powi(15, 9) == 38443359375);
}
proof fn lemma_pow16_table()
    ensures
        is_small_powers_table(16, POW16@),
{
    reveal_with_fuel(powi, 10);
    assert(POW16@ =~= seq![1u32, 16u32, 256u32, 4096u32, 65536u32, 1048576u32, 16777216u32, 268435456u32]);
    assert(powi(16, 8) == 4294967296);
}
proof fn lemma_pow17_table()
    ensures
        is_small_powers_table(17, POW17@),
{
    reveal_with_fuel(powi, 10);
    assert(POW17@ =~= seq![1u32, 17u32, 289u32, 4913u32, 83521u32, 1419857u32, 24137569u32, 410338673u32]);
    assert(powi(17, 8) == 6975757441);
}
proof fn lemma_pow18_table()
    ensures
        is_small_powers_table(18, POW18@),
{
    reveal_with_fuel(powi, 10);
    assert(POW18@ =~= seq![1u32, 18u32, 324u32, 5832u32, 104976u32, 1889568u32, 34012224u32, 612220032u32]);
    assert(powi(18, 8) == 11019960576);
}
proof fn lemma_pow19_table()
    ensures
        is_small_powers_table(19, POW19@),
{
    reveal_with_fuel(powi, 10);
    assert(POW19@ =~= seq![1u32, 19u32, 361u32, 6859u32, 130321u32, 2476099u32, 47045881u32, 893871739u32]);
    assert(powi(19, 8) == 16983563041);
}
proof fn lemma_pow20_table()
    ensures
        is_small_powers_table(20, POW20@),
{
    reveal_with_fuel(powi, 10);
    assert(POW20@ =~= seq![1u32, 20u32, 400u32, 8000u32, 160000u32, 3200000u32, 64000000u32, 1280000000u32]);
    assert(powi(20, 8) == 25600000000);
}
proof fn lemma_pow21_table()
    ensures
        is_small_powers_table(21, POW21@),
{
    reveal_with_fuel(powi, 10);
    assert(POW21@ =~= seq![1u32, 21u32, 441u32, 9261u32, 194481u32, 4084101u32, 85766121u32, 1801088541u32]);
    assert(powi(21, 8) == 37822859361);
}
proof fn lemma_pow22_table()
    ensures
        is_small_powers_table(22, POW22@),
{
    reveal_with_fuel(powi, 10);
    assert(POW22@ =~= seq![1u32, 22u32, 484u32, 10648u32, 234256u32, 5153632u32, 113379904u32, 2494357888u32]);
    assert(powi(22, 8) == 54875873536);
}
proof fn lemma_pow23_table()
    ensures
        is_small_powers_table(23, POW23@),
{
    reveal_with_fuel(powi, 10);
    assert(POW23@ =~= seq![1u32, 23u32, 529u32, 12167u32, 279841u32, 6436343u32, 148035889u32, 3404825447u32]);
    assert(powi(23, 8) == 78310985281);
}
proof fn lemma_pow24_table()
    ensures
        is_small_powers_table(24, POW24@),
{
    reveal_with_fuel(powi, 9);
    assert(POW24@ =~= seq![1u32, 24u32, 576u32, 13824u32, 331776u32, 7962624u32, 191102976u32]);
    assert(powi(24, 7) == 4586471424);
}
proof fn lemma_pow25_table()
    ensures
        is_small_powers_table(25, POW25@),
{
    reveal_with_fuel(powi, 9);
    assert(POW25@ =~= seq![1u32, 25u32, 625u32, 15625u32, 390625u32, 9765625u32, 244140625u32]);
    assert(powi(25, 7) == 6103515625);
}
proof fn lemma_pow26_table()
    ensures
        is_small_powers_table(26, POW26@),
{
    reveal_with_fuel(powi, 9);
    assert(POW26@ =~= seq![1u32, 26u32, 676u32, 17576u32, 456976u32, 11881376u32, 308915776u32]);
    assert(powi(26, 7) == 8031810176);
}
proof fn lemma_pow27_table()
    ensures
        is_small_powers_table(27, POW27@),
{
    reveal_with_fuel(powi, 9);
    assert(POW27@ =~= seq![1u32, 27u32, 729u32, 19683u32, 531441u32, 14348907u32, 387420489u32]);
    assert(powi(27, 7) == 10460353203);
}
proof fn lemma_pow28_table()
    ensures
        is_small_powers_table(28, POW28@),
{
    reveal_with_fuel(powi, 9);
    assert(POW28@ =~= seq![1u32, 28u32, 784u32, 21952u32, 614656u32, 17210368u32, 481890304u32]);
    assert(powi(28, 7) == 13492928512);
}
proof fn lemma_pow29_table()
    ensures
        is_small_powers_table(29, POW29@),
{
    reveal_with_fuel(powi, 9);
    assert(POW29@ =~= seq![1u32, 29u32, 841u32, 24389u32, 707281u32, 20511149u32, 594823321u32]);
    assert(powi(29, 7) == 17249876309);
}
proof fn lemma_pow30_table()
    ensures
        is_small_powers_table(30, POW30@),
{
    reveal_with_fuel(powi, 9);
    assert(POW30@ =~= seq![1u32, 30u32, 900u32, 27000u32, 810000u32, 24300000u32, 729000000u32]);
    assert(powi(30, 7) == 21870000000);
}
proof fn lemma_pow31_table()
    ensures
        is_small_powers_table(31, POW31@),
{
    reveal_with_fuel(powi, 9);
    assert(POW31@ =~= seq![1u32, 31u32, 961u32, 29791u32, 923521u32, 28629151u32, 887503681u32]);
    assert(powi(31, 7) == 27512614111);
}
proof fn lemma_pow32_table()
    ensures
        is_small_powers_table(32, POW32@),
{
    reveal_with_fuel(powi, 9);
    assert(POW32@ =~= seq![1u32, 32u32, 1024u32, 32768u32, 1048576u32, 33554432u32, 1073741824u32]);
    assert(powi(32, 7) == 34359738368);
}
proof fn lemma_pow33_table()
    ensures
        is_small_powers_table(33, POW33@),
{
    reveal_with_fuel(powi, 9);
    assert(POW33@ =~= seq![1u32, 33u32, 1089u32, 35937u32, 1185921u32, 39135393u32, 1291467969u32]);
    assert(powi(33, 7) == 42618442977);
}
proof fn lemma_pow34_table()
    ensures
        is_small_powers_table(34, POW34@),
{
    reveal_with_fuel(powi, 9);
    assert(POW34@ =~= seq![1u32, 34u32, 1156u32, 39304u32, 1336336u32, 45435424u32, 1544804416u32]);
    assert(powi(34, 7) == 52523350144);
}
proof fn lemma_pow35_table()
    ensures
        is_small_powers_table(35, POW35@),
{
    reveal_with_fuel(powi, 9);
    assert(POW35@ =~= seq![1u32, 35u32, 1225u32, 42875u32, 1500625u32, 52521875u32, 1838265625u32]);
    assert(powi(35, 7) == 64339296875);
}
proof fn lemma_pow36_table()
    ensures
        is_small_powers_table(36, POW36@),
{
    reveal_with_fuel(powi, 9);
    assert(POW36@ =~= seq![1u32, 36u32, 1296u32, 46656u32, 1679616u32, 60466176u32, 2176782336u32]);
    assert(powi(36, 7) == 78364164096);
}
/// Get the small powers from the base.
pub fn get_small_powers(base: u32) -> (r: &'static [u32])
    requires
        2 <= base <= 36,
    ensures
        is_small_powers_table(base as nat, r@),
        r@.len() == small_powers_len(base as nat),
{
    match base {
        2 => {
            proof {
                lemma_pow2_table();
            }
            &POW2
        },
        3 => {
            proof {
                lemma_pow3_table();
            }
            &POW3
        },
        4 => {
            proof {
                lemma_pow4_table();
            }
            &POW4
        },
        5 => {
            proof {
                lemma_pow5_table();
            }
            &POW5
        },
        6 => {
            proof {
                lemma_pow6_table();
            }
            &POW6
        },
        7 => {
            proof {
                lemma_pow7_table();
            }
            &POW7
        },
        8 => {
            proof {
                lemma_pow8_table();
            }
            &POW8
        },
        9 => {
            proof {
                lemma_pow9_table();
            }
            &POW9
        },
        10 => {
            proof {
                lemma_pow10_table();
            }
            &POW10
        },
        11 => {
            proof {
                lemma_pow11_table();
            }
            &POW11
        },
        12 => {
            proof {
                lemma_pow12_table();
            }
            &POW12
        },
        13 => {
            proof {
                lemma_pow13_table();
            }
            &POW13
        },
        14 => {
            proof {
                lemma_pow14_table();
            }
            &POW14
        },
        15 => {
            proof {
                lemma_pow15_table();
            }
            &POW15
        },
        16 => {
            proof {
                lemma_pow16_table();
            }
            &POW16
        },
        17 => {
            proof {
                lemma_pow17_table();
            }
            &POW17
        },
        18 => {
            proof {
                lemma_pow18_table();
            }
            &POW18
        },
        19 => {
            proof {
                lemma_pow19_table();
            }
            &POW19
        },
        20 => {
            proof {
                lemma_pow20_table();
            }
            &POW20
        },
        21 => {
            proof {
                lemma_pow21_table();
            }
            &POW21
        },
        22 => {
            proof {
                lemma_pow22_table();
            }
            &POW22
        },
        23 => {
            proof {
                lemma_pow23_table();
            }
            &POW23
        },
        24 => {
            proof {
                lemma_pow24_table();
            }
            &POW24
        },
        25 => {
            proof {
                lemma_pow25_table();
            }
            &POW25
        },
        26 => {
            proof {
                lemma_pow26_table();
            }
            &POW26
        },
        27 => {
            proof {
                lemma_pow27_table();
            }
            &POW27
        },
        28 => {
            proof {
                lemma_pow28_table();
            }
            &POW28
        },
        29 => {
            proof {
                lemma_pow29_table();
            }
            &POW29
        },
        30 => {
            proof {
                lemma_pow30_table();
            }
            &POW30
        },
        31 => {
            proof {
                lemma_pow31_table();
            }
            &POW31
        },
        32 => {
            proof {
                lemma_pow32_table();
            }
            &POW32
        },
        33 => {
            proof {
                lemma_pow33_table();
            }
            &POW33
        },
        34 => {
            proof {
                lemma_pow34_table();
            }
            &POW34
        },
        35 => {
            proof {
                lemma_pow35_table();
            }
            &POW35
        },
        36 => {
            proof {
                lemma_pow36_table();
            }
            &POW36
        },
        _ => {
            proof {
                lemma_pow36_table();
            }
            &POW36
        },
    }
}

} // verus!
