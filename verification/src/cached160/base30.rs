//! Cached powers of 30.

use vstd::prelude::*;
use crate::cached::{ExtendedPowers, ModeratePathPowers};
use crate::cached160::{is_normalized_table, is_int_powers_table};
use crate::limbs::powi;

verus! {

/// Step between the large powers of 30, and number of small powers.
pub const STEP: i32 = 6;
/// Exponent bias of the large powers of 30.
pub const BIAS: i32 = 246;
/// Mantissas of the small powers of 30.
pub const SMALL_MANT: [u128; 6] = [170141183460469231731687303715884105728, 319014718988379809496913694467282698240, 299076299051606071403356588563077529600, 280384030360880691940646801777885184000, 262860028463325648694356376666767360000, 246431276684367795650959103125094400000];
/// Binary exponents of the small powers of 30.
pub const SMALL_EXP: [i32; 6] = [-127, -123, -118, -113, -108, -103];
/// Small powers of 30 as integers.
pub const SMALL_INT_POWERS: [u128; 6] = [1, 30, 900, 27000, 810000, 24300000];
/// Mantissas of the large powers of 30.
pub const LARGE_MANT: [u128; 76] = [318577830472690336137106460436953992313, 216293370737313530448778168911616746705, 293697914606894485088361958296166003399, 199401546035358756435491021348075025228, 270761041082025567891957153683056483774, 183828919146951883093674448351327494412, 249615464467793559236989678532104461317, 338944929832632662139396137837142035924, 230121290169646228383872457298707723793, 312474408249691315911417866816293319027, 212149548916169413644283660602828329029, 288071150257973936473359891361485890787, 195581343526079319127909243854250027224, 265573709142416387133758214804806317848, 180307062310000458937613050074040708794, 244833246663194772909432488501026624276, 332451307806128616353452734867573546427, 225712548373888955751123878842649157480, 306487917461553679299669913344627685478, 208085115840167395965624010961720331305, 282552185370553343852869987471204477403, 191834329753307055373436045708607941890, 260485757869036576463347072380734960806, 176852678401887104140389725347567150767, 240142648210703765821352805529490956868, 326082092794781635112624979076905003855, 221388270750079128888532155889145795079, 300616117896153936087600778123712697276, 204098550552778150334824777443135675335, 277138954685954882938577351637270128950, 188159102542382767109407940268116001044, 255495283293346012426090218975127795266, 173464474753336275982316368848893943009, 235541913835671069456466721167496749113, 319834901366763207379289417958082873567, 217146839104937741700096042539405091508, 294856812260112936979848919457246198708, 200188361236473853754168248068850933442, 271829432512427567293473804075629134624, 184554286581985369843377175900278276895, 250600417923680198594596164731872945757, 170141183460469231731687303715884105728, 231029321891594808422774159179776000000, 313707395752840890251476992000000000000, 212986666247081951232000000000000000000, 289207845356544000000000000000000000000, 196353084654473304748535156250000000000, 266621631967110632288608940143603831529, 181018532909474941844489348460628831000, 245799330046413899594233809090775284541, 333763121820680299409099755486799743829, 226603183715861233202026897808422346833, 307697282971558792524556831461079215336, 208906195393080226844550976655564036201, 283667103278554017412807162817392837984, 192591285603182277357146536646298485706, 261513604232519641878753574965804062932, 177550518406095745907734479894927853604, 241090223040513319460187919146199534233, 327368774631124380764508606973252185538, 222261842997828194477899721342605392688, 301802313971178147521594347169174498450, 204903899584886496461222208185427085841, 278232512618195742220116760148063945729, 188901556375124208702207652989717774500, 256503437827277086943219190518379691262, 174148945301850322989380722761059920238, 236471334705220322048773145103478211637, 321096932515698698858834100478208840422, 218003675159015088778073023304915283497, 296020282788056879712669614682501632104, 200978281118435287206001718625001320433, 272902039690575235287053981567967613406, 185282516232160242762660936045505469826, 251589257890814574386886921482483833102, 170812540689859376035668482781137073721];
/// Binary exponents of the large powers of 30.
pub const LARGE_EXP: [i32; 76] = [-1335, -1305, -1276, -1246, -1217, -1187, -1158, -1129, -1099, -1070, -1040, -1011, -981, -952, -922, -893, -864, -834, -805, -775, -746, -716, -687, -657, -628, -599, -569, -540, -510, -481, -451, -422, -392, -363, -334, -304, -275, -245, -216, -186, -157, -127, -98, -69, -39, -10, 20, 49, 79, 108, 137, 167, 196, 226, 255, 285, 314, 344, 373, 402, 432, 461, 491, 520, 550, 579, 609, 638, 667, 697, 726, 756, 785, 815, 844, 874];

/// The cached powers of 30.
pub open spec fn powers_spec() -> ModeratePathPowers<u128> {
    ModeratePathPowers { small: ExtendedPowers { mant: &SMALL_MANT, exp: &SMALL_EXP }, large: ExtendedPowers { mant: &LARGE_MANT, exp: &LARGE_EXP }, small_int: &SMALL_INT_POWERS, step: STEP, bias: BIAS }
}

/// The cached powers of 30, with their mantissas normalized and their
/// integer powers exact.
pub fn powers() -> (r: ModeratePathPowers<u128>)
    ensures
        r == powers_spec(),
        r.step == 6,
        r.bias == 246,
        r.small.mant@.len() == 6,
        r.small.exp@.len() == 6,
        r.small_int@.len() == 6,
        r.large.mant@.len() == 76,
        r.large.exp@.len() == 76,
        is_normalized_table(r.small.mant@),
        is_normalized_table(r.large.mant@),
        is_int_powers_table(30, r.small_int@),
{
    proof {
        assert(SMALL_MANT@ =~= seq![170141183460469231731687303715884105728u128, 319014718988379809496913694467282698240u128, 299076299051606071403356588563077529600u128, 280384030360880691940646801777885184000u128, 262860028463325648694356376666767360000u128, 246431276684367795650959103125094400000u128]);
        assert(LARGE_MANT@ =~= seq![318577830472690336137106460436953992313u128, 216293370737313530448778168911616746705u128, 293697914606894485088361958296166003399u128, 199401546035358756435491021348075025228u128, 270761041082025567891957153683056483774u128, 183828919146951883093674448351327494412u128, 249615464467793559236989678532104461317u128, 338944929832632662139396137837142035924u128, 230121290169646228383872457298707723793u128, 312474408249691315911417866816293319027u128, 212149548916169413644283660602828329029u128, 288071150257973936473359891361485890787u128, 195581343526079319127909243854250027224u128, 265573709142416387133758214804806317848u128, 180307062310000458937613050074040708794u128, 244833246663194772909432488501026624276u128, 332451307806128616353452734867573546427u128, 225712548373888955751123878842649157480u128, 306487917461553679299669913344627685478u128, 208085115840167395965624010961720331305u128, 282552185370553343852869987471204477403u128, 191834329753307055373436045708607941890u128, 260485757869036576463347072380734960806u128, 176852678401887104140389725347567150767u128, 240142648210703765821352805529490956868u128, 326082092794781635112624979076905003855u128, 221388270750079128888532155889145795079u128, 300616117896153936087600778123712697276u128, 204098550552778150334824777443135675335u128, 277138954685954882938577351637270128950u128, 188159102542382767109407940268116001044u128, 255495283293346012426090218975127795266u128, 173464474753336275982316368848893943009u128, 235541913835671069456466721167496749113u128, 319834901366763207379289417958082873567u128, 217146839104937741700096042539405091508u128, 294856812260112936979848919457246198708u128, 200188361236473853754168248068850933442u128, 271829432512427567293473804075629134624u128, 184554286581985369843377175900278276895u128, 250600417923680198594596164731872945757u128, 170141183460469231731687303715884105728u128, 231029321891594808422774159179776000000u128, 313707395752840890251476992000000000000u128, 212986666247081951232000000000000000000u128, 289207845356544000000000000000000000000u128, 196353084654473304748535156250000000000u128, 266621631967110632288608940143603831529u128, 181018532909474941844489348460628831000u128, 245799330046413899594233809090775284541u128, 333763121820680299409099755486799743829u128, 226603183715861233202026897808422346833u128, 307697282971558792524556831461079215336u128, 208906195393080226844550976655564036201u128, 283667103278554017412807162817392837984u128, 192591285603182277357146536646298485706u128, 261513604232519641878753574965804062932u128, 177550518406095745907734479894927853604u128, 241090223040513319460187919146199534233u128, 327368774631124380764508606973252185538u128, 222261842997828194477899721342605392688u128, 301802313971178147521594347169174498450u128, 204903899584886496461222208185427085841u128, 278232512618195742220116760148063945729u128, 188901556375124208702207652989717774500u128, 256503437827277086943219190518379691262u128, 174148945301850322989380722761059920238u128, 236471334705220322048773145103478211637u128, 321096932515698698858834100478208840422u128, 218003675159015088778073023304915283497u128, 296020282788056879712669614682501632104u128, 200978281118435287206001718625001320433u128, 272902039690575235287053981567967613406u128, 185282516232160242762660936045505469826u128, 251589257890814574386886921482483833102u128, 170812540689859376035668482781137073721u128]);
        reveal_with_fuel(powi, 7);
        assert(SMALL_INT_POWERS@ =~= seq![1u128, 30u128, 900u128, 27000u128, 810000u128, 24300000u128]);
    }
    ModeratePathPowers { small: ExtendedPowers { mant: &SMALL_MANT, exp: &SMALL_EXP }, large: ExtendedPowers { mant: &LARGE_MANT, exp: &LARGE_EXP }, small_int: &SMALL_INT_POWERS, step: STEP, bias: BIAS }
}

} // verus!
