//! Cached powers of 26.

use vstd::prelude::*;
use crate::cached::{ExtendedPowers, ModeratePathPowers};
use crate::cached160::{is_normalized_table, is_int_powers_table};
use crate::limbs::powi;

verus! {

/// Step between the large powers of 26, and number of small powers.
pub const STEP: i32 = 7;
/// Exponent bias of the large powers of 26.
pub const BIAS: i32 = 259;
/// Mantissas of the small powers of 26.
pub const SMALL_MANT: [u128; 7] = [170141183460469231731687303715884105728, 276479423123262501563991868538311671808, 224639531287650782520743393187378233344, 182519619171216260798104006964744814592, 296594381153226423796919011317710323712, 240982934686996469334996696695639638016, 195798634433184631334684816065207205888];
/// Binary exponents of the small powers of 26.
pub const SMALL_EXP: [i32; 7] = [-127, -123, -118, -113, -109, -104, -99];
/// Small powers of 26 as integers.
pub const SMALL_INT_POWERS: [u128; 7] = [1, 26, 676, 17576, 456976, 11881376, 308915776];
/// Mantissas of the large powers of 26.
pub const LARGE_MANT: [u128; 69] = [255415379164208127122894269982044598460, 238819960676830402855710568862720060069, 223302816785416365261501121183664506010, 208793887424582006747864373745206480886, 195227664627991173689253365541181602096, 182542896759209079117924981191278218615, 170682311959929403775713752016508602388, 319184719133881733167774634228398630548, 298445936660656380797439373851559361096, 279054640682520272457995982566385389064, 260923279297292454826462160021044868443, 243969989220528359050303591757077787596, 228118226171942658526451569535286060353, 213296419277190995686832685182416132955, 199437647924631042854519895051784617004, 186479339618067826498814972661362929947, 174362987461285330626576271532417342855, 326067771997608226855765039505019953527, 304881768440366443726402955195105316329, 285072309225356538301642822964643005408, 266549954439052068809893515776468694564, 249231075457753005677502945704601914895, 233037477363483566918311865718592557833, 217896045893127676516686822732460831572, 203738417326773735777703283427712394918, 190500669824811165252338688092226229364, 178123034820162511238845936350714491622, 333099254325168111301464298292509503356, 311456385593267303107050428484389238716, 291219745668138391592456499213129019442, 272297965910924348580716754684381379181, 254605614290044560620651113294031241626, 238062809654687405271268739306918462570, 222594861070586991002412082254420837256, 208131930589681357218231284385128680344, 194608717931053648412097371491373800423, 181964165649487446029462142596867446143, 170141183460469231731687303715884105728, 318172780953925025918862826105961709568, 297499748388299952530789444812804194304, 278169930267914565987548746187341299712, 260096052263752396381159488684908609536, 243196510629429753543644020787720315589, 227395003759435617782759026890197718352, 212620187686592486096128182198450396409, 198805353963305641500281734389939339052, 185888128472231349675004689621278542958, 173810189806491030350550655153103473999, 325034011895830307254166714675296871096, 303915176108832810280521264920190203131, 284168520489679119677023043643028417295, 265704888683728554332237168601547339173, 248440917202145588620033973783642939305, 232298659034884347081172590621418853088, 217205231719130933968079964556427917884, 203092488274228969742684708734280089507, 189896709517356115129460946793154219973, 177558316370753675479515454481338457101, 332043201723146894831623394706398020929, 310468949199606660363664220576467010752, 290296467197293861525395669447395056845, 271434676751037481783657313824389119896, 253798416681617203255579043607175584203, 237308059092157195001470401326248026898, 221889149847346996027560241559399617642, 207472072412249451654170398205728730819, 193991733532924439390933354984357040572, 181387269339713144970498252974494732833, 339203541092472346195720855153810480522];
/// Binary exponents of the large powers of 26.
pub const LARGE_EXP: [i32; 69] = [-1345, -1312, -1279, -1246, -1213, -1180, -1147, -1115, -1082, -1049, -1016, -983, -950, -917, -884, -851, -818, -786, -753, -720, -687, -654, -621, -588, -555, -522, -489, -457, -424, -391, -358, -325, -292, -259, -226, -193, -160, -127, -95, -62, -29, 4, 37, 70, 103, 136, 169, 202, 234, 267, 300, 333, 366, 399, 432, 465, 498, 531, 563, 596, 629, 662, 695, 728, 761, 794, 827, 860, 892];

/// The cached powers of 26.
pub open spec fn powers_spec() -> ModeratePathPowers<u128> {
    ModeratePathPowers { small: ExtendedPowers { mant: &SMALL_MANT, exp: &SMALL_EXP }, large: ExtendedPowers { mant: &LARGE_MANT, exp: &LARGE_EXP }, small_int: &SMALL_INT_POWERS, step: STEP, bias: BIAS }
}

/// The cached powers of 26, with their mantissas normalized and their
/// integer powers exact.
pub fn powers() -> (r: ModeratePathPowers<u128>)
    ensures
        r == powers_spec(),
        r.step == 7,
        r.bias == 259,
        r.small.mant@.len() == 7,
        r.small.exp@.len() == 7,
        r.small_int@.len() == 7,
        r.large.mant@.len() == 69,
        r.large.exp@.len() == 69,
        is_normalized_table(r.small.mant@),
        is_normalized_table(r.large.mant@),
        is_int_powers_table(26, r.small_int@),
{
    proof {
        assert(SMALL_MANT@ =~= seq![170141183460469231731687303715884105728u128, 276479423123262501563991868538311671808u128, 224639531287650782520743393187378233344u128, 182519619171216260798104006964744814592u128, 296594381153226423796919011317710323712u128, 240982934686996469334996696695639638016u128, 195798634433184631334684816065207205888u128]);
        assert(LARGE_MANT@ =~= seq![255415379164208127122894269982044598460u128, 238819960676830402855710568862720060069u128, 223302816785416365261501121183664506010u128, 208793887424582006747864373745206480886u128, 195227664627991173689253365541181602096u128, 182542896759209079117924981191278218615u128, 170682311959929403775713752016508602388u128, 319184719133881733167774634228398630548u128, 298445936660656380797439373851559361096u128, 279054640682520272457995982566385389064u128, 260923279297292454826462160021044868443u128, 243969989220528359050303591757077787596u128, 228118226171942658526451569535286060353u128, 213296419277190995686832685182416132955u128, 199437647924631042854519895051784617004u128, 186479339618067826498814972661362929947u128, 174362987461285330626576271532417342855u128, 326067771997608226855765039505019953527u128, 304881768440366443726402955195105316329u128, 285072309225356538301642822964643005408u128, 266549954439052068809893515776468694564u128, 249231075457753005677502945704601914895u128, 233037477363483566918311865718592557833u128, 217896045893127676516686822732460831572u128, 203738417326773735777703283427712394918u128, 190500669824811165252338688092226229364u128, 178123034820162511238845936350714491622u128, 333099254325168111301464298292509503356u128, 311456385593267303107050428484389238716u128, 291219745668138391592456499213129019442u128, 272297965910924348580716754684381379181u128, 254605614290044560620651113294031241626u128, 238062809654687405271268739306918462570u128, 222594861070586991002412082254420837256u128, 208131930589681357218231284385128680344u128, 194608717931053648412097371491373800423u128, 181964165649487446029462142596867446143u128, 170141183460469231731687303715884105728u128, 318172780953925025918862826105961709568u128, 297499748388299952530789444812804194304u128, 278169930267914565987548746187341299712u128, 260096052263752396381159488684908609536u128, 243196510629429753543644020787720315589u128, 227395003759435617782759026890197718352u128, 212620187686592486096128182198450396409u128, 198805353963305641500281734389939339052u128, 185888128472231349675004689621278542958u128, 173810189806491030350550655153103473999u128, 325034011895830307254166714675296871096u128, 303915176108832810280521264920190203131u128, 284168520489679119677023043643028417295u128, 265704888683728554332237168601547339173u128, 248440917202145588620033973783642939305u128, 232298659034884347081172590621418853088u128, 217205231719130933968079964556427917884u128, 203092488274228969742684708734280089507u128, 189896709517356115129460946793154219973u128, 177558316370753675479515454481338457101u128, 332043201723146894831623394706398020929u128, 310468949199606660363664220576467010752u128, 290296467197293861525395669447395056845u128, 271434676751037481783657313824389119896u128, 253798416681617203255579043607175584203u128, 237308059092157195001470401326248026898u128, 221889149847346996027560241559399617642u128, 207472072412249451654170398205728730819u128, 193991733532924439390933354984357040572u128, 181387269339713144970498252974494732833u128, 339203541092472346195720855153810480522u128]);
        reveal_with_fuel(powi, 8);
        assert(SMALL_INT_POWERS@ =~= seq![1u128, 26u128, 676u128, 17576u128, 456976u128, 11881376u128, 308915776u128]);
    }
    ModeratePathPowers { small: ExtendedPowers { mant: &SMALL_MANT, exp: &SMALL_EXP }, large: ExtendedPowers { mant: &LARGE_MANT, exp: &LARGE_EXP }, small_int: &SMALL_INT_POWERS, step: STEP, bias: BIAS }
}

} // verus!
