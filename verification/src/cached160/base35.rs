//! Cached powers of 35.

use vstd::prelude::*;
use crate::cached::{ExtendedPowers, ModeratePathPowers};
use crate::cached160::{is_normalized_table, is_int_powers_table};
use crate::limbs::powi;

verus! {

/// Step between the large powers of 35, and number of small powers.
pub const STEP: i32 = 6;
/// Exponent bias of the large powers of 35.
pub const BIAS: i32 = 240;
/// Mantissas of the small powers of 35.
pub const SMALL_MANT: [u128; 6] = [170141183460469231731687303715884105728, 186091919409888222206532988439248240640, 203538036854565243038395456105427763200, 222619727809680734573245030115311616000, 243490327291838303439486751688622080000, 266317545475448144386938634659430400000];
/// Binary exponents of the small powers of 35.
pub const SMALL_EXP: [i32; 6] = [-127, -122, -117, -112, -107, -102];
/// Small powers of 35 as integers.
pub const SMALL_INT_POWERS: [u128; 6] = [1, 35, 1225, 42875, 1500625, 52521875];
/// Mantissas of the large powers of 35.
pub const LARGE_MANT: [u128; 74] = [333759367161047558555453110261936949560, 285701067966365984586376747532679438728, 244562724730167186648778719030613161790, 209347927024496598038547144935237941328, 179203738418473223738234323205585013488, 306800075067366652359189609572260396844, 262623667597658781475957209306702595701, 224808259148244964176155115402974869951, 192437923982884034851744022831878031683, 329457242604437106875016361913696434196, 282018410035885035080273518999343445370, 241410335891937127541744115564170038883, 206649453374488156391879990784284316065, 176893820317164915550880607303262990177, 302845453064861578599747045789577351117, 259238475028744868618971960605253012775, 221910503377561727015952290044860359194, 189957418565367403947310019950147953923, 325210571999150993462493010696415973233, 278383221194439940371876875109029372360, 238298581027663491439386725539968731964, 203985762777473298078638682440591083627, 174613676827044081042213382537397413381, 298941805740831610317914779329181594758, 255896917250379178747915691007066092001, 219050099386294168656703063834650082992, 187508886612326915552639247886565481996, 321018640549353575448221161417409055741, 274794889570264049674062490664049677426, 235226936369523138128743288428339150410, 201356406883409564599485887013038683702, 172362924156377643998457025163202983813, 295088476036816041433113722500648405442, 252598431814515573631538400793788490787, 216226565713775509518577464877951003673, 185091915989032531210622402180350455682, 316880742672855387564028424008808371736, 271252811178556028546302550648486766486, 232194884901007304160476988045002650981, 198760943121441293094365080225590768425, 170141183460469231731687303715884105728, 291284815363771407923214131658752000000, 249342463523006462279286784000000000000, 213439427105318371328000000000000000000, 182706099873129286194801330566406250000, 312796181882350172840701732490664710439, 267756389819817671992755772413469185401, 229201916269897841937750664282591869365, 196198934625406481835921498002300001382, 335896161555784742544555459149306885413, 287530183492901554386658282699185698307, 246128464334152340394473578644658105769, 210688214432220328999897334535237907298, 180351036686161310983217274120661055754, 308764270668182755993104788402294107778, 264305036979502132888830858069861274896, 226247526702365186299998179464172492810, 193669950160303864708173829536684422103, 331566493935091266452974274160244175815, 283823948447894890028153679891537227671, 242955893270455896832007072848205740580, 207972464612800582882401068589523181243, 178026330025978501184229413909552478799, 304784330382628027085206214062708598478, 260898171728955674614898641290082042559, 223331218918173589647399860035052277272, 191173564049707817673529979461919468076, 327292635293038256953486831534470016773, 280165486398550695538293601153410149006, 239824216327565160313568077123618791086, 205291720534454460326603808102056989101, 175731588600014458664842906141703880790, 300855691125661557416025651977765954086, 257535220627636274500677259708261311842];
/// Binary exponents of the large powers of 35.
pub const LARGE_EXP: [i32; 74] = [-1359, -1328, -1297, -1266, -1235, -1205, -1174, -1143, -1112, -1082, -1051, -1020, -989, -958, -928, -897, -866, -835, -805, -774, -743, -712, -681, -651, -620, -589, -558, -528, -497, -466, -435, -404, -374, -343, -312, -281, -251, -220, -189, -158, -127, -97, -66, -35, -4, 26, 57, 88, 119, 149, 180, 211, 242, 273, 303, 334, 365, 396, 426, 457, 488, 519, 550, 580, 611, 642, 673, 703, 734, 765, 796, 827, 857, 888];

/// The cached powers of 35.
pub open spec fn powers_spec() -> ModeratePathPowers<u128> {
    ModeratePathPowers { small: ExtendedPowers { mant: &SMALL_MANT, exp: &SMALL_EXP }, large: ExtendedPowers { mant: &LARGE_MANT, exp: &LARGE_EXP }, small_int: &SMALL_INT_POWERS, step: STEP, bias: BIAS }
}

/// The cached powers of 35, with their mantissas normalized and their
/// integer powers exact.
pub fn powers() -> (r: ModeratePathPowers<u128>)
    ensures
        r == powers_spec(),
        r.step == 6,
        r.bias == 240,
        r.small.mant@.len() == 6,
        r.small.exp@.len() == 6,
        r.small_int@.len() == 6,
        r.large.mant@.len() == 74,
        r.large.exp@.len() == 74,
        is_normalized_table(r.small.mant@),
        is_normalized_table(r.large.mant@),
        is_int_powers_table(35, r.small_int@),
{
    proof {
        assert(SMALL_MANT@ =~= seq![170141183460469231731687303715884105728u128, 186091919409888222206532988439248240640u128, 203538036854565243038395456105427763200u128, 222619727809680734573245030115311616000u128, 243490327291838303439486751688622080000u128, 266317545475448144386938634659430400000u128]);
        assert(LARGE_MANT@ =~= seq![333759367161047558555453110261936949560u128, 285701067966365984586376747532679438728u128, 244562724730167186648778719030613161790u128, 209347927024496598038547144935237941328u128, 179203738418473223738234323205585013488u128, 306800075067366652359189609572260396844u128, 262623667597658781475957209306702595701u128, 224808259148244964176155115402974869951u128, 192437923982884034851744022831878031683u128, 329457242604437106875016361913696434196u128, 282018410035885035080273518999343445370u128, 241410335891937127541744115564170038883u128, 206649453374488156391879990784284316065u128, 176893820317164915550880607303262990177u128, 302845453064861578599747045789577351117u128, 259238475028744868618971960605253012775u128, 221910503377561727015952290044860359194u128, 189957418565367403947310019950147953923u128, 325210571999150993462493010696415973233u128, 278383221194439940371876875109029372360u128, 238298581027663491439386725539968731964u128, 203985762777473298078638682440591083627u128, 174613676827044081042213382537397413381u128, 298941805740831610317914779329181594758u128, 255896917250379178747915691007066092001u128, 219050099386294168656703063834650082992u128, 187508886612326915552639247886565481996u128, 321018640549353575448221161417409055741u128, 274794889570264049674062490664049677426u128, 235226936369523138128743288428339150410u128, 201356406883409564599485887013038683702u128, 172362924156377643998457025163202983813u128, 295088476036816041433113722500648405442u128, 252598431814515573631538400793788490787u128, 216226565713775509518577464877951003673u128, 185091915989032531210622402180350455682u128, 316880742672855387564028424008808371736u128, 271252811178556028546302550648486766486u128, 232194884901007304160476988045002650981u128, 198760943121441293094365080225590768425u128, 170141183460469231731687303715884105728u128, 291284815363771407923214131658752000000u128, 249342463523006462279286784000000000000u128, 213439427105318371328000000000000000000u128, 182706099873129286194801330566406250000u128, 312796181882350172840701732490664710439u128, 267756389819817671992755772413469185401u128, 229201916269897841937750664282591869365u128, 196198934625406481835921498002300001382u128, 335896161555784742544555459149306885413u128, 287530183492901554386658282699185698307u128, 246128464334152340394473578644658105769u128, 210688214432220328999897334535237907298u128, 180351036686161310983217274120661055754u128, 308764270668182755993104788402294107778u128, 264305036979502132888830858069861274896u128, 226247526702365186299998179464172492810u128, 193669950160303864708173829536684422103u128, 331566493935091266452974274160244175815u128, 283823948447894890028153679891537227671u128, 242955893270455896832007072848205740580u128, 207972464612800582882401068589523181243u128, 178026330025978501184229413909552478799u128, 304784330382628027085206214062708598478u128, 260898171728955674614898641290082042559u128, 223331218918173589647399860035052277272u128, 191173564049707817673529979461919468076u128, 327292635293038256953486831534470016773u128, 280165486398550695538293601153410149006u128, 239824216327565160313568077123618791086u128, 205291720534454460326603808102056989101u128, 175731588600014458664842906141703880790u128, 300855691125661557416025651977765954086u128, 257535220627636274500677259708261311842u128]);
        reveal_with_fuel(powi, 7);
        assert(SMALL_INT_POWERS@ =~= seq![1u128, 35u128, 1225u128, 42875u128, 1500625u128, 52521875u128]);
    }
    ModeratePathPowers { small: ExtendedPowers { mant: &SMALL_MANT, exp: &SMALL_EXP }, large: ExtendedPowers { mant: &LARGE_MANT, exp: &LARGE_EXP }, small_int: &SMALL_INT_POWERS, step: STEP, bias: BIAS }
}

} // verus!
