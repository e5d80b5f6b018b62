//! Cached powers of 21.

use vstd::prelude::*;
use crate::cached::{ExtendedPowers, ModeratePathPowers};
use crate::cached160::{is_normalized_table, is_int_powers_table};
use crate::limbs::powi;

verus! {

/// Step between the large powers of 21, and number of small powers.
pub const STEP: i32 = 7;
/// Exponent bias of the large powers of 21.
pub const BIAS: i32 = 280;
/// Mantissas of the small powers of 21.
pub const SMALL_MANT: [u128; 7] = [170141183460469231731687303715884105728, 223310303291865866647839586127097888768, 293094773070573949975289456791815979008, 192343444827564154671283706019629236224, 252450771336177953006059864150763372544, 331341637378733563320453571697876926464, 217442949529793900929047656426731732992];
/// Binary exponents of the small powers of 21.
pub const SMALL_EXP: [i32; 7] = [-127, -123, -119, -114, -110, -106, -101];
/// Small powers of 21 as integers.
pub const SMALL_INT_POWERS: [u128; 7] = [1, 21, 441, 9261, 194481, 4084101, 85766121];
/// Mantissas of the large powers of 21.
pub const LARGE_MANT: [u128; 74] = [188930289708596676209799452254388021966, 316910613181035688810196803289889249327, 265792046637109917415346664544311644566, 222919047571269915259553685343512655124, 186961582932271121624867982904669033286, 313608315425491608924946770674906010971, 263022418727710133477288744271513099136, 220596168374913987040298637494305910349, 185013390634471631571140317809259206000, 310340428541697166126551714455108139315, 260281651120390792657949798157903984485, 218297494233351046265168261721480533031, 183085499048559996047315841365348324923, 307106593958686861611740529249331599561, 257569443082684061423017949935163592863, 216022772923099798407562907443165238977, 181177696635406520735133253192775193924, 303906456841905544859103298218510174905, 254885497015839035366704878377106222377, 213771754848918589809660748287013123679, 179289774060178761532557823153782969422, 300739666054273966520895709937608788747, 252229518422167527105381200194678741672, 211544193016418411141172507362190098875, 177421524169372127003871154186445625381, 297605874117660039208334869188863219128, 249601215872730120248972738434931034589, 209339843004961281067680970866486691183, 175572741968079828414917198043029764862, 294504737174751578579986057113044461622, 247000300975358943781849899984000214119, 207158462940841036386486635842909509778, 173743224597499683284324187350601048284, 291435914951326341195521446658582144907, 244426488343013658131803347774089798564, 204999813470743585875109991683322467328, 171932771312675304370424739613867083896, 288399070718915219190771894363169343679, 241879495562467180767563428674995339169, 202863657735483715761934442388454879916, 170141183460469231731687303715884105728, 285393871257854494969375049060085399552, 239359043163317715346200180609446313984, 200749761344015565073276401119215484928, 336736528915531181897146582027467512352, 282419986820723101796180638245767114566, 236864854587323684235605162154192799609, 198657892347713919139770232958888414539, 333227639539799771559276379603105082665, 279477091096160878422591085338554667498, 234396656158058199668034426556911280906, 196587821214923499260650393397155679946, 329755313778627116894330266634709348105, 276564861173063847678827937275753188756, 231954177050879743842271364358265802922, 194539320805773455930561882331086488568, 326319170628861950820780822968026849107, 273682977505152590337309001442167333935, 229537149263215762988196018745023784859, 192512166347254302133159603748230049238, 322918833057513041780316846850363342758, 270831123875909826489436864951365328546, 227145307585155914742230901032159391581, 190506135408554552002160365053046193282, 319553927960379009120613001977483142041, 268008987363883357189628558586004761583, 224778389570351742159039695242233732277, 188521007876654358646847770858984158583, 316224086121109227441755855330741121363, 265216258308350559209803685525363124313, 222436135507219581307712678266362793773, 186556565932173473138426942632517671964, 312928942170691327838033505846831903751, 262452630275340665419193194878653363790];
/// Binary exponents of the large powers of 21.
pub const LARGE_EXP: [i32; 74] = [-1357, -1327, -1296, -1265, -1234, -1204, -1173, -1142, -1111, -1081, -1050, -1019, -988, -958, -927, -896, -865, -835, -804, -773, -742, -712, -681, -650, -619, -589, -558, -527, -496, -466, -435, -404, -373, -343, -312, -281, -250, -220, -189, -158, -127, -97, -66, -35, -5, 26, 57, 88, 118, 149, 180, 211, 241, 272, 303, 334, 364, 395, 426, 457, 487, 518, 549, 580, 610, 641, 672, 703, 733, 764, 795, 826, 856, 887];

/// The cached powers of 21.
pub open spec fn powers_spec() -> ModeratePathPowers<u128> {
    ModeratePathPowers { small: ExtendedPowers { mant: &SMALL_MANT, exp: &SMALL_EXP }, large: ExtendedPowers { mant: &LARGE_MANT, exp: &LARGE_EXP }, small_int: &SMALL_INT_POWERS, step: STEP, bias: BIAS }
}

/// The cached powers of 21, with their mantissas normalized and their
/// integer powers exact.
pub fn powers() -> (r: ModeratePathPowers<u128>)
    ensures
        r == powers_spec(),
        r.step == 7,
        r.bias == 280,
        r.small.mant@.len() == 7,
        r.small.exp@.len() == 7,
        r.small_int@.len() == 7,
        r.large.mant@.len() == 74,
        r.large.exp@.len() == 74,
        is_normalized_table(r.small.mant@),
        is_normalized_table(r.large.mant@),
        is_int_powers_table(21, r.small_int@),
{
    proof {
        assert(SMALL_MANT@ =~= seq![170141183460469231731687303715884105728u128, 223310303291865866647839586127097888768u128, 293094773070573949975289456791815979008u128, 192343444827564154671283706019629236224u128, 252450771336177953006059864150763372544u128, 331341637378733563320453571697876926464u128, 217442949529793900929047656426731732992u128]);
        assert(LARGE_MANT@ =~= seq![188930289708596676209799452254388021966u128, 316910613181035688810196803289889249327u128, 265792046637109917415346664544311644566u128, 222919047571269915259553685343512655124u128, 186961582932271121624867982904669033286u128, 313608315425491608924946770674906010971u128, 263022418727710133477288744271513099136u128, 220596168374913987040298637494305910349u128, 185013390634471631571140317809259206000u128, 310340428541697166126551714455108139315u128, 260281651120390792657949798157903984485u128, 218297494233351046265168261721480533031u128, 183085499048559996047315841365348324923u128, 307106593958686861611740529249331599561u128, 257569443082684061423017949935163592863u128, 216022772923099798407562907443165238977u128, 181177696635406520735133253192775193924u128, 303906456841905544859103298218510174905u128, 254885497015839035366704878377106222377u128, 213771754848918589809660748287013123679u128, 179289774060178761532557823153782969422u128, 300739666054273966520895709937608788747u128, 252229518422167527105381200194678741672u128, 211544193016418411141172507362190098875u128, 177421524169372127003871154186445625381u128, 297605874117660039208334869188863219128u128, 249601215872730120248972738434931034589u128, 209339843004961281067680970866486691183u128, 175572741968079828414917198043029764862u128, 294504737174751578579986057113044461622u128, 247000300975358943781849899984000214119u128, 207158462940841036386486635842909509778u128, 173743224597499683284324187350601048284u128, 291435914951326341195521446658582144907u128, 244426488343013658131803347774089798564u128, 204999813470743585875109991683322467328u128, 171932771312675304370424739613867083896u128, 288399070718915219190771894363169343679u128, 241879495562467180767563428674995339169u128, 202863657735483715761934442388454879916u128, 170141183460469231731687303715884105728u128, 285393871257854494969375049060085399552u128, 239359043163317715346200180609446313984u128, 200749761344015565073276401119215484928u128, 336736528915531181897146582027467512352u128, 282419986820723101796180638245767114566u128, 236864854587323684235605162154192799609u128, 198657892347713919139770232958888414539u128, 333227639539799771559276379603105082665u128, 279477091096160878422591085338554667498u128, 234396656158058199668034426556911280906u128, 196587821214923499260650393397155679946u128, 329755313778627116894330266634709348105u128, 276564861173063847678827937275753188756u128, 231954177050879743842271364358265802922u128, 194539320805773455930561882331086488568u128, 326319170628861950820780822968026849107u128, 273682977505152590337309001442167333935u128, 229537149263215762988196018745023784859u128, 192512166347254302133159603748230049238u128, 322918833057513041780316846850363342758u128, 270831123875909826489436864951365328546u128, 227145307585155914742230901032159391581u128, 190506135408554552002160365053046193282u128, 319553927960379009120613001977483142041u128, 268008987363883357189628558586004761583u128, 224778389570351742159039695242233732277u128, 188521007876654358646847770858984158583u128, 316224086121109227441755855330741121363u128, 265216258308350559209803685525363124313u128, 222436135507219581307712678266362793773u128, 186556565932173473138426942632517671964u128, 312928942170691327838033505846831903751u128, 262452630275340665419193194878653363790u128]);
        reveal_with_fuel(powi, 8);
        assert(SMALL_INT_POWERS@ =~= seq![1u128, 21u128, 441u128, 9261u128, 194481u128, 4084101u128, 85766121u128]);
    }
    ModeratePathPowers { small: ExtendedPowers { mant: &SMALL_MANT, exp: &SMALL_EXP }, large: ExtendedPowers { mant: &LARGE_MANT, exp: &LARGE_EXP }, small_int: &SMALL_INT_POWERS, step: STEP, bias: BIAS }
}

} // verus!
