//! Cached powers of 7.

use vstd::prelude::*;
use crate::cached::{ExtendedPowers, ModeratePathPowers};
use crate::cached160::{is_normalized_table, is_int_powers_table};
use crate::limbs::powi;

verus! {

/// Step between the large powers of 7, and number of small powers.
pub const STEP: i32 = 11;
/// Exponent bias of the large powers of 7.
pub const BIAS: i32 = 429;
/// Mantissas of the small powers of 7.
pub const SMALL_MANT: [u128; 11] = [170141183460469231731687303715884105728, 297747071055821155530452781502797185024, 260528687173843511089146183814947536896, 227962601277113072203002910838079094784, 199467276117473938177627546983319207936, 174533866602789695905424103610404306944, 305434266554881967834492181318207537152, 267254983235521721855180658653431595008, 233848110331081506623283076321752645632, 204617096539696318295372691781533564928, 179039959472234278508451105308841869312];
/// Binary exponents of the small powers of 7.
pub const SMALL_EXP: [i32; 11] = [-127, -125, -122, -119, -116, -113, -111, -108, -105, -102, -99];
/// Small powers of 7 as integers.
pub const SMALL_INT_POWERS: [u128; 11] = [1, 7, 49, 343, 2401, 16807, 117649, 823543, 5764801, 40353607, 282475249];
/// Mantissas of the large powers of 7.
pub const LARGE_MANT: [u128; 73] = [266008220737434990362931884041265905224, 244930930771854420969529305678871455590, 225523710066019267908218449093892378358, 207654229874777697952558290622819921790, 191200646585071218824745087565327043379, 176050770921424471559828841966017113260, 324202605959679334675793064499391555083, 298514255748300407155832676761118149894, 274861334384351909098688755274300249465, 253082563679127241756740166823033329043, 233029444399168140266755890269514708731, 214565243719567885018434177936373702812, 197564062906901525077828647577582055243, 181909978874749832229630901118123515094, 334992507516972618831705765612473924060, 308449214239576126269380201889590576494, 284009091636748185128341566413187692045, 261505493963360706349361998265286260917, 240784979730461811097321743219099069136, 221706265459654420066135217688280855198, 204139262337252438224351496710052887294, 187964189199610581269006081054389519147, 173070755801490399767170008783447571912, 318714821597104302344272129046782646031, 293461298632634947256039303556899737616, 270208750768480083796084384984407980627, 248798629775241702400557051000361115726, 229084950069124576377435007616984162844, 210933293304638808346189699277966975327, 194219891838880796776419735762035423417, 178830784817964977889863278397948540205, 329322082262710237520775170056072850605, 303228087871569629902816732340606701122, 279201663740542055384000770694089408486, 257078984940548995242906668328695771951, 236709207289964795762477040448859922676, 217953438818817001855782665313698094789, 200683792729517998822275406364627986706, 184782515396710906443711214287193178833, 170141183460469231731687303715884105728, 313319929076409987389789434290473271296, 288493873028852398739253829029106548736, 265634921533798919351224824788236107776, 244587210111081219100242972308429222416, 225207224277966141315155116349116687572, 207362820991138609531788808643065835705, 190932327625202079604864455739987836428, 175803712344053086257499345217280929659, 323747640416561983962207324433251030705, 298095339619934405668456872884344580325, 274475611277932187651307585787198545738, 252727403529513497084111370284014563793, 232702425535702904483240997815950541938, 214264136353838934720254978302625752306, 197286813928859418414994791325492154413, 181654697853512422889189735564216996803, 334522400104752565046325502667785120787, 308016356015425756696586706818979868623, 283610531143243549972387138852602501496, 261138513603233655506120063924465915820, 240447077236577495145565086308268824286, 221395136833224081873557773886454798418, 203852786137945162132478938839041683065, 187700412080445632409314398956810353518, 172827879189879361689316520165778889316, 318267557265350256871483486812089934265, 293049473506426909088112326597996634777, 269829556805234360375792834335085449819, 248449481428986202531286841797890645972, 228763466660872229208763580066607974130, 210637282789652967136592584117374228567, 193947335860149215724544902551342320202, 178579824943969003959847035500732297209];
/// Binary exponents of the large powers of 7.
pub const LARGE_EXP: [i32; 73] = [-1332, -1301, -1270, -1239, -1208, -1177, -1147, -1116, -1085, -1054, -1023, -992, -961, -930, -900, -869, -838, -807, -776, -745, -714, -683, -652, -622, -591, -560, -529, -498, -467, -436, -405, -375, -344, -313, -282, -251, -220, -189, -158, -127, -97, -66, -35, -4, 27, 58, 89, 120, 150, 181, 212, 243, 274, 305, 336, 367, 397, 428, 459, 490, 521, 552, 583, 614, 645, 675, 706, 737, 768, 799, 830, 861, 892];

/// The cached powers of 7.
pub open spec fn powers_spec() -> ModeratePathPowers<u128> {
    ModeratePathPowers { small: ExtendedPowers { mant: &SMALL_MANT, exp: &SMALL_EXP }, large: ExtendedPowers { mant: &LARGE_MANT, exp: &LARGE_EXP }, small_int: &SMALL_INT_POWERS, step: STEP, bias: BIAS }
}

/// The cached powers of 7, with their mantissas normalized and their
/// integer powers exact.
pub fn powers() -> (r: ModeratePathPowers<u128>)
    ensures
        r == powers_spec(),
        r.step == 11,
        r.bias == 429,
        r.small.mant@.len() == 11,
        r.small.exp@.len() == 11,
        r.small_int@.len() == 11,
        r.large.mant@.len() == 73,
        r.large.exp@.len() == 73,
        is_normalized_table(r.small.mant@),
        is_normalized_table(r.large.mant@),
        is_int_powers_table(7, r.small_int@),
{
    proof {
        assert(SMALL_MANT@ =~= seq![170141183460469231731687303715884105728u128, 297747071055821155530452781502797185024u128, 260528687173843511089146183814947536896u128, 227962601277113072203002910838079094784u128, 199467276117473938177627546983319207936u128, 174533866602789695905424103610404306944u128, 305434266554881967834492181318207537152u128, 267254983235521721855180658653431595008u128, 233848110331081506623283076321752645632u128, 204617096539696318295372691781533564928u128, 179039959472234278508451105308841869312u128]);
        assert(LARGE_MANT@ =~= seq![266008220737434990362931884041265905224u128, 244930930771854420969529305678871455590u128, 225523710066019267908218449093892378358u128, 207654229874777697952558290622819921790u128, 191200646585071218824745087565327043379u128, 176050770921424471559828841966017113260u128, 324202605959679334675793064499391555083u128, 298514255748300407155832676761118149894u128, 274861334384351909098688755274300249465u128, 253082563679127241756740166823033329043u128, 233029444399168140266755890269514708731u128, 214565243719567885018434177936373702812u128, 197564062906901525077828647577582055243u128, 181909978874749832229630901118123515094u128, 334992507516972618831705765612473924060u128, 308449214239576126269380201889590576494u128, 284009091636748185128341566413187692045u128, 261505493963360706349361998265286260917u128, 240784979730461811097321743219099069136u128, 221706265459654420066135217688280855198u128, 204139262337252438224351496710052887294u128, 187964189199610581269006081054389519147u128, 173070755801490399767170008783447571912u128, 318714821597104302344272129046782646031u128, 293461298632634947256039303556899737616u128, 270208750768480083796084384984407980627u128, 248798629775241702400557051000361115726u128, 229084950069124576377435007616984162844u128, 210933293304638808346189699277966975327u128, 194219891838880796776419735762035423417u128, 178830784817964977889863278397948540205u128, 329322082262710237520775170056072850605u128, 303228087871569629902816732340606701122u128, 279201663740542055384000770694089408486u128, 257078984940548995242906668328695771951u128, 236709207289964795762477040448859922676u128, 217953438818817001855782665313698094789u128, 200683792729517998822275406364627986706u128, 184782515396710906443711214287193178833u128, 170141183460469231731687303715884105728u128, 313319929076409987389789434290473271296u128, 288493873028852398739253829029106548736u128, 265634921533798919351224824788236107776u128, 244587210111081219100242972308429222416u128, 225207224277966141315155116349116687572u128, 207362820991138609531788808643065835705u128, 190932327625202079604864455739987836428u128, 175803712344053086257499345217280929659u128, 323747640416561983962207324433251030705u128, 298095339619934405668456872884344580325u128, 274475611277932187651307585787198545738u128, 252727403529513497084111370284014563793u128, 232702425535702904483240997815950541938u128, 214264136353838934720254978302625752306u128, 197286813928859418414994791325492154413u128, 181654697853512422889189735564216996803u128, 334522400104752565046325502667785120787u128, 308016356015425756696586706818979868623u128, 283610531143243549972387138852602501496u128, 261138513603233655506120063924465915820u128, 240447077236577495145565086308268824286u128, 221395136833224081873557773886454798418u128, 203852786137945162132478938839041683065u128, 187700412080445632409314398956810353518u128, 172827879189879361689316520165778889316u128, 318267557265350256871483486812089934265u128, 293049473506426909088112326597996634777u128, 269829556805234360375792834335085449819u128, 248449481428986202531286841797890645972u128, 228763466660872229208763580066607974130u128, 210637282789652967136592584117374228567u128, 193947335860149215724544902551342320202u128, 178579824943969003959847035500732297209u128]);
        reveal_with_fuel(powi, 12);
        assert(SMALL_INT_POWERS@ =~= seq![1u128, 7u128, 49u128, 343u128, 2401u128, 16807u128, 117649u128, 823543u128, 5764801u128, 40353607u128, 282475249u128]);
    }
    ModeratePathPowers { small: ExtendedPowers { mant: &SMALL_MANT, exp: &SMALL_EXP }, large: ExtendedPowers { mant: &LARGE_MANT, exp: &LARGE_EXP }, small_int: &SMALL_INT_POWERS, step: STEP, bias: BIAS }
}

} // verus!
