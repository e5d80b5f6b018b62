//! Cached powers of 24.

use vstd::prelude::*;
use crate::cached::{ExtendedPowers, ModeratePathPowers};
use crate::cached160::{is_normalized_table, is_int_powers_table};
use crate::limbs::powi;

verus! {

/// Step between the large powers of 24, and number of small powers.
pub const STEP: i32 = 7;
/// Exponent bias of the large powers of 24.
pub const BIAS: i32 = 266;
/// Mantissas of the small powers of 24.
pub const SMALL_MANT: [u128; 7] = [170141183460469231731687303715884105728, 255211775190703847597530955573826158592, 191408831393027885698148216680369618944, 287113247089541828547222325020554428416, 215334935317156371410416743765415821312, 323002402975734557115625115648123731968, 242251802231800917836718836736092798976];
/// Binary exponents of the small powers of 24.
pub const SMALL_EXP: [i32; 7] = [-127, -123, -118, -114, -109, -105, -100];
/// Small powers of 24 as integers.
pub const SMALL_INT_POWERS: [u128; 7] = [1, 24, 576, 13824, 331776, 7962624, 191102976];
/// Mantissas of the large powers of 24.
pub const LARGE_MANT: [u128; 70] = [224498717373391335032231518045098273537, 239735690866995532087641762678041955188, 256006814417050404626793229969178591795, 273382276918988884237693747042282021609, 291937031065346039954998156631577529912, 311751116669878803408975082301396512655, 332910005936047335476283449703688561122, 177752486079622930343415992310050508587, 189816741726628588213403698819375225722, 202699811599676133995465766268541805984, 216457269515865090355509585365869594574, 231148461148045387015380597263260157877, 246836760024792608106756526472045881483, 263589840905381559535877208688654464260, 281479971709018296242657937208050445965, 300584325257628424747408646813479651038, 320985312176969416466104839150917967197, 171385468196052762160979317193129295473, 183017587375374702561553597022155160742, 195439191206027575440487166351295574484, 208703862874796048578293668364396201854, 222868822317958475703480592144987545632, 237995173051452727716558620615765508935, 254148165753675349373102394182948812519, 271397479737933588417468230506889186025, 289817523528740604428224130917268871991, 309487755838552588810803796052767101096, 330493028329548101430287061507520336961, 176461975819512133258798291874254633040, 188438643123668474334468683754392032451, 201228179937237770199942876645925476060, 214885756602899904017224155871405769601, 229470287934835004924643178169318563534, 245044687360099685434665347000146337133, 261676138308856451194147028266269550444, 279436384024154813848437280673013431065, 298402037041419227483658365640566588740, 318654909672648364505254319167929262488, 170141183460469231731687303715884105728, 181688851673850688377539127552069599232, 194020272759136452871913121072449323008, 207188640880972374233825193254612631552, 221250760550139932836609227367108313088, 236267291661697281793781435669856387072, 252303011164126931290527343657214803968, 269427092488254686881046533485512097792, 287713403941314941508226937857819803648, 307240827353347547401607574753443315712, 328093598350474163167634651360244400128, 175180834861447020226468989874232056416, 187070549727531559196917812917453861026, 199767232545952890607255496509019333039, 213325653114257310428744028742785781912, 227804298516055047806476167412340090352, 243265625417291205836310243227923719532, 259776329486140560138677002900131432918, 277407633098725295421526662764935275289, 296235592571734482952577544661578831571, 316341426247257477645159711999449660471, 337811864845093800590802876046287308325, 180369762796928745579122531717097251784, 192611655877384358682393055110005707838, 205684419630781050995309380627725821797, 219644446158456132093135554410564634898, 234551954955343535589691141355422293223, 250471252679363433757155530343900661758, 267471010551644448060009348077202513313, 285624560584202347610957248166426707331, 305010211912915299914630616083972269987, 325711588600364141070945877624827809796];
/// Binary exponents of the large powers of 24.
pub const LARGE_EXP: [i32; 70] = [-1347, -1315, -1283, -1251, -1219, -1187, -1155, -1122, -1090, -1058, -1026, -994, -962, -930, -898, -866, -834, -801, -769, -737, -705, -673, -641, -609, -577, -545, -513, -481, -448, -416, -384, -352, -320, -288, -256, -224, -192, -160, -127, -95, -63, -31, 1, 33, 65, 97, 129, 161, 193, 226, 258, 290, 322, 354, 386, 418, 450, 482, 514, 546, 579, 611, 643, 675, 707, 739, 771, 803, 835, 867];

/// The cached powers of 24.
pub open spec fn powers_spec() -> ModeratePathPowers<u128> {
    ModeratePathPowers { small: ExtendedPowers { mant: &SMALL_MANT, exp: &SMALL_EXP }, large: ExtendedPowers { mant: &LARGE_MANT, exp: &LARGE_EXP }, small_int: &SMALL_INT_POWERS, step: STEP, bias: BIAS }
}

/// The cached powers of 24, with their mantissas normalized and their
/// integer powers exact.
pub fn powers() -> (r: ModeratePathPowers<u128>)
    ensures
        r == powers_spec(),
        r.step == 7,
        r.bias == 266,
        r.small.mant@.len() == 7,
        r.small.exp@.len() == 7,
        r.small_int@.len() == 7,
        r.large.mant@.len() == 70,
        r.large.exp@.len() == 70,
        is_normalized_table(r.small.mant@),
        is_normalized_table(r.large.mant@),
        is_int_powers_table(24, r.small_int@),
{
    proof {
        assert(SMALL_MANT@ =~= seq![170141183460469231731687303715884105728u128, 255211775190703847597530955573826158592u128, 191408831393027885698148216680369618944u128, 287113247089541828547222325020554428416u128, 215334935317156371410416743765415821312u128, 323002402975734557115625115648123731968u128, 242251802231800917836718836736092798976u128]);
        assert(LARGE_MANT@ =~= seq![224498717373391335032231518045098273537u128, 239735690866995532087641762678041955188u128, 256006814417050404626793229969178591795u128, 273382276918988884237693747042282021609u128, 291937031065346039954998156631577529912u128, 311751116669878803408975082301396512655u128, 332910005936047335476283449703688561122u128, 177752486079622930343415992310050508587u128, 189816741726628588213403698819375225722u128, 202699811599676133995465766268541805984u128, 216457269515865090355509585365869594574u128, 231148461148045387015380597263260157877u128, 246836760024792608106756526472045881483u128, 263589840905381559535877208688654464260u128, 281479971709018296242657937208050445965u128, 300584325257628424747408646813479651038u128, 320985312176969416466104839150917967197u128, 171385468196052762160979317193129295473u128, 183017587375374702561553597022155160742u128, 195439191206027575440487166351295574484u128, 208703862874796048578293668364396201854u128, 222868822317958475703480592144987545632u128, 237995173051452727716558620615765508935u128, 254148165753675349373102394182948812519u128, 271397479737933588417468230506889186025u128, 289817523528740604428224130917268871991u128, 309487755838552588810803796052767101096u128, 330493028329548101430287061507520336961u128, 176461975819512133258798291874254633040u128, 188438643123668474334468683754392032451u128, 201228179937237770199942876645925476060u128, 214885756602899904017224155871405769601u128, 229470287934835004924643178169318563534u128, 245044687360099685434665347000146337133u128, 261676138308856451194147028266269550444u128, 279436384024154813848437280673013431065u128, 298402037041419227483658365640566588740u128, 318654909672648364505254319167929262488u128, 170141183460469231731687303715884105728u128, 181688851673850688377539127552069599232u128, 194020272759136452871913121072449323008u128, 207188640880972374233825193254612631552u128, 221250760550139932836609227367108313088u128, 236267291661697281793781435669856387072u128, 252303011164126931290527343657214803968u128, 269427092488254686881046533485512097792u128, 287713403941314941508226937857819803648u128, 307240827353347547401607574753443315712u128, 328093598350474163167634651360244400128u128, 175180834861447020226468989874232056416u128, 187070549727531559196917812917453861026u128, 199767232545952890607255496509019333039u128, 213325653114257310428744028742785781912u128, 227804298516055047806476167412340090352u128, 243265625417291205836310243227923719532u128, 259776329486140560138677002900131432918u128, 277407633098725295421526662764935275289u128, 296235592571734482952577544661578831571u128, 316341426247257477645159711999449660471u128, 337811864845093800590802876046287308325u128, 180369762796928745579122531717097251784u128, 192611655877384358682393055110005707838u128, 205684419630781050995309380627725821797u128, 219644446158456132093135554410564634898u128, 234551954955343535589691141355422293223u128, 250471252679363433757155530343900661758u128, 267471010551644448060009348077202513313u128, 285624560584202347610957248166426707331u128, 305010211912915299914630616083972269987u128, 325711588600364141070945877624827809796u128]);
        reveal_with_fuel(powi, 8);
        assert(SMALL_INT_POWERS@ =~= seq![1u128, 24u128, 576u128, 13824u128, 331776u128, 7962624u128, 191102976u128]);
    }
    ModeratePathPowers { small: ExtendedPowers { mant: &SMALL_MANT, exp: &SMALL_EXP }, large: ExtendedPowers { mant: &LARGE_MANT, exp: &LARGE_EXP }, small_int: &SMALL_INT_POWERS, step: STEP, bias: BIAS }
}

} // verus!
