//! Cached powers of 31.

use vstd::prelude::*;
use crate::cached::{ExtendedPowers, ModeratePathPowers};
use crate::cached160::{is_normalized_table, is_int_powers_table};
use crate::limbs::powi;

verus! {

/// Step between the large powers of 31, and number of small powers.
pub const STEP: i32 = 6;
/// Exponent bias of the large powers of 31.
pub const BIAS: i32 = 246;
/// Mantissas of the small powers of 31.
pub const SMALL_MANT: [u128; 6] = [170141183460469231731687303715884105728, 329648542954659136480144150949525454848, 319347025987326038465139646232352784384, 309367431425222099763104032287591759872, 299699699193183909145507031278604517376, 290334083593396911984709936551148126208];
/// Binary exponents of the small powers of 31.
pub const SMALL_EXP: [i32; 6] = [-127, -123, -118, -113, -108, -103];
/// Small powers of 31 as integers.
pub const SMALL_INT_POWERS: [u128; 6] = [1, 31, 961, 29791, 923521, 28629151];
/// Mantissas of the large powers of 31.
pub const LARGE_MANT: [u128; 76] = [204831846702799730753125349709599684516, 338608432439644772651060763973150404254, 279877549230888994466722529922465951128, 231333407733284590292354000091386191754, 191209140142019782313183919746595976478, 316088675925298444140273004034743674741, 261263794643914746305034655542823358647, 215948167684024592485185159022754788335, 178492435929157837038046463019461592108, 295066635902569136770934561228011804883, 243887980937787207068127465341221873783, 201586150409601608540557644579125879351, 333242957530806000015262416296943861408, 275442704070282164877682412643443854572, 227667776650720372831068985136241988697, 188179304658062925738530341045324738580, 311080041475689584245114254221154550706, 257123896754632869764136622554477725012, 212526325921342359594316086083656739425, 175664105047096554749814041961690625344, 290391109602281582919653498207198252857, 240023414326551697067636257878891518439, 198391884324143423870507706735824676989, 327962502126029666246881442269148110223, 271078131968920728852328597367236335349, 224060229920801636254083864004341099802, 185197478924335716894196793983277050828, 306150772156692797734166574102932652557, 253049598289706899575201136976026000492, 209158705508044155113481306826330986049, 172880590941369685133685946960988620150, 285789670113326703641484035227164931190, 236220084333189890382264913587684321799, 195248233500715771863466694882341429463, 322765719034956327944217102842371688313, 266782719403631527651786656524762917448, 220509847158485190531810693342620280466, 182262902194543738831736462131829646508, 301299610375241462753468658335350302125, 249039859782804352657429715423616325073, 205844447270932349829274233837837318735, 170141183460469231731687303715884105728, 281261143481103258485187751033924747264, 232477020622927971041480650211423420416, 192154395906963839472434931204572053504, 317651282414350176352409831205456445952, 262555370495753687560337482407159416999, 217015722562838525119352550468059930336, 179374825776921533841673613411506136043, 296525318465664137401900073705767585881, 245093658238625334625948305994309525378, 202582705650977753904076181059390370572, 334890367411416504232175148268475073388, 276804374353098300220638069068074602530, 228793268236589371413606590094648720070, 189109582219266748069833984779993889354, 312617887429839722873414506299686714932, 258395006731549634868442333657079980382, 213576964685944914612871149421565862652, 176532512843220607081571440296564925357, 291826678373921783044839874892818001863, 241209986871908117885122799335937441435, 199372648487594099824157002892036768477, 329583807705824908665978895106558273752, 272418225684124763666228455375305707749, 225167887346958248891898253497228074938, 186113015621359245893427982047443315204, 307664249923018427479642383336104189758, 254300566687046383525258086411660098107, 210192696205470376085866529648531617961, 173735238240724141814430167095519087450, 287202491346848457988114640516635531033, 237387854850570349221700427782261535085, 196213456806330839063706448987155946803, 324361333953874416226256763524449662322, 268101578446229760174200876130811505774];
/// Binary exponents of the large powers of 31.
pub const LARGE_EXP: [i32; 76] = [-1346, -1317, -1287, -1257, -1227, -1198, -1168, -1138, -1108, -1079, -1049, -1019, -990, -960, -930, -900, -871, -841, -811, -781, -752, -722, -692, -663, -633, -603, -573, -544, -514, -484, -454, -425, -395, -365, -336, -306, -276, -246, -217, -187, -157, -127, -98, -68, -38, -9, 21, 51, 81, 110, 140, 170, 199, 229, 259, 289, 318, 348, 378, 408, 437, 467, 497, 526, 556, 586, 616, 645, 675, 705, 735, 764, 794, 824, 853, 883];

/// The cached powers of 31.
pub open spec fn powers_spec() -> ModeratePathPowers<u128> {
    ModeratePathPowers { small: ExtendedPowers { mant: &SMALL_MANT, exp: &SMALL_EXP }, large: ExtendedPowers { mant: &LARGE_MANT, exp: &LARGE_EXP }, small_int: &SMALL_INT_POWERS, step: STEP, bias: BIAS }
}

/// The cached powers of 31, with their mantissas normalized and their
/// integer powers exact.
pub fn powers() -> (r: ModeratePathPowers<u128>)
    ensures
        r == powers_spec(),
        r.step == 6,
        r.bias == 246,
        r.small.mant@.len() == 6,
        r.small.exp@.len() == 6,
        r.small_int@.len() == 6,
        r.large.mant@.len() == 76,
        r.large.exp@.len() == 76,
        is_normalized_table(r.small.mant@),
        is_normalized_table(r.large.mant@),
        is_int_powers_table(31, r.small_int@),
{
    proof {
        assert(SMALL_MANT@ =~= seq![170141183460469231731687303715884105728u128, 329648542954659136480144150949525454848u128, 319347025987326038465139646232352784384u128, 309367431425222099763104032287591759872u128, 299699699193183909145507031278604517376u128, 290334083593396911984709936551148126208u128]);
        assert(LARGE_MANT@ =~= seq![204831846702799730753125349709599684516u128, 338608432439644772651060763973150404254u128, 279877549230888994466722529922465951128u128, 231333407733284590292354000091386191754u128, 191209140142019782313183919746595976478u128, 316088675925298444140273004034743674741u128, 261263794643914746305034655542823358647u128, 215948167684024592485185159022754788335u128, 178492435929157837038046463019461592108u128, 295066635902569136770934561228011804883u128, 243887980937787207068127465341221873783u128, 201586150409601608540557644579125879351u128, 333242957530806000015262416296943861408u128, 275442704070282164877682412643443854572u128, 227667776650720372831068985136241988697u128, 188179304658062925738530341045324738580u128, 311080041475689584245114254221154550706u128, 257123896754632869764136622554477725012u128, 212526325921342359594316086083656739425u128, 175664105047096554749814041961690625344u128, 290391109602281582919653498207198252857u128, 240023414326551697067636257878891518439u128, 198391884324143423870507706735824676989u128, 327962502126029666246881442269148110223u128, 271078131968920728852328597367236335349u128, 224060229920801636254083864004341099802u128, 185197478924335716894196793983277050828u128, 306150772156692797734166574102932652557u128, 253049598289706899575201136976026000492u128, 209158705508044155113481306826330986049u128, 172880590941369685133685946960988620150u128, 285789670113326703641484035227164931190u128, 236220084333189890382264913587684321799u128, 195248233500715771863466694882341429463u128, 322765719034956327944217102842371688313u128, 266782719403631527651786656524762917448u128, 220509847158485190531810693342620280466u128, 182262902194543738831736462131829646508u128, 301299610375241462753468658335350302125u128, 249039859782804352657429715423616325073u128, 205844447270932349829274233837837318735u128, 170141183460469231731687303715884105728u128, 281261143481103258485187751033924747264u128, 232477020622927971041480650211423420416u128, 192154395906963839472434931204572053504u128, 317651282414350176352409831205456445952u128, 262555370495753687560337482407159416999u128, 217015722562838525119352550468059930336u128, 179374825776921533841673613411506136043u128, 296525318465664137401900073705767585881u128, 245093658238625334625948305994309525378u128, 202582705650977753904076181059390370572u128, 334890367411416504232175148268475073388u128, 276804374353098300220638069068074602530u128, 228793268236589371413606590094648720070u128, 189109582219266748069833984779993889354u128, 312617887429839722873414506299686714932u128, 258395006731549634868442333657079980382u128, 213576964685944914612871149421565862652u128, 176532512843220607081571440296564925357u128, 291826678373921783044839874892818001863u128, 241209986871908117885122799335937441435u128, 199372648487594099824157002892036768477u128, 329583807705824908665978895106558273752u128, 272418225684124763666228455375305707749u128, 225167887346958248891898253497228074938u128, 186113015621359245893427982047443315204u128, 307664249923018427479642383336104189758u128, 254300566687046383525258086411660098107u128, 210192696205470376085866529648531617961u128, 173735238240724141814430167095519087450u128, 287202491346848457988114640516635531033u128, 237387854850570349221700427782261535085u128, 196213456806330839063706448987155946803u128, 324361333953874416226256763524449662322u128, 268101578446229760174200876130811505774u128]);
        reveal_with_fuel(powi, 7);
        assert(SMALL_INT_POWERS@ =~= seq![1u128, 31u128, 961u128, 29791u128, 923521u128, 28629151u128]);
    }
    ModeratePathPowers { small: ExtendedPowers { mant: &SMALL_MANT, exp: &SMALL_EXP }, large: ExtendedPowers { mant: &LARGE_MANT, exp: &LARGE_EXP }, small_int: &SMALL_INT_POWERS, step: STEP, bias: BIAS }
}

} // verus!
