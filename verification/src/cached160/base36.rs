//! Cached powers of 36.

use vstd::prelude::*;
use crate::cached::{ExtendedPowers, ModeratePathPowers};
use crate::cached160::{is_normalized_table, is_int_powers_table};
use crate::limbs::powi;

verus! {

/// Step between the large powers of 36, and number of small powers.
pub const STEP: i32 = 6;
/// Exponent bias of the large powers of 36.
pub const BIAS: i32 = 234;
/// Mantissas of the small powers of 36.
pub const SMALL_MANT: [u128; 6] = [170141183460469231731687303715884105728, 191408831393027885698148216680369618944, 215334935317156371410416743765415821312, 242251802231800917836718836736092798976, 272533277510776032566308691328104398848, 306599937199623036637097277744117448704];
/// Binary exponents of the small powers of 36.
pub const SMALL_EXP: [i32; 6] = [-127, -122, -117, -112, -107, -102];
/// Small powers of 36 as integers.
pub const SMALL_INT_POWERS: [u128; 6] = [1, 36, 1296, 46656, 1679616, 60466176];
/// Mantissas of the large powers of 36.
pub const LARGE_MANT: [u128; 73] = [200594500948068090486693848039128919647, 203331264836010463860204821197057175037, 206105367118290399407064648402758144682, 208917317212507950117664039252872831665, 211767631486382365261996259087726574961, 214656833352574406771088703014069554755, 217585453364802351586979201161384846208, 220554029315269330081435801781477974040, 223563106333419891448609016293621894840, 226613236986043931067161987739751269180, 229704981378746362247969882824709232796, 232838907258801165579649662968151663564, 236015590119408703302029793810763336632, 239235613305375443823879271798297650114, 242499568120235502703106353919523432682, 245808053934833671173174941698733239342, 249161678297389871677290466673500998400, 252561057045065251911260457800735557729, 256006814417050404626793229969178591795, 259499583169196479959998361450291137700, 263040004690210240376322725691803307553, 266628729119434395515123988465075762881, 270266415466234845327287688358055741312, 273953731731016754981191818978678705632, 277691355027891684120101092281051616669, 281479971709018296242657937208050445965, 285320277490639481303204301467482637509, 289212977580839036146652597763405686112, 293158786809041363160730749526943361727, 297158429757277967604640789526650060843, 301212640893244858516269504216828222245, 305322164705175286969651759320250334279, 309487755838552588810803796052767101096, 313710179234688236904530296665341569850, 317990210271190550439415903835536554761, 322328634904349856025836233807108654402, 326726249813466247246220462666861782844, 331183862547146446042592332649497399781, 335702291671596630919115661345637412333, 170141183460469231731687303715884105728, 172462464674787958108367218731066064896, 174815415743320440759790006808579407872, 177200468746272961345336076752392290304, 179618061658836457920697688990341398528, 182068638431613361423174859113151594496, 184552649072141716781794491390137475072, 187070549727531559196917812917453861026, 189622802768228720381105803326920695033, 192209876872921446586714266254161951235, 194832247114605420104007752175098574688, 197490395047822988635051696441052554380, 200184808797092622572327630249651738267, 202915983146544838776512848181734408257, 205684419630781050995309380627725821797, 208490626626972031635281014538153149532, 211335119448212897232599978727666183358, 214218420438151760708217936124820030498, 217141059066909427380630585083218539864, 220103572028307748788051030668660629356, 223106503338424488684979682521025988628, 226150404435492799169987273137391228527, 229235834281163651816744244429413474808, 232363359463149818964276081092475750857, 235533554299270254021060647605641184828, 238747000942913976797497733353022683918, 242004289489942830549695955106475311593, 245306018087052741642305313258629505287, 248652793041613380567795520750960012282, 252045228933006394543323172270604972624, 255483948725482657093998355855298189652, 258969583882559258973487053363982248701, 262502774482977247520692697766891651596, 266084169338241408156670471179837543899];
/// Binary exponents of the large powers of 36.
pub const LARGE_EXP: [i32; 73] = [-1337, -1306, -1275, -1244, -1213, -1182, -1151, -1120, -1089, -1058, -1027, -996, -965, -934, -903, -872, -841, -810, -779, -748, -717, -686, -655, -624, -593, -562, -531, -500, -469, -438, -407, -376, -345, -314, -283, -252, -221, -190, -159, -127, -96, -65, -34, -3, 28, 59, 90, 121, 152, 183, 214, 245, 276, 307, 338, 369, 400, 431, 462, 493, 524, 555, 586, 617, 648, 679, 710, 741, 772, 803, 834, 865, 896];

/// The cached powers of 36.
pub open spec fn powers_spec() -> ModeratePathPowers<u128> {
    ModeratePathPowers { small: ExtendedPowers { mant: &SMALL_MANT, exp: &SMALL_EXP }, large: ExtendedPowers { mant: &LARGE_MANT, exp: &LARGE_EXP }, small_int: &SMALL_INT_POWERS, step: STEP, bias: BIAS }
}

/// The cached powers of 36, with their mantissas normalized and their
/// integer powers exact.
pub fn powers() -> (r: ModeratePathPowers<u128>)
    ensures
        r == powers_spec(),
        r.step == 6,
        r.bias == 234,
        r.small.mant@.len() == 6,
        r.small.exp@.len() == 6,
        r.small_int@.len() == 6,
        r.large.mant@.len() == 73,
        r.large.exp@.len() == 73,
        is_normalized_table(r.small.mant@),
        is_normalized_table(r.large.mant@),
        is_int_powers_table(36, r.small_int@),
{
    proof {
        assert(SMALL_MANT@ =~= seq![170141183460469231731687303715884105728u128, 191408831393027885698148216680369618944u128, 215334935317156371410416743765415821312u128, 242251802231800917836718836736092798976u128, 272533277510776032566308691328104398848u128, 306599937199623036637097277744117448704u128]);
        assert(LARGE_MANT@ =~= seq![200594500948068090486693848039128919647u128, 203331264836010463860204821197057175037u128, 206105367118290399407064648402758144682u128, 208917317212507950117664039252872831665u128, 211767631486382365261996259087726574961u128, 214656833352574406771088703014069554755u128, 217585453364802351586979201161384846208u128, 220554029315269330081435801781477974040u128, 223563106333419891448609016293621894840u128, 226613236986043931067161987739751269180u128, 229704981378746362247969882824709232796u128, 232838907258801165579649662968151663564u128, 236015590119408703302029793810763336632u128, 239235613305375443823879271798297650114u128, 242499568120235502703106353919523432682u128, 245808053934833671173174941698733239342u128, 249161678297389871677290466673500998400u128, 252561057045065251911260457800735557729u128, 256006814417050404626793229969178591795u128, 259499583169196479959998361450291137700u128, 263040004690210240376322725691803307553u128, 266628729119434395515123988465075762881u128, 270266415466234845327287688358055741312u128, 273953731731016754981191818978678705632u128, 277691355027891684120101092281051616669u128, 281479971709018296242657937208050445965u128, 285320277490639481303204301467482637509u128, 289212977580839036146652597763405686112u128, 293158786809041363160730749526943361727u128, 297158429757277967604640789526650060843u128, 301212640893244858516269504216828222245u128, 305322164705175286969651759320250334279u128, 309487755838552588810803796052767101096u128, 313710179234688236904530296665341569850u128, 317990210271190550439415903835536554761u128, 322328634904349856025836233807108654402u128, 326726249813466247246220462666861782844u128, 331183862547146446042592332649497399781u128, 335702291671596630919115661345637412333u128, 170141183460469231731687303715884105728u128, 172462464674787958108367218731066064896u128, 174815415743320440759790006808579407872u128, 177200468746272961345336076752392290304u128, 179618061658836457920697688990341398528u128, 182068638431613361423174859113151594496u128, 184552649072141716781794491390137475072u128, 187070549727531559196917812917453861026u128, 189622802768228720381105803326920695033u128, 192209876872921446586714266254161951235u128, 194832247114605420104007752175098574688u128, 197490395047822988635051696441052554380u128, 200184808797092622572327630249651738267u128, 202915983146544838776512848181734408257u128, 205684419630781050995309380627725821797u128, 208490626626972031635281014538153149532u128, 211335119448212897232599978727666183358u128, 214218420438151760708217936124820030498u128, 217141059066909427380630585083218539864u128, 220103572028307748788051030668660629356u128, 223106503338424488684979682521025988628u128, 226150404435492799169987273137391228527u128, 229235834281163651816744244429413474808u128, 232363359463149818964276081092475750857u128, 235533554299270254021060647605641184828u128, 238747000942913976797497733353022683918u128, 242004289489942830549695955106475311593u128, 245306018087052741642305313258629505287u128, 248652793041613380567795520750960012282u128, 252045228933006394543323172270604972624u128, 255483948725482657093998355855298189652u128, 258969583882559258973487053363982248701u128, 262502774482977247520692697766891651596u128, 266084169338241408156670471179837543899u128]);
        reveal_with_fuel(powi, 7);
        assert(SMALL_INT_POWERS@ =~= seq![1u128, 36u128, 1296u128, 46656u128, 1679616u128, 60466176u128]);
    }
    ModeratePathPowers { small: ExtendedPowers { mant: &SMALL_MANT, exp: &SMALL_EXP }, large: ExtendedPowers { mant: &LARGE_MANT, exp: &LARGE_EXP }, small_int: &SMALL_INT_POWERS, step: STEP, bias: BIAS }
}

} // verus!
