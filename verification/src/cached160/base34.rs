//! Cached powers of 34.

use vstd::prelude::*;
use crate::cached::{ExtendedPowers, ModeratePathPowers};
use crate::cached160::{is_normalized_table, is_int_powers_table};
use crate::limbs::powi;

verus! {

/// Step between the large powers of 34, and number of small powers.
pub const STEP: i32 = 6;
/// Exponent bias of the large powers of 34.
pub const BIAS: i32 = 240;
/// Mantissas of the small powers of 34.
pub const SMALL_MANT: [u128; 6] = [170141183460469231731687303715884105728, 180775007426748558714917760198126862336, 192073445390920343634600120210509791232, 204078035727852865111762627723666653184, 216832912960843669181247791956395819008, 230384970020896398505075778953670557696];
/// Binary exponents of the small powers of 34.
pub const SMALL_EXP: [i32; 6] = [-127, -122, -117, -112, -107, -102];
/// Small powers of 34 as integers.
pub const SMALL_INT_POWERS: [u128; 6] = [1, 34, 1156, 39304, 1336336, 45435424];
/// Mantissas of the large powers of 34.
pub const LARGE_MANT: [u128; 74] = [171196178077006380843936555487576333355, 246301863245369722310352137071114920922, 177178627816250193201809052313908765038, 254908880844119689445018585029338745822, 183370134237042583472660416437030762483, 263816670637481076390123392064426194701, 189778002824260993825223275854263893366, 273035743108558333663040444930692235847, 196409794352921881357331916371145369426, 282576976029244796208883094031259474966, 203273333809293576669182005378991774735, 292451627295127901322196175360309190338, 210376719623757394611528557965027181599, 302671348208910116654395983418902348443, 217728333226311038599715596529740433091, 313248197228018957952397977805898800839, 225336848935989032116058614991615739830, 324194654192627182361160566056046446660, 233211244195868906543198111154344051285, 335523635050871088900625460663893770435, 241360810165739638162969982622013142483, 173624253549320755964330470575918052959, 249795162684930840147804514904540284970, 179691552375964624115693619162436412029, 258524253618237975606418771469177669493, 185970872935167515117533503151908736546, 267558382598330880564928534158522761469, 192469624325502244069180532494789364726, 276908209178500704519431941303594138118, 199195474556460799929094324231727524305, 286584765410084542875511011996966308779, 206156359596095351859662099550265135432, 296599468859408121472112670217716316867, 213360492734829033350750838314127106094, 306964136079605489713373754120772284157, 220816374276485055706958449270700673524, 317690996553211397504541477525504659745, 228532801567968794073232940648013889325, 328792707121977505492535302517672775182, 236518879379437072732268269343858967136, 170141183460469231731687303715884105728, 244784030647202423411643015138274967552, 176086766417174433233313223161344425984, 253338007592048088741599978367647481856, 182240117745863932172015090234506084352, 262190903226072497809728032921351003168, 188608497911442742195268251474898499613, 271353163261640374618023568003458637143, 195199421095732140407812372336079928061, 280835598436492094076350884217966821974, 202020664063606263361049018383687293681, 290649397269553933781951224423558743337, 209080275338955809947349984471742343690, 300806139262500062617960370620227418603, 216386584701305758176605078134277823932, 311317808562643058781928971959145202656, 223948213014292349032159641795245781843, 322196808103274080809106622508050735664, 231774082397596158130210248504430880773, 333455974238137167751959613429477643393, 239873426754333326759263874720553852658, 172554295943652591814138834633669982456, 248255802666326436218178945574152405546, 178584205106164167247426311765412935775, 256931100670110578075784008065054807112, 184824829419575343010846487395966556532, 265909556926979410208640982981191461086, 191283532323968216046404126970062690800, 275201765300840924300371814765015192837, 197967934574808286676526111499839216564, 284818689858133833493377548255268489047, 204885923234829474007514465274285458561, 294771677804553486829405243638525556429, 212045660980140516237478265085420658486];
/// Binary exponents of the large powers of 34.
pub const LARGE_EXP: [i32; 74] = [-1348, -1318, -1287, -1257, -1226, -1196, -1165, -1135, -1104, -1074, -1043, -1013, -982, -952, -921, -891, -860, -830, -799, -769, -738, -707, -677, -646, -616, -585, -555, -524, -494, -463, -433, -402, -372, -341, -311, -280, -250, -219, -189, -158, -127, -97, -66, -36, -5, 25, 56, 86, 117, 147, 178, 208, 239, 269, 300, 330, 361, 391, 422, 452, 483, 514, 544, 575, 605, 636, 666, 697, 727, 758, 788, 819, 849, 880];

/// The cached powers of 34.
pub open spec fn powers_spec() -> ModeratePathPowers<u128> {
    ModeratePathPowers { small: ExtendedPowers { mant: &SMALL_MANT, exp: &SMALL_EXP }, large: ExtendedPowers { mant: &LARGE_MANT, exp: &LARGE_EXP }, small_int: &SMALL_INT_POWERS, step: STEP, bias: BIAS }
}

/// The cached powers of 34, with their mantissas normalized and their
/// integer powers exact.
pub fn powers() -> (r: ModeratePathPowers<u128>)
    ensures
        r == powers_spec(),
        r.step == 6,
        r.bias == 240,
        r.small.mant@.len() == 6,
        r.small.exp@.len() == 6,
        r.small_int@.len() == 6,
        r.large.mant@.len() == 74,
        r.large.exp@.len() == 74,
        is_normalized_table(r.small.mant@),
        is_normalized_table(r.large.mant@),
        is_int_powers_table(34, r.small_int@),
{
    proof {
        assert(SMALL_MANT@ =~= seq![170141183460469231731687303715884105728u128, 180775007426748558714917760198126862336u128, 192073445390920343634600120210509791232u128, 204078035727852865111762627723666653184u128, 216832912960843669181247791956395819008u128, 230384970020896398505075778953670557696u128]);
        assert(LARGE_MANT@ =~= seq![171196178077006380843936555487576333355u128, 246301863245369722310352137071114920922u128, 177178627816250193201809052313908765038u128, 254908880844119689445018585029338745822u128, 183370134237042583472660416437030762483u128, 263816670637481076390123392064426194701u128, 189778002824260993825223275854263893366u128, 273035743108558333663040444930692235847u128, 196409794352921881357331916371145369426u128, 282576976029244796208883094031259474966u128, 203273333809293576669182005378991774735u128, 292451627295127901322196175360309190338u128, 210376719623757394611528557965027181599u128, 302671348208910116654395983418902348443u128, 217728333226311038599715596529740433091u128, 313248197228018957952397977805898800839u128, 225336848935989032116058614991615739830u128, 324194654192627182361160566056046446660u128, 233211244195868906543198111154344051285u128, 335523635050871088900625460663893770435u128, 241360810165739638162969982622013142483u128, 173624253549320755964330470575918052959u128, 249795162684930840147804514904540284970u128, 179691552375964624115693619162436412029u128, 258524253618237975606418771469177669493u128, 185970872935167515117533503151908736546u128, 267558382598330880564928534158522761469u128, 192469624325502244069180532494789364726u128, 276908209178500704519431941303594138118u128, 199195474556460799929094324231727524305u128, 286584765410084542875511011996966308779u128, 206156359596095351859662099550265135432u128, 296599468859408121472112670217716316867u128, 213360492734829033350750838314127106094u128, 306964136079605489713373754120772284157u128, 220816374276485055706958449270700673524u128, 317690996553211397504541477525504659745u128, 228532801567968794073232940648013889325u128, 328792707121977505492535302517672775182u128, 236518879379437072732268269343858967136u128, 170141183460469231731687303715884105728u128, 244784030647202423411643015138274967552u128, 176086766417174433233313223161344425984u128, 253338007592048088741599978367647481856u128, 182240117745863932172015090234506084352u128, 262190903226072497809728032921351003168u128, 188608497911442742195268251474898499613u128, 271353163261640374618023568003458637143u128, 195199421095732140407812372336079928061u128, 280835598436492094076350884217966821974u128, 202020664063606263361049018383687293681u128, 290649397269553933781951224423558743337u128, 209080275338955809947349984471742343690u128, 300806139262500062617960370620227418603u128, 216386584701305758176605078134277823932u128, 311317808562643058781928971959145202656u128, 223948213014292349032159641795245781843u128, 322196808103274080809106622508050735664u128, 231774082397596158130210248504430880773u128, 333455974238137167751959613429477643393u128, 239873426754333326759263874720553852658u128, 172554295943652591814138834633669982456u128, 248255802666326436218178945574152405546u128, 178584205106164167247426311765412935775u128, 256931100670110578075784008065054807112u128, 184824829419575343010846487395966556532u128, 265909556926979410208640982981191461086u128, 191283532323968216046404126970062690800u128, 275201765300840924300371814765015192837u128, 197967934574808286676526111499839216564u128, 284818689858133833493377548255268489047u128, 204885923234829474007514465274285458561u128, 294771677804553486829405243638525556429u128, 212045660980140516237478265085420658486u128]);
        reveal_with_fuel(powi, 7);
        assert(SMALL_INT_POWERS@ =~= seq![1u128, 34u128, 1156u128, 39304u128, 1336336u128, 45435424u128]);
    }
    ModeratePathPowers { small: ExtendedPowers { mant: &SMALL_MANT, exp: &SMALL_EXP }, large: ExtendedPowers { mant: &LARGE_MANT, exp: &LARGE_EXP }, small_int: &SMALL_INT_POWERS, step: STEP, bias: BIAS }
}

} // verus!
