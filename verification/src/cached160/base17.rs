//! Cached powers of 17.

use vstd::prelude::*;
use crate::cached::{ExtendedPowers, ModeratePathPowers};
use crate::cached160::{is_normalized_table, is_int_powers_table};
use crate::limbs::powi;

verus! {

/// Step between the large powers of 17, and number of small powers.
pub const STEP: i32 = 8;
/// Exponent bias of the large powers of 17.
pub const BIAS: i32 = 296;
/// Mantissas of the small powers of 17.
pub const SMALL_MANT: [u128; 8] = [170141183460469231731687303715884105728, 180775007426748558714917760198126862336, 192073445390920343634600120210509791232, 204078035727852865111762627723666653184, 216832912960843669181247791956395819008, 230384970020896398505075778953670557696, 244784030647202423411643015138274967552, 260083032562652574874870703584417153024];
/// Binary exponents of the small powers of 17.
pub const SMALL_EXP: [i32; 8] = [-127, -123, -119, -115, -111, -107, -103, -99];
/// Small powers of 17 as integers.
pub const SMALL_INT_POWERS: [u128; 8] = [1, 17, 289, 4913, 83521, 1419857, 24137569, 410338673];
/// Mantissas of the large powers of 17.
pub const LARGE_MANT: [u128; 69] = [183748361348386970108177566939545116168, 298438593500193022210049498250663150397, 242357519372662728375060373498171096966, 196814917627041423628769027913700117445, 319660903452112403161269325795427500295, 259591839957616255097162958982226744872, 210810651677570156300974624360660789801, 171196178077006380843936555487576333355, 278051712804343163076920967240438328697, 225801638394791143591435147984466155468, 183370134237042583472660416437030762483, 297824288336843871393537735572731133862, 241858651334916724628852435647948831754, 196409794352921881357331916371145369426, 319002914345514633220184430371226516661, 259057496842743054458415989246502258570, 210376719623757394611528557965027181599, 170843788344482468189688357828247614648, 277479371939006412580670873073737346072, 225336848935989032116058614991615739830, 182992685667322765043701960137104341962, 297211247657519026846228781764556419486, 241360810165739638162969982622013142483, 196005504983412884662857445298594989473, 318346279641847361755138868550752397781, 258524253618237975606418771469177669493, 209943680774466452613153056292584472116, 170492123969995067410761994182235561833, 276908209178500704519431941303594138118, 224873016198504574919954139464723650485, 182616014036679619640392724861134514431, 296599468859408121472112670217716316867, 240863993751428088431121063565557553364, 195602047802007523394399179976814437447, 317690996553211397504541477525504659745, 257992108020089771434235624403421929746, 209511533291127649202286079418781645629, 170141183460469231731687303715884105728, 276338222097818360804550122558443225088, 224410138213025296601555690180338253824, 182240117745863932172015090234506084352, 295988949345058405730513287165118905920, 240368199982629535993820184805831872348, 195199421095732140407812372336079928061, 317037062297446153078380490386689107619, 257461057788947429232455063849242347039, 209080275338955809947349984471742343690, 339581930651806711314806824645491109283, 275769408276943332346622203534744539377, 223948213014292349032159641795245781843, 181864995198918377644202761532864575404, 295379686522363719531147616048257012833, 239873426754333326759263874720553852658, 194797623155139058727680168785666503632, 316384474098117832632118586933880356805, 256931100670110578075784008065054807112, 208649905086942477070838417411852870460, 338882936158725697632383782036927673666, 275201765300840924300371814765015192837, 223487238641092167380922055560365365575, 181490644803170745141604509031893001355, 294771677804553486829405243638525556429, 239379671965861754658715697694088165244, 194396652274299323679629299288271234884, 315733229184507643855046849844924656388, 256402234413519915955050497805856036474, 208220420707848135466354215936729966175, 338185380473947645648707735110624890484, 274635290759447542459052551448368297186];
/// Binary exponents of the large powers of 17.
pub const LARGE_EXP: [i32; 69] = [-1337, -1305, -1272, -1239, -1207, -1174, -1141, -1108, -1076, -1043, -1010, -978, -945, -912, -880, -847, -814, -781, -749, -716, -683, -651, -618, -585, -553, -520, -487, -454, -422, -389, -356, -324, -291, -258, -226, -193, -160, -127, -95, -62, -29, 3, 36, 69, 101, 134, 167, 199, 232, 265, 298, 330, 363, 396, 428, 461, 494, 526, 559, 592, 625, 657, 690, 723, 755, 788, 821, 853, 886];

/// The cached powers of 17.
pub open spec fn powers_spec() -> ModeratePathPowers<u128> {
    ModeratePathPowers { small: ExtendedPowers { mant: &SMALL_MANT, exp: &SMALL_EXP }, large: ExtendedPowers { mant: &LARGE_MANT, exp: &LARGE_EXP }, small_int: &SMALL_INT_POWERS, step: STEP, bias: BIAS }
}

/// The cached powers of 17, with their mantissas normalized and their
/// integer powers exact.
pub fn powers() -> (r: ModeratePathPowers<u128>)
    ensures
        r == powers_spec(),
        r.step == 8,
        r.bias == 296,
        r.small.mant@.len() == 8,
        r.small.exp@.len() == 8,
        r.small_int@.len() == 8,
        r.large.mant@.len() == 69,
        r.large.exp@.len() == 69,
        is_normalized_table(r.small.mant@),
        is_normalized_table(r.large.mant@),
        is_int_powers_table(17, r.small_int@),
{
    proof {
        assert(SMALL_MANT@ =~= seq![170141183460469231731687303715884105728u128, 180775007426748558714917760198126862336u128, 192073445390920343634600120210509791232u128, 204078035727852865111762627723666653184u128, 216832912960843669181247791956395819008u128, 230384970020896398505075778953670557696u128, 244784030647202423411643015138274967552u128, 260083032562652574874870703584417153024u128]);
        assert(LARGE_MANT@ =~= seq![183748361348386970108177566939545116168u128, 298438593500193022210049498250663150397u128, 242357519372662728375060373498171096966u128, 196814917627041423628769027913700117445u128, 319660903452112403161269325795427500295u128, 259591839957616255097162958982226744872u128, 210810651677570156300974624360660789801u128, 171196178077006380843936555487576333355u128, 278051712804343163076920967240438328697u128, 225801638394791143591435147984466155468u128, 183370134237042583472660416437030762483u128, 297824288336843871393537735572731133862u128, 241858651334916724628852435647948831754u128, 196409794352921881357331916371145369426u128, 319002914345514633220184430371226516661u128, 259057496842743054458415989246502258570u128, 210376719623757394611528557965027181599u128, 170843788344482468189688357828247614648u128, 277479371939006412580670873073737346072u128, 225336848935989032116058614991615739830u128, 182992685667322765043701960137104341962u128, 297211247657519026846228781764556419486u128, 241360810165739638162969982622013142483u128, 196005504983412884662857445298594989473u128, 318346279641847361755138868550752397781u128, 258524253618237975606418771469177669493u128, 209943680774466452613153056292584472116u128, 170492123969995067410761994182235561833u128, 276908209178500704519431941303594138118u128, 224873016198504574919954139464723650485u128, 182616014036679619640392724861134514431u128, 296599468859408121472112670217716316867u128, 240863993751428088431121063565557553364u128, 195602047802007523394399179976814437447u128, 317690996553211397504541477525504659745u128, 257992108020089771434235624403421929746u128, 209511533291127649202286079418781645629u128, 170141183460469231731687303715884105728u128, 276338222097818360804550122558443225088u128, 224410138213025296601555690180338253824u128, 182240117745863932172015090234506084352u128, 295988949345058405730513287165118905920u128, 240368199982629535993820184805831872348u128, 195199421095732140407812372336079928061u128, 317037062297446153078380490386689107619u128, 257461057788947429232455063849242347039u128, 209080275338955809947349984471742343690u128, 339581930651806711314806824645491109283u128, 275769408276943332346622203534744539377u128, 223948213014292349032159641795245781843u128, 181864995198918377644202761532864575404u128, 295379686522363719531147616048257012833u128, 239873426754333326759263874720553852658u128, 194797623155139058727680168785666503632u128, 316384474098117832632118586933880356805u128, 256931100670110578075784008065054807112u128, 208649905086942477070838417411852870460u128, 338882936158725697632383782036927673666u128, 275201765300840924300371814765015192837u128, 223487238641092167380922055560365365575u128, 181490644803170745141604509031893001355u128, 294771677804553486829405243638525556429u128, 239379671965861754658715697694088165244u128, 194396652274299323679629299288271234884u128, 315733229184507643855046849844924656388u128, 256402234413519915955050497805856036474u128, 208220420707848135466354215936729966175u128, 338185380473947645648707735110624890484u128, 274635290759447542459052551448368297186u128]);
        reveal_with_fuel(powi, 9);
        assert(SMALL_INT_POWERS@ =~= seq![1u128, 17u128, 289u128, 4913u128, 83521u128, 1419857u128, 24137569u128, 410338673u128]);
    }
    ModeratePathPowers { small: ExtendedPowers { mant: &SMALL_MANT, exp: &SMALL_EXP }, large: ExtendedPowers { mant: &LARGE_MANT, exp: &LARGE_EXP }, small_int: &SMALL_INT_POWERS, step: STEP, bias: BIAS }
}

} // verus!
