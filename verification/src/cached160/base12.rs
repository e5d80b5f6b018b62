//! Cached powers of 12.

use vstd::prelude::*;
use crate::cached::{ExtendedPowers, ModeratePathPowers};
use crate::cached160::{is_normalized_table, is_int_powers_table};
use crate::limbs::powi;

verus! {

/// Step between the large powers of 12, and number of small powers.
pub const STEP: i32 = 9;
/// Exponent bias of the large powers of 12.
pub const BIAS: i32 = 342;
/// Mantissas of the small powers of 12.
pub const SMALL_MANT: [u128; 9] = [170141183460469231731687303715884105728, 255211775190703847597530955573826158592, 191408831393027885698148216680369618944, 287113247089541828547222325020554428416, 215334935317156371410416743765415821312, 323002402975734557115625115648123731968, 242251802231800917836718836736092798976, 181688851673850688377539127552069599232, 272533277510776032566308691328104398848];
/// Binary exponents of the small powers of 12.
pub const SMALL_EXP: [i32; 9] = [-127, -124, -120, -117, -113, -110, -106, -102, -99];
/// Small powers of 12 as integers.
pub const SMALL_INT_POWERS: [u128; 9] = [1, 12, 144, 1728, 20736, 248832, 2985984, 35831808, 429981696];
/// Mantissas of the large powers of 12.
pub const LARGE_MANT: [u128; 70] = [327060412939660347810097743318775450603, 196457827999613483457829403129377966132, 236015590119408703302029793810763336632, 283538504658222748235708766575760177913, 170315197362908885300398426895467760677, 204609010601448705405745986119597896326, 245808053934833671173174941698733239342, 295302729833943551617529441983408590696, 177381702616012906692133545122052956869, 213098391881773806300126011269370626834, 256006814417050404626793229969178591795, 307555061533862494767405465422567274311, 184741402471039290909022270993420155647, 221940003957364890317522299802459040748, 266628729119434395515123988465075762881, 320315751663685742610118741757695693407, 192406461791880080316008520325217417399, 231148461148045387015380597263260157877, 277691355027891684120101092281051616669, 333605892395873536287594592246578306329, 200389550171752283164939097875653100692, 240738984132727062349578629363188475398, 289212977580839036146652597763405686112, 173723725516468955947099703423373843986, 208703862874796048578293668364396201854, 250727425107703285166415666163110988836, 301212640893244858516269504216828222245, 180931653158622392278312153671259457350, 217363142646555453321168098187951653993, 261130293988778746809115702919522241550, 313710179234688236904530296665341569850, 188438643123668474334468683754392032451, 226381702429392491474935736226666160567, 271964785700545191021799322274747927151, 326726249813466247246220462666861782844, 196257103731642338395610271199702162833, 235774449020380624184618955567855082461, 283248808597909657338003839260381566656, 170141183460469231731687303715884105728, 204399958133082024424731518496078299136, 245556907710782073166015043857318674432, 295001014066853243782145636489477750784, 177200468746272961345336076752392290304, 212880665669732098276382446210774990848, 255745247947835503562868389206950936576, 307240827353347547401607574753443315712, 184552649072141716781794491390137475072, 221713244121518884974124815309574946401, 266356310061270520809673995345359110719, 319988479671385965643116043114178672868, 192209876872921446586714266254161951235, 230912292876569386789935113689005718149, 277407633098725295421526662764935275289, 333265041643201293321649737744276185517, 200184808797092622572327630249651738267, 240493017062571660772163375622796335712, 288917483816076538023589582665008561757, 173546229063471511777292289904643662141, 208490626626972031635281014538153149532, 250471252679363433757155530343900661758, 300904886870600004067510516586852827477, 180746792244690548097558883605316900733, 217141059066909427380630585083218539864, 260863492774290665230282703014708894052, 313389656266867868879861721401276560157, 188246112191795662327951607127115677904, 226150404435492799169987273137391228527, 271686914703601365116141326731156710883, 326392428107359965184387801150473482685, 196056584547032659751107943421776414785];
/// Binary exponents of the large powers of 12.
pub const LARGE_EXP: [i32; 70] = [-1354, -1321, -1289, -1257, -1224, -1192, -1160, -1128, -1095, -1063, -1031, -999, -966, -934, -902, -870, -837, -805, -773, -741, -708, -676, -644, -611, -579, -547, -515, -482, -450, -418, -386, -353, -321, -289, -257, -224, -192, -160, -127, -95, -63, -31, 2, 34, 66, 98, 131, 163, 195, 227, 260, 292, 324, 356, 389, 421, 453, 486, 518, 550, 582, 615, 647, 679, 711, 744, 776, 808, 840, 873];

/// The cached powers of 12.
pub open spec fn powers_spec() -> ModeratePathPowers<u128> {
    ModeratePathPowers { small: ExtendedPowers { mant: &SMALL_MANT, exp: &SMALL_EXP }, large: ExtendedPowers { mant: &LARGE_MANT, exp: &LARGE_EXP }, small_int: &SMALL_INT_POWERS, step: STEP, bias: BIAS }
}

/// The cached powers of 12, with their mantissas normalized and their
/// integer powers exact.
pub fn powers() -> (r: ModeratePathPowers<u128>)
    ensures
        r == powers_spec(),
        r.step == 9,
        r.bias == 342,
        r.small.mant@.len() == 9,
        r.small.exp@.len() == 9,
        r.small_int@.len() == 9,
        r.large.mant@.len() == 70,
        r.large.exp@.len() == 70,
        is_normalized_table(r.small.mant@),
        is_normalized_table(r.large.mant@),
        is_int_powers_table(12, r.small_int@),
{
    proof {
        assert(SMALL_MANT@ =~= seq![170141183460469231731687303715884105728u128, 255211775190703847597530955573826158592u128, 191408831393027885698148216680369618944u128, 287113247089541828547222325020554428416u128, 215334935317156371410416743765415821312u128, 323002402975734557115625115648123731968u128, 242251802231800917836718836736092798976u128, 181688851673850688377539127552069599232u128, 272533277510776032566308691328104398848u128]);
        assert(LARGE_MANT@ =~= seq![327060412939660347810097743318775450603u128, 196457827999613483457829403129377966132u128, 236015590119408703302029793810763336632u128, 283538504658222748235708766575760177913u128, 170315197362908885300398426895467760677u128, 204609010601448705405745986119597896326u128, 245808053934833671173174941698733239342u128, 295302729833943551617529441983408590696u128, 177381702616012906692133545122052956869u128, 213098391881773806300126011269370626834u128, 256006814417050404626793229969178591795u128, 307555061533862494767405465422567274311u128, 184741402471039290909022270993420155647u128, 221940003957364890317522299802459040748u128, 266628729119434395515123988465075762881u128, 320315751663685742610118741757695693407u128, 192406461791880080316008520325217417399u128, 231148461148045387015380597263260157877u128, 277691355027891684120101092281051616669u128, 333605892395873536287594592246578306329u128, 200389550171752283164939097875653100692u128, 240738984132727062349578629363188475398u128, 289212977580839036146652597763405686112u128, 173723725516468955947099703423373843986u128, 208703862874796048578293668364396201854u128, 250727425107703285166415666163110988836u128, 301212640893244858516269504216828222245u128, 180931653158622392278312153671259457350u128, 217363142646555453321168098187951653993u128, 261130293988778746809115702919522241550u128, 313710179234688236904530296665341569850u128, 188438643123668474334468683754392032451u128, 226381702429392491474935736226666160567u128, 271964785700545191021799322274747927151u128, 326726249813466247246220462666861782844u128, 196257103731642338395610271199702162833u128, 235774449020380624184618955567855082461u128, 283248808597909657338003839260381566656u128, 170141183460469231731687303715884105728u128, 204399958133082024424731518496078299136u128, 245556907710782073166015043857318674432u128, 295001014066853243782145636489477750784u128, 177200468746272961345336076752392290304u128, 212880665669732098276382446210774990848u128, 255745247947835503562868389206950936576u128, 307240827353347547401607574753443315712u128, 184552649072141716781794491390137475072u128, 221713244121518884974124815309574946401u128, 266356310061270520809673995345359110719u128, 319988479671385965643116043114178672868u128, 192209876872921446586714266254161951235u128, 230912292876569386789935113689005718149u128, 277407633098725295421526662764935275289u128, 333265041643201293321649737744276185517u128, 200184808797092622572327630249651738267u128, 240493017062571660772163375622796335712u128, 288917483816076538023589582665008561757u128, 173546229063471511777292289904643662141u128, 208490626626972031635281014538153149532u128, 250471252679363433757155530343900661758u128, 300904886870600004067510516586852827477u128, 180746792244690548097558883605316900733u128, 217141059066909427380630585083218539864u128, 260863492774290665230282703014708894052u128, 313389656266867868879861721401276560157u128, 188246112191795662327951607127115677904u128, 226150404435492799169987273137391228527u128, 271686914703601365116141326731156710883u128, 326392428107359965184387801150473482685u128, 196056584547032659751107943421776414785u128]);
        reveal_with_fuel(powi, 10);
        assert(SMALL_INT_POWERS@ =~= seq![1u128, 12u128, 144u128, 1728u128, 20736u128, 248832u128, 2985984u128, 35831808u128, 429981696u128]);
    }
    ModeratePathPowers { small: ExtendedPowers { mant: &SMALL_MANT, exp: &SMALL_EXP }, large: ExtendedPowers { mant: &LARGE_MANT, exp: &LARGE_EXP }, small_int: &SMALL_INT_POWERS, step: STEP, bias: BIAS }
}

} // verus!
