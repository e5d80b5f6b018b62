//! Cached powers of 27.

use vstd::prelude::*;
use crate::cached::{ExtendedPowers, ModeratePathPowers};
use crate::cached160::{is_normalized_table, is_int_powers_table};
use crate::limbs::powi;

verus! {

/// Step between the large powers of 27, and number of small powers.
pub const STEP: i32 = 6;
/// Exponent bias of the large powers of 27.
pub const BIAS: i32 = 258;
/// Mantissas of the small powers of 27.
pub const SMALL_MANT: [u128; 6] = [170141183460469231731687303715884105728, 287113247089541828547222325020554428416, 242251802231800917836718836736092798976, 204399958133082024424731518496078299136, 172462464674787958108367218731066064896, 291030409138704679307869681608673984512];
/// Binary exponents of the small powers of 27.
pub const SMALL_EXP: [i32; 6] = [-127, -123, -118, -113, -108, -104];
/// Small powers of 27 as integers.
pub const SMALL_INT_POWERS: [u128; 6] = [1, 27, 729, 19683, 531441, 14348907];
/// Mantissas of the large powers of 27.
pub const LARGE_MANT: [u128; 79] = [200799661340208058549819756838299306108, 289804872078663861025541279674153816330, 209130989863161741765482805783015549525, 301829093537629265639465570217176944359, 217807991453958805640698687941213190524, 314352208961548438173441007673156326734, 226845008347394462887832488874694288292, 327394917835133689224334116987590197085, 236256977848340413085493360278597848651, 170489389240119998671196096475026672256, 246059457021648542224892012444309926233, 177563121844831037921653709250257605479, 256268648406457241006138264113659504394, 184930348919702200346046943747485274024, 266901426797403574706768528236472000862, 192603247770383575639211190527648274245, 277975367137008028446553971650055283412, 200594500948068090486693848039128919647, 289508773565335211238455692680966173052, 208917317212507950117664039252872831665, 301520709674946766164053267333891939739, 217585453364802351586979201161384846208, 314031030021154964119856834958393443507, 226613236986043931067161987739751269180, 327060412939660347810097743318775450603, 236015590119408703302029793810763336632, 170315197362908885300398426895467760677, 245808053934833671173174941698733239342, 177381702616012906692133545122052956869, 256006814417050404626793229969178591795, 184741402471039290909022270993420155647, 266628729119434395515123988465075762881, 192406461791880080316008520325217417399, 277691355027891684120101092281051616669, 200389550171752283164939097875653100692, 289212977580839036146652597763405686112, 208703862874796048578293668364396201854, 301212640893244858516269504216828222245, 217363142646555453321168098187951653993, 313710179234688236904530296665341569850, 226381702429392491474935736226666160567, 326726249813466247246220462666861782844, 235774449020380624184618955567855082461, 170141183460469231731687303715884105728, 245556907710782073166015043857318674432, 177200468746272961345336076752392290304, 255745247947835503562868389206950936576, 184552649072141716781794491390137475072, 266356310061270520809673995345359110719, 192209876872921446586714266254161951235, 277407633098725295421526662764935275289, 200184808797092622572327630249651738267, 288917483816076538023589582665008561757, 208490626626972031635281014538153149532, 300904886870600004067510516586852827477, 217141059066909427380630585083218539864, 313389656266867868879861721401276560157, 226150404435492799169987273137391228527, 326392428107359965184387801150473482685, 235533554299270254021060647605641184828, 339934694701922439619874702371784251126, 245306018087052741642305313258629505287, 177019420046226713314377865847118993119, 255483948725482657093998355855298189652, 184364088525767284952804747951506893851, 266084169338241408156670471179837543899, 192013492808081754945415747456910215687, 277124201053027125645172361985060059244, 199980276610139913759598726349951659975, 288622291962264730584478255384696488209, 208277608246209791806511248482402407710, 300597447285417578884462942447710218615, 216919202393792943992865658673403318648, 313069460782756034010893203297842312622, 225919342762644710883872352816958877073, 326058947472506854027112756453181563499, 235292905704349129354647627776916151748, 339587377705461640362820917278613293254, 245055384801472810432512717678228228007];
/// Binary exponents of the large powers of 27.
pub const LARGE_EXP: [i32; 79] = [-1354, -1326, -1297, -1269, -1240, -1212, -1183, -1155, -1126, -1097, -1069, -1040, -1012, -983, -955, -926, -898, -869, -841, -812, -784, -755, -727, -698, -670, -641, -612, -584, -555, -527, -498, -470, -441, -413, -384, -356, -327, -299, -270, -242, -213, -185, -156, -127, -99, -70, -42, -13, 15, 44, 72, 101, 129, 158, 186, 215, 243, 272, 300, 329, 357, 386, 415, 443, 472, 500, 529, 557, 586, 614, 643, 671, 700, 728, 757, 785, 814, 842, 871];

/// The cached powers of 27.
pub open spec fn powers_spec() -> ModeratePathPowers<u128> {
    ModeratePathPowers { small: ExtendedPowers { mant: &SMALL_MANT, exp: &SMALL_EXP }, large: ExtendedPowers { mant: &LARGE_MANT, exp: &LARGE_EXP }, small_int: &SMALL_INT_POWERS, step: STEP, bias: BIAS }
}

/// The cached powers of 27, with their mantissas normalized and their
/// integer powers exact.
pub fn powers() -> (r: ModeratePathPowers<u128>)
    ensures
        r == powers_spec(),
        r.step == 6,
        r.bias == 258,
        r.small.mant@.len() == 6,
        r.small.exp@.len() == 6,
        r.small_int@.len() == 6,
        r.large.mant@.len() == 79,
        r.large.exp@.len() == 79,
        is_normalized_table(r.small.mant@),
        is_normalized_table(r.large.mant@),
        is_int_powers_table(27, r.small_int@),
{
    proof {
        assert(SMALL_MANT@ =~= seq![170141183460469231731687303715884105728u128, 287113247089541828547222325020554428416u128, 242251802231800917836718836736092798976u128, 204399958133082024424731518496078299136u128, 172462464674787958108367218731066064896u128, 291030409138704679307869681608673984512u128]);
        assert(LARGE_MANT@ =~= seq![200799661340208058549819756838299306108u128, 289804872078663861025541279674153816330u128, 209130989863161741765482805783015549525u128, 301829093537629265639465570217176944359u128, 217807991453958805640698687941213190524u128, 314352208961548438173441007673156326734u128, 226845008347394462887832488874694288292u128, 327394917835133689224334116987590197085u128, 236256977848340413085493360278597848651u128, 170489389240119998671196096475026672256u128, 246059457021648542224892012444309926233u128, 177563121844831037921653709250257605479u128, 256268648406457241006138264113659504394u128, 184930348919702200346046943747485274024u128, 266901426797403574706768528236472000862u128, 192603247770383575639211190527648274245u128, 277975367137008028446553971650055283412u128, 200594500948068090486693848039128919647u128, 289508773565335211238455692680966173052u128, 208917317212507950117664039252872831665u128, 301520709674946766164053267333891939739u128, 217585453364802351586979201161384846208u128, 314031030021154964119856834958393443507u128, 226613236986043931067161987739751269180u128, 327060412939660347810097743318775450603u128, 236015590119408703302029793810763336632u128, 170315197362908885300398426895467760677u128, 245808053934833671173174941698733239342u128, 177381702616012906692133545122052956869u128, 256006814417050404626793229969178591795u128, 184741402471039290909022270993420155647u128, 266628729119434395515123988465075762881u128, 192406461791880080316008520325217417399u128, 277691355027891684120101092281051616669u128, 200389550171752283164939097875653100692u128, 289212977580839036146652597763405686112u128, 208703862874796048578293668364396201854u128, 301212640893244858516269504216828222245u128, 217363142646555453321168098187951653993u128, 313710179234688236904530296665341569850u128, 226381702429392491474935736226666160567u128, 326726249813466247246220462666861782844u128, 235774449020380624184618955567855082461u128, 170141183460469231731687303715884105728u128, 245556907710782073166015043857318674432u128, 177200468746272961345336076752392290304u128, 255745247947835503562868389206950936576u128, 184552649072141716781794491390137475072u128, 266356310061270520809673995345359110719u128, 192209876872921446586714266254161951235u128, 277407633098725295421526662764935275289u128, 200184808797092622572327630249651738267u128, 288917483816076538023589582665008561757u128, 208490626626972031635281014538153149532u128, 300904886870600004067510516586852827477u128, 217141059066909427380630585083218539864u128, 313389656266867868879861721401276560157u128, 226150404435492799169987273137391228527u128, 326392428107359965184387801150473482685u128, 235533554299270254021060647605641184828u128, 339934694701922439619874702371784251126u128, 245306018087052741642305313258629505287u128, 177019420046226713314377865847118993119u128, 255483948725482657093998355855298189652u128, 184364088525767284952804747951506893851u128, 266084169338241408156670471179837543899u128, 192013492808081754945415747456910215687u128, 277124201053027125645172361985060059244u128, 199980276610139913759598726349951659975u128, 288622291962264730584478255384696488209u128, 208277608246209791806511248482402407710u128, 300597447285417578884462942447710218615u128, 216919202393792943992865658673403318648u128, 313069460782756034010893203297842312622u128, 225919342762644710883872352816958877073u128, 326058947472506854027112756453181563499u128, 235292905704349129354647627776916151748u128, 339587377705461640362820917278613293254u128, 245055384801472810432512717678228228007u128]);
        reveal_with_fuel(powi, 7);
        assert(SMALL_INT_POWERS@ =~= seq![1u128, 27u128, 729u128, 19683u128, 531441u128, 14348907u128]);
    }
    ModeratePathPowers { small: ExtendedPowers { mant: &SMALL_MANT, exp: &SMALL_EXP }, large: ExtendedPowers { mant: &LARGE_MANT, exp: &LARGE_EXP }, small_int: &SMALL_INT_POWERS, step: STEP, bias: BIAS }
}

} // verus!
