//! Cached powers of 20.

use vstd::prelude::*;
use crate::cached::{ExtendedPowers, ModeratePathPowers};
use crate::cached160::{is_normalized_table, is_int_powers_table};
use crate::limbs::powi;

verus! {

/// Step between the large powers of 20, and number of small powers.
pub const STEP: i32 = 7;
/// Exponent bias of the large powers of 20.
pub const BIAS: i32 = 280;
/// Mantissas of the small powers of 20.
pub const SMALL_MANT: [u128; 7] = [170141183460469231731687303715884105728, 212676479325586539664609129644855132160, 265845599156983174580761412056068915200, 332306998946228968225951765070086144000, 207691874341393105141219853168803840000, 259614842926741381426524816461004800000, 324518553658426726783156020576256000000];
/// Binary exponents of the small powers of 20.
pub const SMALL_EXP: [i32; 7] = [-127, -123, -119, -115, -110, -106, -102];
/// Small powers of 20 as integers.
pub const SMALL_INT_POWERS: [u128; 7] = [1, 20, 400, 8000, 160000, 3200000, 64000000];
/// Mantissas of the large powers of 20.
pub const LARGE_MANT: [u128; 74] = [308841328899094571460716776609676066664, 184083777009901148951480851536796132722, 219444962751747547330237450047488370802, 261598781051334795153424084243164504531, 311850048364799970571308236412006025948, 185877113559722882849757812268737570016, 221582786512044528543660416923448526878, 264147265567832623176169892458258303259, 314888078651228693933689466069052580904, 187687920720117505749278942387731421532, 223741436863085634409521749481834675708, 266720577315194170963194071628850311885, 317955705303185189918510999237120523316, 189516368689051383685178160212707831452, 225921116696657399755928707376370229068, 269318958159276723570738682003462587676, 321053216647239593947814323906257853121, 191362629322552438943275406304751547051, 228122030881109760932058580285014566244, 271942652322184754529069161754863937192, 324180903818827574883781864350871964922, 193226876150862917234767594546599367214, 230344386280611654799899571593522271174, 274591906405224388599276031963255728690, 327339060789614187001318969682759915221, 195109284394749514461349826862072894109, 232588391774594204975783618524161450993, 277266969412081485957841418414308370343, 330527984395124299475957654016385519914, 197010030981972396061395200500718069025, 234854258277383322788948059678933702737, 279968092772225526319680285071055534765, 333747974362642200374222141588992517906, 198929294563914656862152899258728336040, 237142198758023568227473377297792835283, 282695530364541492733327600118866962532, 336999333339382997433337688587745383420, 200867255532373784442745261542645325315, 239452428260295134118491722992235809940, 285449538541191976211657193889899027276, 170141183460469231731687303715884105728, 202824096036516704239472512860160000000, 241785163922925834941235200000000000000, 288230376151711744000000000000000000000, 171798691840000000000000000000000000000, 204800000000000000000000000000000000000, 244140625000000000000000000000000000000, 291038304567337036132812500000000000000, 173472347597680709441192448139190673828, 206795153138256918717852173017490713391, 246519032881566189191165176650870696772, 293873587705571876992184134305561419454, 175162308040602133865466197911239516410, 208809742975952784854729411496209521782, 248920611114445668285762562151204969623, 296736492054993710858538820923811161069, 176868732008334225927912486150152183216, 210843958864610464486971481025400380154, 251345585423243599518503524095297312920, 299627286700300692937974362486955300474, 178591779887855465971216179422709524914, 212897992000407535995502685812365442412, 253794183731564922327402455583054354682, 302546243347602990063908643225496238091, 180331613628627651967947866455016278082, 214972035442146840057310898846407268146, 256266636183436918326986907537468991453, 305493636349960468205197939321361769978, 182088396757817547443627082897044283139, 217066284129402097992452481862359384464, 258763175164940474024358370140027266101, 308469742733169167070816004443201143863, 183862294395666818064937594201088633455, 219180934900840303975269310714112083263];
/// Binary exponents of the large powers of 20.
pub const LARGE_EXP: [i32; 74] = [-1338, -1307, -1277, -1247, -1217, -1186, -1156, -1126, -1096, -1065, -1035, -1005, -975, -944, -914, -884, -854, -823, -793, -763, -733, -702, -672, -642, -612, -581, -551, -521, -491, -460, -430, -400, -370, -339, -309, -279, -249, -218, -188, -158, -127, -97, -67, -37, -6, 24, 54, 84, 115, 145, 175, 205, 236, 266, 296, 326, 357, 387, 417, 447, 478, 508, 538, 568, 599, 629, 659, 689, 720, 750, 780, 810, 841, 871];

/// The cached powers of 20.
pub open spec fn powers_spec() -> ModeratePathPowers<u128> {
    ModeratePathPowers { small: ExtendedPowers { mant: &SMALL_MANT, exp: &SMALL_EXP }, large: ExtendedPowers { mant: &LARGE_MANT, exp: &LARGE_EXP }, small_int: &SMALL_INT_POWERS, step: STEP, bias: BIAS }
}

/// The cached powers of 20, with their mantissas normalized and their
/// integer powers exact.
pub fn powers() -> (r: ModeratePathPowers<u128>)
    ensures
        r == powers_spec(),
        r.step == 7,
        r.bias == 280,
        r.small.mant@.len() == 7,
        r.small.exp@.len() == 7,
        r.small_int@.len() == 7,
        r.large.mant@.len() == 74,
        r.large.exp@.len() == 74,
        is_normalized_table(r.small.mant@),
        is_normalized_table(r.large.mant@),
        is_int_powers_table(20, r.small_int@),
{
    proof {
        assert(SMALL_MANT@ =~= seq![170141183460469231731687303715884105728u128, 212676479325586539664609129644855132160u128, 265845599156983174580761412056068915200u128, 332306998946228968225951765070086144000u128, 207691874341393105141219853168803840000u128, 259614842926741381426524816461004800000u128, 324518553658426726783156020576256000000u128]);
        assert(LARGE_MANT@ =~= seq![308841328899094571460716776609676066664u128, 184083777009901148951480851536796132722u128, 219444962751747547330237450047488370802u128, 261598781051334795153424084243164504531u128, 311850048364799970571308236412006025948u128, 185877113559722882849757812268737570016u128, 221582786512044528543660416923448526878u128, 264147265567832623176169892458258303259u128, 314888078651228693933689466069052580904u128, 187687920720117505749278942387731421532u128, 223741436863085634409521749481834675708u128, 266720577315194170963194071628850311885u128, 317955705303185189918510999237120523316u128, 189516368689051383685178160212707831452u128, 225921116696657399755928707376370229068u128, 269318958159276723570738682003462587676u128, 321053216647239593947814323906257853121u128, 191362629322552438943275406304751547051u128, 228122030881109760932058580285014566244u128, 271942652322184754529069161754863937192u128, 324180903818827574883781864350871964922u128, 193226876150862917234767594546599367214u128, 230344386280611654799899571593522271174u128, 274591906405224388599276031963255728690u128, 327339060789614187001318969682759915221u128, 195109284394749514461349826862072894109u128, 232588391774594204975783618524161450993u128, 277266969412081485957841418414308370343u128, 330527984395124299475957654016385519914u128, 197010030981972396061395200500718069025u128, 234854258277383322788948059678933702737u128, 279968092772225526319680285071055534765u128, 333747974362642200374222141588992517906u128, 198929294563914656862152899258728336040u128, 237142198758023568227473377297792835283u128, 282695530364541492733327600118866962532u128, 336999333339382997433337688587745383420u128, 200867255532373784442745261542645325315u128, 239452428260295134118491722992235809940u128, 285449538541191976211657193889899027276u128, 170141183460469231731687303715884105728u128, 202824096036516704239472512860160000000u128, 241785163922925834941235200000000000000u128, 288230376151711744000000000000000000000u128, 171798691840000000000000000000000000000u128, 204800000000000000000000000000000000000u128, 244140625000000000000000000000000000000u128, 291038304567337036132812500000000000000u128, 173472347597680709441192448139190673828u128, 206795153138256918717852173017490713391u128, 246519032881566189191165176650870696772u128, 293873587705571876992184134305561419454u128, 175162308040602133865466197911239516410u128, 208809742975952784854729411496209521782u128, 248920611114445668285762562151204969623u128, 296736492054993710858538820923811161069u128, 176868732008334225927912486150152183216u128, 210843958864610464486971481025400380154u128, 251345585423243599518503524095297312920u128, 299627286700300692937974362486955300474u128, 178591779887855465971216179422709524914u128, 212897992000407535995502685812365442412u128, 253794183731564922327402455583054354682u128, 302546243347602990063908643225496238091u128, 180331613628627651967947866455016278082u128, 214972035442146840057310898846407268146u128, 256266636183436918326986907537468991453u128, 305493636349960468205197939321361769978u128, 182088396757817547443627082897044283139u128, 217066284129402097992452481862359384464u128, 258763175164940474024358370140027266101u128, 308469742733169167070816004443201143863u128, 183862294395666818064937594201088633455u128, 219180934900840303975269310714112083263u128]);
        reveal_with_fuel(powi, 8);
        assert(SMALL_INT_POWERS@ =~= seq![1u128, 20u128, 400u128, 8000u128, 160000u128, 3200000u128, 64000000u128]);
    }
    ModeratePathPowers { small: ExtendedPowers { mant: &SMALL_MANT, exp: &SMALL_EXP }, large: ExtendedPowers { mant: &LARGE_MANT, exp: &LARGE_EXP }, small_int: &SMALL_INT_POWERS, step: STEP, bias: BIAS }
}

} // verus!
