//! Cached powers of 25.

use vstd::prelude::*;
use crate::cached::{ExtendedPowers, ModeratePathPowers};
use crate::cached160::{is_normalized_table, is_int_powers_table};
use crate::limbs::powi;

verus! {

/// Step between the large powers of 25, and number of small powers.
pub const STEP: i32 = 7;
/// Exponent bias of the large powers of 25.
pub const BIAS: i32 = 259;
/// Mantissas of the small powers of 25.
pub const SMALL_MANT: [u128; 7] = [170141183460469231731687303715884105728, 265845599156983174580761412056068915200, 207691874341393105141219853168803840000, 324518553658426726783156020576256000000, 253530120045645880299340641075200000000, 198070406285660843983859875840000000000, 309485009821345068724781056000000000000];
/// Binary exponents of the small powers of 25.
pub const SMALL_EXP: [i32; 7] = [-127, -123, -118, -114, -109, -104, -100];
/// Small powers of 25 as integers.
pub const SMALL_INT_POWERS: [u128; 7] = [1, 25, 625, 15625, 390625, 9765625, 244140625];
/// Mantissas of the large powers of 25.
pub const LARGE_MANT: [u128; 69] = [201109222516499671628641054110261305647, 285793394306920833441610418092098634655, 203068420253004570555511362849258201390, 288577581746103207017755725657449092679, 205046704412910121830119952091883627559, 291388892624283530821742192659774598780, 207044260935364498850036477975162511299, 294227591176883860910658765384315687611, 209061277570927374050781655074839937648, 297093944213496817569054052050375869453, 211097943899216614887176072592734406508, 299988221142963048588365030287739055137, 213154451346726893197828921904416471830, 302910693998692996157485768413290076965, 215230993204821882725842221200657943544, 305861637464235347360161968596028634045, 217327764647901735884376228537482684576, 308841328899094571460716776609676066664, 219444962751747547330237450047488370802, 311850048364799970571308236412006025948, 221582786512044528543660416923448526878, 314888078651228693933689466069052580904, 223741436863085634409521749481834675708, 317955705303185189918510999237120523316, 225921116696657399755928707376370229068, 321053216647239593947814323906257853121, 228122030881109760932058580285014566244, 324180903818827574883781864350871964922, 230344386280611654799899571593522271174, 327339060789614187001318969682759915221, 232588391774594204975783618524161450993, 330527984395124299475957654016385519914, 234854258277383322788948059678933702737, 333747974362642200374222141588992517906, 237142198758023568227473377297792835283, 336999333339382997433337688587745383420, 239452428260295134118491722992235809940, 170141183460469231731687303715884105728, 241785163922925834941235200000000000000, 171798691840000000000000000000000000000, 244140625000000000000000000000000000000, 173472347597680709441192448139190673828, 246519032881566189191165176650870696772, 175162308040602133865466197911239516410, 248920611114445668285762562151204969623, 176868732008334225927912486150152183216, 251345585423243599518503524095297312920, 178591779887855465971216179422709524914, 253794183731564922327402455583054354682, 180331613628627651967947866455016278082, 256266636183436918326986907537468991453, 182088396757817547443627082897044283139, 258763175164940474024358370140027266101, 183862294395666818064937594201088633455, 261284035326052074402891767876281837538, 185653473271011701515143789632334288014, 263829453602698580304979415177988198613, 187462101736953869352205554703508169192, 266399669239026862544798113253119949479, 189288349786683953755640255602884245064, 268994923809890385876486015494726082500, 191132389069459226417170338759437756337, 271615461243554856334256923502490730495, 192994392906736931318972184714148973580, 274261527844625066050770363850331497104, 194874536308464787773268059716493991903, 276933372317195090450451374005771742621, 196772995989530194869453349330805553038, 279631245788224013707368483964622716141];
/// Binary exponents of the large powers of 25.
pub const LARGE_EXP: [i32; 69] = [-1330, -1298, -1265, -1233, -1200, -1168, -1135, -1103, -1070, -1038, -1005, -973, -940, -908, -875, -843, -810, -778, -745, -713, -680, -648, -615, -583, -550, -518, -485, -453, -420, -388, -355, -323, -290, -258, -225, -193, -160, -127, -95, -62, -30, 3, 35, 68, 100, 133, 165, 198, 230, 263, 295, 328, 360, 393, 425, 458, 490, 523, 555, 588, 620, 653, 685, 718, 750, 783, 815, 848, 880];

/// The cached powers of 25.
pub open spec fn powers_spec() -> ModeratePathPowers<u128> {
    ModeratePathPowers { small: ExtendedPowers { mant: &SMALL_MANT, exp: &SMALL_EXP }, large: ExtendedPowers { mant: &LARGE_MANT, exp: &LARGE_EXP }, small_int: &SMALL_INT_POWERS, step: STEP, bias: BIAS }
}

/// The cached powers of 25, with their mantissas normalized and their
/// integer powers exact.
pub fn powers() -> (r: ModeratePathPowers<u128>)
    ensures
        r == powers_spec(),
        r.step == 7,
        r.bias == 259,
        r.small.mant@.len() == 7,
        r.small.exp@.len() == 7,
        r.small_int@.len() == 7,
        r.large.mant@.len() == 69,
        r.large.exp@.len() == 69,
        is_normalized_table(r.small.mant@),
        is_normalized_table(r.large.mant@),
        is_int_powers_table(25, r.small_int@),
{
    proof {
        assert(SMALL_MANT@ =~= seq![170141183460469231731687303715884105728u128, 265845599156983174580761412056068915200u128, 207691874341393105141219853168803840000u128, 324518553658426726783156020576256000000u128, 253530120045645880299340641075200000000u128, 198070406285660843983859875840000000000u128, 309485009821345068724781056000000000000u128]);
        assert(LARGE_MANT@ =~= seq![201109222516499671628641054110261305647u128, 285793394306920833441610418092098634655u128, 203068420253004570555511362849258201390u128, 288577581746103207017755725657449092679u128, 205046704412910121830119952091883627559u128, 291388892624283530821742192659774598780u128, 207044260935364498850036477975162511299u128, 294227591176883860910658765384315687611u128, 209061277570927374050781655074839937648u128, 297093944213496817569054052050375869453u128, 211097943899216614887176072592734406508u128, 299988221142963048588365030287739055137u128, 213154451346726893197828921904416471830u128, 302910693998692996157485768413290076965u128, 215230993204821882725842221200657943544u128, 305861637464235347360161968596028634045u128, 217327764647901735884376228537482684576u128, 308841328899094571460716776609676066664u128, 219444962751747547330237450047488370802u128, 311850048364799970571308236412006025948u128, 221582786512044528543660416923448526878u128, 314888078651228693933689466069052580904u128, 223741436863085634409521749481834675708u128, 317955705303185189918510999237120523316u128, 225921116696657399755928707376370229068u128, 321053216647239593947814323906257853121u128, 228122030881109760932058580285014566244u128, 324180903818827574883781864350871964922u128, 230344386280611654799899571593522271174u128, 327339060789614187001318969682759915221u128, 232588391774594204975783618524161450993u128, 330527984395124299475957654016385519914u128, 234854258277383322788948059678933702737u128, 333747974362642200374222141588992517906u128, 237142198758023568227473377297792835283u128, 336999333339382997433337688587745383420u128, 239452428260295134118491722992235809940u128, 170141183460469231731687303715884105728u128, 241785163922925834941235200000000000000u128, 171798691840000000000000000000000000000u128, 244140625000000000000000000000000000000u128, 173472347597680709441192448139190673828u128, 246519032881566189191165176650870696772u128, 175162308040602133865466197911239516410u128, 248920611114445668285762562151204969623u128, 176868732008334225927912486150152183216u128, 251345585423243599518503524095297312920u128, 178591779887855465971216179422709524914u128, 253794183731564922327402455583054354682u128, 180331613628627651967947866455016278082u128, 256266636183436918326986907537468991453u128, 182088396757817547443627082897044283139u128, 258763175164940474024358370140027266101u128, 183862294395666818064937594201088633455u128, 261284035326052074402891767876281837538u128, 185653473271011701515143789632334288014u128, 263829453602698580304979415177988198613u128, 187462101736953869352205554703508169192u128, 266399669239026862544798113253119949479u128, 189288349786683953755640255602884245064u128, 268994923809890385876486015494726082500u128, 191132389069459226417170338759437756337u128, 271615461243554856334256923502490730495u128, 192994392906736931318972184714148973580u128, 274261527844625066050770363850331497104u128, 194874536308464787773268059716493991903u128, 276933372317195090450451374005771742621u128, 196772995989530194869453349330805553038u128, 279631245788224013707368483964622716141u128]);
        reveal_with_fuel(powi, 8);
        assert(SMALL_INT_POWERS@ =~= seq![1u128, 25u128, 625u128, 15625u128, 390625u128, 9765625u128, 244140625u128]);
    }
    ModeratePathPowers { small: ExtendedPowers { mant: &SMALL_MANT, exp: &SMALL_EXP }, large: ExtendedPowers { mant: &LARGE_MANT, exp: &LARGE_EXP }, small_int: &SMALL_INT_POWERS, step: STEP, bias: BIAS }
}

} // verus!
