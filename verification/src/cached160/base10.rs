//! Cached powers of 10.

use vstd::prelude::*;
use crate::cached::{ExtendedPowers, ModeratePathPowers};
use crate::cached160::{is_normalized_table, is_int_powers_table};
use crate::limbs::powi;

verus! {

/// Step between the large powers of 10, and number of small powers.
pub const STEP: i32 = 10;
/// Exponent bias of the large powers of 10.
pub const BIAS: i32 = 370;
/// Mantissas of the small powers of 10.
pub const SMALL_MANT: [u128; 10] = [170141183460469231731687303715884105728, 212676479325586539664609129644855132160, 265845599156983174580761412056068915200, 332306998946228968225951765070086144000, 207691874341393105141219853168803840000, 259614842926741381426524816461004800000, 324518553658426726783156020576256000000, 202824096036516704239472512860160000000, 253530120045645880299340641075200000000, 316912650057057350374175801344000000000];
/// Binary exponents of the small powers of 10.
pub const SMALL_EXP: [i32; 10] = [-127, -124, -121, -118, -114, -111, -108, -104, -101, -98];
/// Small powers of 10 as integers.
pub const SMALL_INT_POWERS: [u128; 10] = [1, 10, 100, 1000, 10000, 100000, 1000000, 10000000, 100000000, 1000000000];
/// Mantissas of the large powers of 10.
pub const LARGE_MANT: [u128; 68] = [314560448973203621636593449998996267479, 183098279506203032585672015556481356895, 213154451346726893197828921904416471830, 248144440523729302452212341484167231049, 288878149031346317441449898160257412877, 336298426882534191759128470626028036788, 195751447977110622310503659901458325789, 227884678143438210606695688214919443462, 265292681454958173686982700851419292695, 308841328899094571460716776609676066664, 179769313486231590772930519078902473361, 209279024841067836122739267394531603625, 243632850284999977008834559696879707771, 283625966735416996535885333662014114404, 330184081959790778970212365572822879074, 192192430817400325887261637005036975649, 223741436863085634409521749481834675708, 260469313784369307581244210575049132700, 303226189902482213896285056340332530323, 176500872419263593559319302637789241459, 205474058654233340126601167300005025998, 239203286653190548679094257880939433814, 278469275977917188637766821636980671685, 324180903818827574883781864350871964922, 188698121241077067612077729049413444545, 219673525124179510879420825570604582952, 255733641241886083594780445064656183766, 297713141471480582369003031710926657271, 173291855882550928723650886508942731464, 201738271725539733566868685312735302682, 234854258277383322788948059678933702737, 273406340597876490546562778389702670669, 318286871302263450979444638813965337664, 185267342779705912677713576013900652565, 215679573337205118357336120696157045389, 251084069415467230553431576928306656644, 292300327466180583640736966543256603931, 170141183460469231731687303715884105728, 198070406285660843983859875840000000000, 230584300921369395200000000000000000000, 268435456000000000000000000000000000000, 312500000000000000000000000000000000000, 181898940354585647583007812500000000000, 211758236813575084767080625169910490512, 246519032881566189191165176650870696772, 286985925493722536125179818657774823686, 334095588761524455767567058393935234851, 194469227433160678348252001680628882518, 226391976970667809187727982272194794517, 263554948580763080608714351281750475192, 306818341581107909568485747186642227685, 178591779887855465971216179422709524914, 207908195312897984370608091613638127355, 242036994678082392051126914580396990473, 281768146294730706199918541335962934504, 328021294314799255458543241647960309061, 190933522718725292628248712075851106236, 222275874948507748344271341427056009691, 258763175164940474024358370140027266101, 301239983137860514717593754339063617053, 175344747920672243180215448571289666610, 204128152598478183127259193653345185577, 237636445786894977939384050729387888658, 276645233140903266541874095249674153349, 322057438479856665411351825168442625260, 187462101736953869352205554703508169192, 218234609040610805796698614376955862613, 254058522452380049271391022923583936195];
/// Binary exponents of the large powers of 10.
pub const LARGE_EXP: [i32; 68] = [-1357, -1323, -1290, -1257, -1224, -1191, -1157, -1124, -1091, -1058, -1024, -991, -958, -925, -892, -858, -825, -792, -759, -725, -692, -659, -626, -593, -559, -526, -493, -460, -426, -393, -360, -327, -294, -260, -227, -194, -161, -127, -94, -61, -28, 5, 39, 72, 105, 138, 171, 205, 238, 271, 304, 338, 371, 404, 437, 470, 504, 537, 570, 603, 637, 670, 703, 736, 769, 803, 836, 869];

/// The cached powers of 10.
pub open spec fn powers_spec() -> ModeratePathPowers<u128> {
    ModeratePathPowers { small: ExtendedPowers { mant: &SMALL_MANT, exp: &SMALL_EXP }, large: ExtendedPowers { mant: &LARGE_MANT, exp: &LARGE_EXP }, small_int: &SMALL_INT_POWERS, step: STEP, bias: BIAS }
}

/// The cached powers of 10, with their mantissas normalized and their
/// integer powers exact.
pub fn powers() -> (r: ModeratePathPowers<u128>)
    ensures
        r == powers_spec(),
        r.step == 10,
        r.bias == 370,
        r.small.mant@.len() == 10,
        r.small.exp@.len() == 10,
        r.small_int@.len() == 10,
        r.large.mant@.len() == 68,
        r.large.exp@.len() == 68,
        is_normalized_table(r.small.mant@),
        is_normalized_table(r.large.mant@),
        is_int_powers_table(10, r.small_int@),
{
    proof {
        assert(SMALL_MANT@ =~= seq![170141183460469231731687303715884105728u128, 212676479325586539664609129644855132160u128, 265845599156983174580761412056068915200u128, 332306998946228968225951765070086144000u128, 207691874341393105141219853168803840000u128, 259614842926741381426524816461004800000u128, 324518553658426726783156020576256000000u128, 202824096036516704239472512860160000000u128, 253530120045645880299340641075200000000u128, 316912650057057350374175801344000000000u128]);
        assert(LARGE_MANT@ =~= seq![314560448973203621636593449998996267479u128, 183098279506203032585672015556481356895u128, 213154451346726893197828921904416471830u128, 248144440523729302452212341484167231049u128, 288878149031346317441449898160257412877u128, 336298426882534191759128470626028036788u128, 195751447977110622310503659901458325789u128, 227884678143438210606695688214919443462u128, 265292681454958173686982700851419292695u128, 308841328899094571460716776609676066664u128, 179769313486231590772930519078902473361u128, 209279024841067836122739267394531603625u128, 243632850284999977008834559696879707771u128, 283625966735416996535885333662014114404u128, 330184081959790778970212365572822879074u128, 192192430817400325887261637005036975649u128, 223741436863085634409521749481834675708u128, 260469313784369307581244210575049132700u128, 303226189902482213896285056340332530323u128, 176500872419263593559319302637789241459u128, 205474058654233340126601167300005025998u128, 239203286653190548679094257880939433814u128, 278469275977917188637766821636980671685u128, 324180903818827574883781864350871964922u128, 188698121241077067612077729049413444545u128, 219673525124179510879420825570604582952u128, 255733641241886083594780445064656183766u128, 297713141471480582369003031710926657271u128, 173291855882550928723650886508942731464u128, 201738271725539733566868685312735302682u128, 234854258277383322788948059678933702737u128, 273406340597876490546562778389702670669u128, 318286871302263450979444638813965337664u128, 185267342779705912677713576013900652565u128, 215679573337205118357336120696157045389u128, 251084069415467230553431576928306656644u128, 292300327466180583640736966543256603931u128, 170141183460469231731687303715884105728u128, 198070406285660843983859875840000000000u128, 230584300921369395200000000000000000000u128, 268435456000000000000000000000000000000u128, 312500000000000000000000000000000000000u128, 181898940354585647583007812500000000000u128, 211758236813575084767080625169910490512u128, 246519032881566189191165176650870696772u128, 286985925493722536125179818657774823686u128, 334095588761524455767567058393935234851u128, 194469227433160678348252001680628882518u128, 226391976970667809187727982272194794517u128, 263554948580763080608714351281750475192u128, 306818341581107909568485747186642227685u128, 178591779887855465971216179422709524914u128, 207908195312897984370608091613638127355u128, 242036994678082392051126914580396990473u128, 281768146294730706199918541335962934504u128, 328021294314799255458543241647960309061u128, 190933522718725292628248712075851106236u128, 222275874948507748344271341427056009691u128, 258763175164940474024358370140027266101u128, 301239983137860514717593754339063617053u128, 175344747920672243180215448571289666610u128, 204128152598478183127259193653345185577u128, 237636445786894977939384050729387888658u128, 276645233140903266541874095249674153349u128, 322057438479856665411351825168442625260u128, 187462101736953869352205554703508169192u128, 218234609040610805796698614376955862613u128, 254058522452380049271391022923583936195u128]);
        reveal_with_fuel(powi, 11);
        assert(SMALL_INT_POWERS@ =~= seq![1u128, 10u128, 100u128, 1000u128, 10000u128, 100000u128, 1000000u128, 10000000u128, 100000000u128, 1000000000u128]);
    }
    ModeratePathPowers { small: ExtendedPowers { mant: &SMALL_MANT, exp: &SMALL_EXP }, large: ExtendedPowers { mant: &LARGE_MANT, exp: &LARGE_EXP }, small_int: &SMALL_INT_POWERS, step: STEP, bias: BIAS }
}

} // verus!
