//! Cached powers of 28.

use vstd::prelude::*;
use crate::cached::{ExtendedPowers, ModeratePathPowers};
use crate::cached160::{is_normalized_table, is_int_powers_table};
use crate::limbs::powi;

verus! {

/// Step between the large powers of 28, and number of small powers.
pub const STEP: i32 = 6;
/// Exponent bias of the large powers of 28.
pub const BIAS: i32 = 252;
/// Mantissas of the small powers of 28.
pub const SMALL_MANT: [u128; 6] = [170141183460469231731687303715884105728, 297747071055821155530452781502797185024, 260528687173843511089146183814947536896, 227962601277113072203002910838079094784, 199467276117473938177627546983319207936, 174533866602789695905424103610404306944];
/// Binary exponents of the small powers of 28.
pub const SMALL_EXP: [i32; 6] = [-127, -123, -118, -113, -108, -103];
/// Small powers of 28 as integers.
pub const SMALL_INT_POWERS: [u128; 6] = [1, 28, 784, 21952, 614656, 17210368];
/// Mantissas of the large powers of 28.
pub const LARGE_MANT: [u128; 78] = [248507955182154661987298870611539230539, 223058413842966566682004736546150046796, 200215143815698040798730279921859793515, 179711238516029806533278035755362570551, 322614250185735942212427179391214768413, 289575530396283324168013345552040300667, 259920284847963995399800125815215983072, 233302014099717072256401710525774728336, 209409703497448836012980688794302909957, 187964189199610581269006081054389519147, 337429792711562885676838629607664070711, 302873822652608199592547515371033250847, 271856707468083969679745656096547629768, 244016035285282981482333348801442963368, 219026508600450572879143037057044702127, 196596143419909740056291955312532441411, 176462857644721687377034700397980722042, 316782817673398770114452445482208770257, 284341291171704802743493772571841275116, 255222080727080523208383932871281083497, 229084950069124576377435007616984162844, 205624506307086466111975488366169508167, 184566631641558957302915986868221103411, 331330561004604641231243330979299081348, 297399209378286220063892720385616742108, 266942745850723232302069966588191406954, 239605309345945263344621501916001364416, 215067482294014848993159294730496555497, 193042558474796699288911421705232156812, 173273193069468359944466704194632400641, 311056791556242112413125050076207081650, 279201663740542055384000770694089408486, 250608799266136415663698628779517553855, 224944111822980370837543334787608800457, 201907728667158642949418150287074186439, 181230486831379296755646484093658378299, 325341576312636457580643512071759255196, 292023552792399342330208805478900181690, 262117606830390855604604612394616145902, 235274309738072614830216430996812400431, 211180017596241035935669959185363632952, 189553206559602063269009666658011215615, 170141183460469231731687303715884105728, 305434266554881967834492181318207537152, 274154937941858738966065755004164112384, 246078905440687093968343124469641904128, 220878121537715117784741212850409701376, 198258133856129805696540977101424033792, 177954644699400447924746318168681611264, 319460845859371388212562249545703474176, 286745064197610355009611023687762970225, 257379684889104161503034418684704785797, 231021595363755916570056887236303965333, 207362820991138609531788808643065835705, 186126926626483659918254253754028720893, 334131573344103639308512797544978713750, 299913371828921883094842698046640019943, 269199434526831288331795872363961423540, 241630891972710985114650364591580944199, 216885626294688985349681859923056842835, 194674507506895938395726937393857685110, 174738015241079713869620349559402181972, 313686412889065357315780098042512623701, 281561987228284074576142980610683957411, 252727403529513497084111370284014563793, 226845751173734538409794758625366435361, 203614622343740041422835873088956724196, 182762578614186646525232068123189313087, 328091958791815868790390435525895683218, 294492270354449044397893099587906656150, 264333504599995236391965677440014878764, 237263278829077450304247817879793628477, 212965297630021155936008083539885258459, 191155657202715751455043144381591497592, 171579528154314464133715598246382584383, 308016356015425756696586706818979868623, 276472597266073797985814891590470600613, 248159214750338106225838746496027188809];
/// Binary exponents of the large powers of 28.
pub const LARGE_EXP: [i32; 78] = [-1339, -1310, -1281, -1252, -1224, -1195, -1166, -1137, -1108, -1079, -1051, -1022, -993, -964, -935, -906, -877, -849, -820, -791, -762, -733, -704, -676, -647, -618, -589, -560, -531, -502, -474, -445, -416, -387, -358, -329, -301, -272, -243, -214, -185, -156, -127, -99, -70, -41, -12, 17, 46, 74, 103, 132, 161, 190, 219, 247, 276, 305, 334, 363, 392, 421, 449, 478, 507, 536, 565, 594, 622, 651, 680, 709, 738, 767, 796, 824, 853, 882];

/// The cached powers of 28.
pub open spec fn powers_spec() -> ModeratePathPowers<u128> {
    ModeratePathPowers { small: ExtendedPowers { mant: &SMALL_MANT, exp: &SMALL_EXP }, large: ExtendedPowers { mant: &LARGE_MANT, exp: &LARGE_EXP }, small_int: &SMALL_INT_POWERS, step: STEP, bias: BIAS }
}

/// The cached powers of 28, with their mantissas normalized and their
/// integer powers exact.
pub fn powers() -> (r: ModeratePathPowers<u128>)
    ensures
        r == powers_spec(),
        r.step == 6,
        r.bias == 252,
        r.small.mant@.len() == 6,
        r.small.exp@.len() == 6,
        r.small_int@.len() == 6,
        r.large.mant@.len() == 78,
        r.large.exp@.len() == 78,
        is_normalized_table(r.small.mant@),
        is_normalized_table(r.large.mant@),
        is_int_powers_table(28, r.small_int@),
{
    proof {
        assert(SMALL_MANT@ =~= seq![170141183460469231731687303715884105728u128, 297747071055821155530452781502797185024u128, 260528687173843511089146183814947536896u128, 227962601277113072203002910838079094784u128, 199467276117473938177627546983319207936u128, 174533866602789695905424103610404306944u128]);
        assert(LARGE_MANT@ =~= seq![248507955182154661987298870611539230539u128, 223058413842966566682004736546150046796u128, 200215143815698040798730279921859793515u128, 179711238516029806533278035755362570551u128, 322614250185735942212427179391214768413u128, 289575530396283324168013345552040300667u128, 259920284847963995399800125815215983072u128, 233302014099717072256401710525774728336u128, 209409703497448836012980688794302909957u128, 187964189199610581269006081054389519147u128, 337429792711562885676838629607664070711u128, 302873822652608199592547515371033250847u128, 271856707468083969679745656096547629768u128, 244016035285282981482333348801442963368u128, 219026508600450572879143037057044702127u128, 196596143419909740056291955312532441411u128, 176462857644721687377034700397980722042u128, 316782817673398770114452445482208770257u128, 284341291171704802743493772571841275116u128, 255222080727080523208383932871281083497u128, 229084950069124576377435007616984162844u128, 205624506307086466111975488366169508167u128, 184566631641558957302915986868221103411u128, 331330561004604641231243330979299081348u128, 297399209378286220063892720385616742108u128, 266942745850723232302069966588191406954u128, 239605309345945263344621501916001364416u128, 215067482294014848993159294730496555497u128, 193042558474796699288911421705232156812u128, 173273193069468359944466704194632400641u128, 311056791556242112413125050076207081650u128, 279201663740542055384000770694089408486u128, 250608799266136415663698628779517553855u128, 224944111822980370837543334787608800457u128, 201907728667158642949418150287074186439u128, 181230486831379296755646484093658378299u128, 325341576312636457580643512071759255196u128, 292023552792399342330208805478900181690u128, 262117606830390855604604612394616145902u128, 235274309738072614830216430996812400431u128, 211180017596241035935669959185363632952u128, 189553206559602063269009666658011215615u128, 170141183460469231731687303715884105728u128, 305434266554881967834492181318207537152u128, 274154937941858738966065755004164112384u128, 246078905440687093968343124469641904128u128, 220878121537715117784741212850409701376u128, 198258133856129805696540977101424033792u128, 177954644699400447924746318168681611264u128, 319460845859371388212562249545703474176u128, 286745064197610355009611023687762970225u128, 257379684889104161503034418684704785797u128, 231021595363755916570056887236303965333u128, 207362820991138609531788808643065835705u128, 186126926626483659918254253754028720893u128, 334131573344103639308512797544978713750u128, 299913371828921883094842698046640019943u128, 269199434526831288331795872363961423540u128, 241630891972710985114650364591580944199u128, 216885626294688985349681859923056842835u128, 194674507506895938395726937393857685110u128, 174738015241079713869620349559402181972u128, 313686412889065357315780098042512623701u128, 281561987228284074576142980610683957411u128, 252727403529513497084111370284014563793u128, 226845751173734538409794758625366435361u128, 203614622343740041422835873088956724196u128, 182762578614186646525232068123189313087u128, 328091958791815868790390435525895683218u128, 294492270354449044397893099587906656150u128, 264333504599995236391965677440014878764u128, 237263278829077450304247817879793628477u128, 212965297630021155936008083539885258459u128, 191155657202715751455043144381591497592u128, 171579528154314464133715598246382584383u128, 308016356015425756696586706818979868623u128, 276472597266073797985814891590470600613u128, 248159214750338106225838746496027188809u128]);
        reveal_with_fuel(powi, 7);
        assert(SMALL_INT_POWERS@ =~= seq![1u128, 28u128, 784u128, 21952u128, 614656u128, 17210368u128]);
    }
    ModeratePathPowers { small: ExtendedPowers { mant: &SMALL_MANT, exp: &SMALL_EXP }, large: ExtendedPowers { mant: &LARGE_MANT, exp: &LARGE_EXP }, small_int: &SMALL_INT_POWERS, step: STEP, bias: BIAS }
}

} // verus!
