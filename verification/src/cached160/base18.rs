//! Cached powers of 18.

use vstd::prelude::*;
use crate::cached::{ExtendedPowers, ModeratePathPowers};
use crate::cached160::{is_normalized_table, is_int_powers_table};
use crate::limbs::powi;

verus! {

/// Step between the large powers of 18, and number of small powers.
pub const STEP: i32 = 7;
/// Exponent bias of the large powers of 18.
pub const BIAS: i32 = 294;
/// Mantissas of the small powers of 18.
pub const SMALL_MANT: [u128; 7] = [170141183460469231731687303715884105728, 191408831393027885698148216680369618944, 215334935317156371410416743765415821312, 242251802231800917836718836736092798976, 272533277510776032566308691328104398848, 306599937199623036637097277744117448704, 172462464674787958108367218731066064896];
/// Binary exponents of the small powers of 18.
pub const SMALL_EXP: [i32; 7] = [-127, -123, -119, -115, -111, -107, -102];
/// Small powers of 18 as integers.
pub const SMALL_INT_POWERS: [u128; 7] = [1, 18, 324, 5832, 104976, 1889568, 34012224];
/// Mantissas of the large powers of 18.
pub const LARGE_MANT: [u128; 78] = [175173187664825964142525661203029234593, 199758512075434917661860422906539806164, 227794354139073103116567345878808448350, 259764989429046712145887613713888779974, 296222660952677279411722167462707735076, 337797118290463899238253918549284876092, 192603247770383575639211190527648274245, 219634857984796466920734002291401705412, 250460318818255417964791343261171179660, 285612092170198511649999639102587856294, 325697370261002112643262654266086944683, 185704281966673733437923590446998072591, 211767631486382365261996259087726574961, 241488937521646207617474790890828249100, 275381589414827976227270551469877695982, 314031030021154964119856834958393443507, 179052434161812488744424286609186187994, 204182205669996766442639895844185984708, 232838907258801165579649662968151663564, 265517538884334791214783518037108753711, 302782573089615796089597203369720463425, 172638852694972345186098175788410725025, 196868486555962367745019627988939060464, 224498717373391335032231518045098273537, 256006814417050404626793229969178591795, 291937031065346039954998156631577529912, 332910005936047335476283449703688561122, 189816741726628588213403698819375225722, 216457269515865090355509585365869594574, 246836760024792608106756526472045881483, 281479971709018296242657937208050445965, 320985312176969416466104839150917967197, 183017587375374702561553597022155160742, 208703862874796048578293668364396201854, 237995173051452727716558620615765508935, 271397479737933588417468230506889186025, 309487755838552588810803796052767101096, 176461975819512133258798291874254633040, 201228179937237770199942876645925476060, 229470287934835004924643178169318563534, 261676138308856451194147028266269550444, 298402037041419227483658365640566588740, 170141183460469231731687303715884105728, 194020272759136452871913121072449323008, 221250760550139932836609227367108313088, 252303011164126931290527343657214803968, 287713403941314941508226937857819803648, 328093598350474163167634651360244400128, 187070549727531559196917812917453861026, 213325653114257310428744028742785781912, 243265625417291205836310243227923719532, 277407633098725295421526662764935275289, 316341426247257477645159711999449660471, 180369762796928745579122531717097251784, 205684419630781050995309380627725821797, 234551954955343535589691141355422293223, 267471010551644448060009348077202513313, 305010211912915299914630616083972269987, 173908995182860443486855135343139262701, 198316891856377323275537495574245323224, 226150404435492799169987273137391228527, 257890313566309108293837274983090159159, 294084876820548989626661915132664622178, 335359298992515654651080492391625827617, 191213265769831372286179520084128641258, 218049793855157992570938056229892893589, 248652793041613380567795520750960012282, 283550882549632193861238568804430594202, 323346872605688987884591669129361771279, 184364088525767284952804747951506893851, 210239343674659878049714940191476577896, 239746156543789930881397013133212694240, 273394211439632029990640781047045990695, 311764726184655516350818907233192566650, 177760245875679923341865534533290364422, 202708660472811443153981984577454872377, 231158551948781603682221903513060749406, 263601347936609267755115798860540547258];
/// Binary exponents of the large powers of 18.
pub const LARGE_EXP: [i32; 78] = [-1353, -1324, -1295, -1266, -1237, -1208, -1178, -1149, -1120, -1091, -1062, -1032, -1003, -974, -945, -916, -886, -857, -828, -799, -770, -740, -711, -682, -653, -624, -595, -565, -536, -507, -478, -449, -419, -390, -361, -332, -303, -273, -244, -215, -186, -157, -127, -98, -69, -40, -11, 18, 48, 77, 106, 135, 164, 194, 223, 252, 281, 310, 340, 369, 398, 427, 456, 485, 515, 544, 573, 602, 631, 661, 690, 719, 748, 777, 807, 836, 865, 894];

/// The cached powers of 18.
pub open spec fn powers_spec() -> ModeratePathPowers<u128> {
    ModeratePathPowers { small: ExtendedPowers { mant: &SMALL_MANT, exp: &SMALL_EXP }, large: ExtendedPowers { mant: &LARGE_MANT, exp: &LARGE_EXP }, small_int: &SMALL_INT_POWERS, step: STEP, bias: BIAS }
}

/// The cached powers of 18, with their mantissas normalized and their
/// integer powers exact.
pub fn powers() -> (r: ModeratePathPowers<u128>)
    ensures
        r == powers_spec(),
        r.step == 7,
        r.bias == 294,
        r.small.mant@.len() == 7,
        r.small.exp@.len() == 7,
        r.small_int@.len() == 7,
        r.large.mant@.len() == 78,
        r.large.exp@.len() == 78,
        is_normalized_table(r.small.mant@),
        is_normalized_table(r.large.mant@),
        is_int_powers_table(18, r.small_int@),
{
    proof {
        assert(SMALL_MANT@ =~= seq![170141183460469231731687303715884105728u128, 191408831393027885698148216680369618944u128, 215334935317156371410416743765415821312u128, 242251802231800917836718836736092798976u128, 272533277510776032566308691328104398848u128, 306599937199623036637097277744117448704u128, 172462464674787958108367218731066064896u128]);
        assert(LARGE_MANT@ =~= seq![175173187664825964142525661203029234593u128, 199758512075434917661860422906539806164u128, 227794354139073103116567345878808448350u128, 259764989429046712145887613713888779974u128, 296222660952677279411722167462707735076u128, 337797118290463899238253918549284876092u128, 192603247770383575639211190527648274245u128, 219634857984796466920734002291401705412u128, 250460318818255417964791343261171179660u128, 285612092170198511649999639102587856294u128, 325697370261002112643262654266086944683u128, 185704281966673733437923590446998072591u128, 211767631486382365261996259087726574961u128, 241488937521646207617474790890828249100u128, 275381589414827976227270551469877695982u128, 314031030021154964119856834958393443507u128, 179052434161812488744424286609186187994u128, 204182205669996766442639895844185984708u128, 232838907258801165579649662968151663564u128, 265517538884334791214783518037108753711u128, 302782573089615796089597203369720463425u128, 172638852694972345186098175788410725025u128, 196868486555962367745019627988939060464u128, 224498717373391335032231518045098273537u128, 256006814417050404626793229969178591795u128, 291937031065346039954998156631577529912u128, 332910005936047335476283449703688561122u128, 189816741726628588213403698819375225722u128, 216457269515865090355509585365869594574u128, 246836760024792608106756526472045881483u128, 281479971709018296242657937208050445965u128, 320985312176969416466104839150917967197u128, 183017587375374702561553597022155160742u128, 208703862874796048578293668364396201854u128, 237995173051452727716558620615765508935u128, 271397479737933588417468230506889186025u128, 309487755838552588810803796052767101096u128, 176461975819512133258798291874254633040u128, 201228179937237770199942876645925476060u128, 229470287934835004924643178169318563534u128, 261676138308856451194147028266269550444u128, 298402037041419227483658365640566588740u128, 170141183460469231731687303715884105728u128, 194020272759136452871913121072449323008u128, 221250760550139932836609227367108313088u128, 252303011164126931290527343657214803968u128, 287713403941314941508226937857819803648u128, 328093598350474163167634651360244400128u128, 187070549727531559196917812917453861026u128, 213325653114257310428744028742785781912u128, 243265625417291205836310243227923719532u128, 277407633098725295421526662764935275289u128, 316341426247257477645159711999449660471u128, 180369762796928745579122531717097251784u128, 205684419630781050995309380627725821797u128, 234551954955343535589691141355422293223u128, 267471010551644448060009348077202513313u128, 305010211912915299914630616083972269987u128, 173908995182860443486855135343139262701u128, 198316891856377323275537495574245323224u128, 226150404435492799169987273137391228527u128, 257890313566309108293837274983090159159u128, 294084876820548989626661915132664622178u128, 335359298992515654651080492391625827617u128, 191213265769831372286179520084128641258u128, 218049793855157992570938056229892893589u128, 248652793041613380567795520750960012282u128, 283550882549632193861238568804430594202u128, 323346872605688987884591669129361771279u128, 184364088525767284952804747951506893851u128, 210239343674659878049714940191476577896u128, 239746156543789930881397013133212694240u128, 273394211439632029990640781047045990695u128, 311764726184655516350818907233192566650u128, 177760245875679923341865534533290364422u128, 202708660472811443153981984577454872377u128, 231158551948781603682221903513060749406u128, 263601347936609267755115798860540547258u128]);
        reveal_with_fuel(powi, 8);
        assert(SMALL_INT_POWERS@ =~= seq![1u128, 18u128, 324u128, 5832u128, 104976u128, 1889568u128, 34012224u128]);
    }
    ModeratePathPowers { small: ExtendedPowers { mant: &SMALL_MANT, exp: &SMALL_EXP }, large: ExtendedPowers { mant: &LARGE_MANT, exp: &LARGE_EXP }, small_int: &SMALL_INT_POWERS, step: STEP, bias: BIAS }
}

} // verus!
