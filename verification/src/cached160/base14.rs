//! Cached powers of 14.

use vstd::prelude::*;
use crate::cached::{ExtendedPowers, ModeratePathPowers};
use crate::cached160::{is_normalized_table, is_int_powers_table};
use crate::limbs::powi;

verus! {

/// Step between the large powers of 14, and number of small powers.
pub const STEP: i32 = 8;
/// Exponent bias of the large powers of 14.
pub const BIAS: i32 = 320;
/// Mantissas of the small powers of 14.
pub const SMALL_MANT: [u128; 8] = [170141183460469231731687303715884105728, 297747071055821155530452781502797185024, 260528687173843511089146183814947536896, 227962601277113072203002910838079094784, 199467276117473938177627546983319207936, 174533866602789695905424103610404306944, 305434266554881967834492181318207537152, 267254983235521721855180658653431595008];
/// Binary exponents of the small powers of 14.
pub const SMALL_EXP: [i32; 8] = [-127, -124, -120, -116, -112, -108, -105, -101];
/// Small powers of 14 as integers.
pub const SMALL_INT_POWERS: [u128; 8] = [1, 14, 196, 2744, 38416, 537824, 7529536, 105413504];
/// Mantissas of the large powers of 14.
pub const LARGE_MANT: [u128; 74] = [266319365027620731733435303165159667122, 183019416550468566646294542446352912686, 251548413169278560512334209582633427955, 172868555043538834443100066630384298338, 237596707101714066585640360644079693184, 326561387705008590881101164026582541311, 224418808746721891131396635947419054595, 308449214239576126269380201889590576494, 211971800172033630882960469392933087940, 291341601754078780972414349774563326428, 200215143815698040798730279921859793515, 275182833977670641254081992250398936156, 189110550462878905579110756278883461660, 259920284847963995399800125815215983072, 178621854545095883446307559621296276382, 245504247117858718392171207907774065824, 337429792711562885676838629607664070711, 231887770468403152813044191455947332680, 318714821597104302344272129046782646031, 219026508600450572879143037057044702127, 301037844611736789461197056572315300910, 206878574807117564156377107253687360168, 284341291171704802743493772571841275116, 195404405556671025581418948604574579552, 268570783748031302676865943988466296381, 184566631641558957302915986868221103411, 253674960769150428442670675281025859157, 174329956473941702727882427159635204541, 239605309345945263344621501916001364416, 329322082262710237520775170056072850605, 226316007274407653805017736090948441653, 311056791556242112413125050076207081650, 213763773801352511153375590062662203372, 293804554217770280277607620947080882230, 201907728667158642949418150287074186439, 277509182960549548157083678768414391770, 190709258966464876623809832149485832940, 262117606830390855604604612394616145902, 180131893393211845729384454981934494079, 247579698363561878555441197267606485702, 170141183460469231731687303715884105728, 233848110331081506623283076321752645632, 321409182616407632938244080939940446208, 220878121537715117784741212850409701376, 303582767467198764972828371186555551744, 208627491173467029036775346642092064768, 286745064197610355009611023687762970225, 197056321243220373650760726805477101625, 270841235580262673674173137819514560921, 186126926626483659918254253754028720893, 255819485841579348845580110620374327715, 175803712344053086257499345217280929659, 241630891972710985114650364591580944199, 332106115263742508816700348007180790592, 228229244396512279339912293302076319311, 313686412889065357315780098042512623701, 215570896471654994597359469530054904893, 296288328063653274657691113306601058431, 203614622343740041422835873088956724196, 279855198502973302491761604313633635665, 192321482680456518790460799730877816261, 264333504599995236391965677440014878764, 181654697853512422889189735564216996803, 249672695121914450880056351845343996855, 171579528154314464133715598246382584383, 235825022574310344970824197408281461914, 324126321306564057111299587260117144567, 222745387696552489161405202381218740358, 306149204668634768979587047598946613225, 210391192582005308252369450519735221250, 289169158312782474283830561810879736710, 198722201944671478335130298919429936059, 273130881427012463325938578210122255044, 187700412080445632409314398956810353518];
/// Binary exponents of the large powers of 14.
pub const LARGE_EXP: [i32; 74] = [-1346, -1315, -1285, -1254, -1224, -1194, -1163, -1133, -1102, -1072, -1041, -1011, -980, -950, -919, -889, -859, -828, -798, -767, -737, -706, -676, -645, -615, -584, -554, -523, -493, -463, -432, -402, -371, -341, -310, -280, -249, -219, -188, -158, -127, -97, -67, -36, -6, 25, 55, 86, 116, 147, 177, 208, 238, 268, 299, 329, 360, 390, 421, 451, 482, 512, 543, 573, 604, 634, 664, 695, 725, 756, 786, 817, 847, 878];

/// The cached powers of 14.
pub open spec fn powers_spec() -> ModeratePathPowers<u128> {
    ModeratePathPowers { small: ExtendedPowers { mant: &SMALL_MANT, exp: &SMALL_EXP }, large: ExtendedPowers { mant: &LARGE_MANT, exp: &LARGE_EXP }, small_int: &SMALL_INT_POWERS, step: STEP, bias: BIAS }
}

/// The cached powers of 14, with their mantissas normalized and their
/// integer powers exact.
pub fn powers() -> (r: ModeratePathPowers<u128>)
    ensures
        r == powers_spec(),
        r.step == 8,
        r.bias == 320,
        r.small.mant@.len() == 8,
        r.small.exp@.len() == 8,
        r.small_int@.len() == 8,
        r.large.mant@.len() == 74,
        r.large.exp@.len() == 74,
        is_normalized_table(r.small.mant@),
        is_normalized_table(r.large.mant@),
        is_int_powers_table(14, r.small_int@),
{
    proof {
        assert(SMALL_MANT@ =~= seq![170141183460469231731687303715884105728u128, 297747071055821155530452781502797185024u128, 260528687173843511089146183814947536896u128, 227962601277113072203002910838079094784u128, 199467276117473938177627546983319207936u128, 174533866602789695905424103610404306944u128, 305434266554881967834492181318207537152u128, 267254983235521721855180658653431595008u128]);
        assert(LARGE_MANT@ =~= seq![266319365027620731733435303165159667122u128, 183019416550468566646294542446352912686u128, 251548413169278560512334209582633427955u128, 172868555043538834443100066630384298338u128, 237596707101714066585640360644079693184u128, 326561387705008590881101164026582541311u128, 224418808746721891131396635947419054595u128, 308449214239576126269380201889590576494u128, 211971800172033630882960469392933087940u128, 291341601754078780972414349774563326428u128, 200215143815698040798730279921859793515u128, 275182833977670641254081992250398936156u128, 189110550462878905579110756278883461660u128, 259920284847963995399800125815215983072u128, 178621854545095883446307559621296276382u128, 245504247117858718392171207907774065824u128, 337429792711562885676838629607664070711u128, 231887770468403152813044191455947332680u128, 318714821597104302344272129046782646031u128, 219026508600450572879143037057044702127u128, 301037844611736789461197056572315300910u128, 206878574807117564156377107253687360168u128, 284341291171704802743493772571841275116u128, 195404405556671025581418948604574579552u128, 268570783748031302676865943988466296381u128, 184566631641558957302915986868221103411u128, 253674960769150428442670675281025859157u128, 174329956473941702727882427159635204541u128, 239605309345945263344621501916001364416u128, 329322082262710237520775170056072850605u128, 226316007274407653805017736090948441653u128, 311056791556242112413125050076207081650u128, 213763773801352511153375590062662203372u128, 293804554217770280277607620947080882230u128, 201907728667158642949418150287074186439u128, 277509182960549548157083678768414391770u128, 190709258966464876623809832149485832940u128, 262117606830390855604604612394616145902u128, 180131893393211845729384454981934494079u128, 247579698363561878555441197267606485702u128, 170141183460469231731687303715884105728u128, 233848110331081506623283076321752645632u128, 321409182616407632938244080939940446208u128, 220878121537715117784741212850409701376u128, 303582767467198764972828371186555551744u128, 208627491173467029036775346642092064768u128, 286745064197610355009611023687762970225u128, 197056321243220373650760726805477101625u128, 270841235580262673674173137819514560921u128, 186126926626483659918254253754028720893u128, 255819485841579348845580110620374327715u128, 175803712344053086257499345217280929659u128, 241630891972710985114650364591580944199u128, 332106115263742508816700348007180790592u128, 228229244396512279339912293302076319311u128, 313686412889065357315780098042512623701u128, 215570896471654994597359469530054904893u128, 296288328063653274657691113306601058431u128, 203614622343740041422835873088956724196u128, 279855198502973302491761604313633635665u128, 192321482680456518790460799730877816261u128, 264333504599995236391965677440014878764u128, 181654697853512422889189735564216996803u128, 249672695121914450880056351845343996855u128, 171579528154314464133715598246382584383u128, 235825022574310344970824197408281461914u128, 324126321306564057111299587260117144567u128, 222745387696552489161405202381218740358u128, 306149204668634768979587047598946613225u128, 210391192582005308252369450519735221250u128, 289169158312782474283830561810879736710u128, 198722201944671478335130298919429936059u128, 273130881427012463325938578210122255044u128, 187700412080445632409314398956810353518u128]);
        reveal_with_fuel(powi, 9);
        assert(SMALL_INT_POWERS@ =~= seq![1u128, 14u128, 196u128, 2744u128, 38416u128, 537824u128, 7529536u128, 105413504u128]);
    }
    ModeratePathPowers { small: ExtendedPowers { mant: &SMALL_MANT, exp: &SMALL_EXP }, large: ExtendedPowers { mant: &LARGE_MANT, exp: &LARGE_EXP }, small_int: &SMALL_INT_POWERS, step: STEP, bias: BIAS }
}

} // verus!
