//! Cached powers of 33.

use vstd::prelude::*;
use crate::cached::{ExtendedPowers, ModeratePathPowers};
use crate::cached160::{is_normalized_table, is_int_powers_table};
use crate::limbs::powi;

verus! {

/// Step between the large powers of 33, and number of small powers.
pub const STEP: i32 = 6;
/// Exponent bias of the large powers of 33.
pub const BIAS: i32 = 240;
/// Mantissas of the small powers of 33.
pub const SMALL_MANT: [u128; 6] = [170141183460469231731687303715884105728, 175458095443608895223302531957005484032, 180941160926221673199030736080661905408, 186595572205166100486500446583182589952, 192426683836577541126703585538907045888, 198440017706470589286913072586997891072];
/// Binary exponents of the small powers of 33.
pub const SMALL_EXP: [i32; 6] = [-127, -122, -117, -112, -107, -102];
/// Small powers of 33 as integers.
pub const SMALL_INT_POWERS: [u128; 6] = [1, 33, 1089, 35937, 1185921, 39135393];
/// Mantissas of the large powers of 33.
pub const LARGE_MANT: [u128; 74] = [216166617894615765056116969334520642044, 259999430717861725140739747707628323854, 312720366502509540124188550868577470271, 188065849520234218420139418711557486770, 226200577540468899968415353242546081790, 272068009211510778916881923005514361559, 327236130168906522048072439540872358087, 196795435814493025178219114364462772750, 236700290627603575579431376108202583063, 284696783496570703658001718555889571262, 171212841180688182412693440011648609110, 205930229524469868245369490973155168397, 247687376364759110421449812279701734754, 297911756579516503503766398038992340964, 179160149400574418614614090847719005026, 215489039450973655880961058312920063458, 259184457474862991304220337185522020620, 311740138466868713435648102307209093287, 187476353478425047886734580102095167043, 225491547456297727220699982909970598320, 271215206775862669602998925081523543654, 326210402191372960931717472229356291097, 196178576715647050727159488732861667611, 235958348989735718000162987087766864735, 283804395923732956473182174007605293342, 170676171219393275768862099029406252664, 205284737238107330416766226733647440005, 246910995494199118965634147066154669324, 296977946418022259559609845940558313794, 178598568447993152099773363289076713958, 214813584890064968045989415466080479007, 258372038781252962127704032685119793391, 310762982974959535779710715380461212334, 186888705223357570139042022172334279947, 224784739840635370899218738060963824868, 270365077465939099085308357449561310080, 325187889378018709806160016110270251585, 195563651173574149793648095659417101115, 235218732982278125085778976978720276897, 282914805556997697053159518336509943216, 170141183460469231731687303715884105728, 204641268259797795202129106105341575168, 246137048204490191229033862368809975808, 296047063302535604636168085099824283648, 178038747781766620403928207609098977344, 214140247554538205717741625292909706188, 257562166629747183314707096744136073023, 309788890395834268833431845588643035745, 186302898963108514077454910111746951397, 224080147727111315915564635257325506176, 269517612902775795573733407057825442248, 324168581650849479410768181980047458277, 194950653127503229444535496044715069916, 234481435315497306894208542281087212757, 282028003628468309677795696968404883305, 339215745262040382698593524434347927396, 203999816247443047277506123370388146319, 245365526867526093228395853689144006062, 295119098058174229856749108333084701428, 177480681884243207276442522127875068624, 213469020807909470054649976638820369879, 256754833038160188521579955085771893751, 308817851128733566186038756059234075639, 185718928923909504089695656878457160369, 223377764171191270264346565880758640128, 268672804733672512805858396506074869210, 323152468963460648455199258995519212913, 194339576535660800930047023345366203227, 233746448722509584063702393615930970798, 281143981397731320107155010945727058593, 338152466949356579395454697640846384307, 203360374878824300807265157901557614739, 244596423879111037469845073222731160599, 294194041538814672349638971928150296782];
/// Binary exponents of the large powers of 33.
pub const LARGE_EXP: [i32; 74] = [-1338, -1308, -1278, -1247, -1217, -1187, -1157, -1126, -1096, -1066, -1035, -1005, -975, -945, -914, -884, -854, -824, -793, -763, -733, -703, -672, -642, -612, -581, -551, -521, -491, -460, -430, -400, -370, -339, -309, -279, -249, -218, -188, -158, -127, -97, -67, -37, -6, 24, 54, 84, 115, 145, 175, 205, 236, 266, 296, 326, 357, 387, 417, 448, 478, 508, 538, 569, 599, 629, 659, 690, 720, 750, 780, 811, 841, 871];

/// The cached powers of 33.
pub open spec fn powers_spec() -> ModeratePathPowers<u128> {
    ModeratePathPowers { small: ExtendedPowers { mant: &SMALL_MANT, exp: &SMALL_EXP }, large: ExtendedPowers { mant: &LARGE_MANT, exp: &LARGE_EXP }, small_int: &SMALL_INT_POWERS, step: STEP, bias: BIAS }
}

/// The cached powers of 33, with their mantissas normalized and their
/// integer powers exact.
pub fn powers() -> (r: ModeratePathPowers<u128>)
    ensures
        r == powers_spec(),
        r.step == 6,
        r.bias == 240,
        r.small.mant@.len() == 6,
        r.small.exp@.len() == 6,
        r.small_int@.len() == 6,
        r.large.mant@.len() == 74,
        r.large.exp@.len() == 74,
        is_normalized_table(r.small.mant@),
        is_normalized_table(r.large.mant@),
        is_int_powers_table(33, r.small_int@),
{
    proof {
        assert(SMALL_MANT@ =~= seq![170141183460469231731687303715884105728u128, 175458095443608895223302531957005484032u128, 180941160926221673199030736080661905408u128, 186595572205166100486500446583182589952u128, 192426683836577541126703585538907045888u128, 198440017706470589286913072586997891072u128]);
        assert(LARGE_MANT@ =~= seq![216166617894615765056116969334520642044u128, 259999430717861725140739747707628323854u128, 312720366502509540124188550868577470271u128, 188065849520234218420139418711557486770u128, 226200577540468899968415353242546081790u128, 272068009211510778916881923005514361559u128, 327236130168906522048072439540872358087u128, 196795435814493025178219114364462772750u128, 236700290627603575579431376108202583063u128, 284696783496570703658001718555889571262u128, 171212841180688182412693440011648609110u128, 205930229524469868245369490973155168397u128, 247687376364759110421449812279701734754u128, 297911756579516503503766398038992340964u128, 179160149400574418614614090847719005026u128, 215489039450973655880961058312920063458u128, 259184457474862991304220337185522020620u128, 311740138466868713435648102307209093287u128, 187476353478425047886734580102095167043u128, 225491547456297727220699982909970598320u128, 271215206775862669602998925081523543654u128, 326210402191372960931717472229356291097u128, 196178576715647050727159488732861667611u128, 235958348989735718000162987087766864735u128, 283804395923732956473182174007605293342u128, 170676171219393275768862099029406252664u128, 205284737238107330416766226733647440005u128, 246910995494199118965634147066154669324u128, 296977946418022259559609845940558313794u128, 178598568447993152099773363289076713958u128, 214813584890064968045989415466080479007u128, 258372038781252962127704032685119793391u128, 310762982974959535779710715380461212334u128, 186888705223357570139042022172334279947u128, 224784739840635370899218738060963824868u128, 270365077465939099085308357449561310080u128, 325187889378018709806160016110270251585u128, 195563651173574149793648095659417101115u128, 235218732982278125085778976978720276897u128, 282914805556997697053159518336509943216u128, 170141183460469231731687303715884105728u128, 204641268259797795202129106105341575168u128, 246137048204490191229033862368809975808u128, 296047063302535604636168085099824283648u128, 178038747781766620403928207609098977344u128, 214140247554538205717741625292909706188u128, 257562166629747183314707096744136073023u128, 309788890395834268833431845588643035745u128, 186302898963108514077454910111746951397u128, 224080147727111315915564635257325506176u128, 269517612902775795573733407057825442248u128, 324168581650849479410768181980047458277u128, 194950653127503229444535496044715069916u128, 234481435315497306894208542281087212757u128, 282028003628468309677795696968404883305u128, 339215745262040382698593524434347927396u128, 203999816247443047277506123370388146319u128, 245365526867526093228395853689144006062u128, 295119098058174229856749108333084701428u128, 177480681884243207276442522127875068624u128, 213469020807909470054649976638820369879u128, 256754833038160188521579955085771893751u128, 308817851128733566186038756059234075639u128, 185718928923909504089695656878457160369u128, 223377764171191270264346565880758640128u128, 268672804733672512805858396506074869210u128, 323152468963460648455199258995519212913u128, 194339576535660800930047023345366203227u128, 233746448722509584063702393615930970798u128, 281143981397731320107155010945727058593u128, 338152466949356579395454697640846384307u128, 203360374878824300807265157901557614739u128, 244596423879111037469845073222731160599u128, 294194041538814672349638971928150296782u128]);
        reveal_with_fuel(powi, 7);
        assert(SMALL_INT_POWERS@ =~= seq![1u128, 33u128, 1089u128, 35937u128, 1185921u128, 39135393u128]);
    }
    ModeratePathPowers { small: ExtendedPowers { mant: &SMALL_MANT, exp: &SMALL_EXP }, large: ExtendedPowers { mant: &LARGE_MANT, exp: &LARGE_EXP }, small_int: &SMALL_INT_POWERS, step: STEP, bias: BIAS }
}

} // verus!
