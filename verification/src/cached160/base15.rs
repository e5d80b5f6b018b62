//! Cached powers of 15.

use vstd::prelude::*;
use crate::cached::{ExtendedPowers, ModeratePathPowers};
use crate::cached160::{is_normalized_table, is_int_powers_table};
use crate::limbs::powi;

verus! {

/// Step between the large powers of 15, and number of small powers.
pub const STEP: i32 = 8;
/// Exponent bias of the large powers of 15.
pub const BIAS: i32 = 312;
/// Mantissas of the small powers of 15.
pub const SMALL_MANT: [u128; 8] = [170141183460469231731687303715884105728, 319014718988379809496913694467282698240, 299076299051606071403356588563077529600, 280384030360880691940646801777885184000, 262860028463325648694356376666767360000, 246431276684367795650959103125094400000, 231029321891594808422774159179776000000, 216589989273370132896350774231040000000];
/// Binary exponents of the small powers of 15.
pub const SMALL_EXP: [i32; 8] = [-127, -124, -120, -116, -112, -108, -104, -100];
/// Small powers of 15 as integers.
pub const SMALL_INT_POWERS: [u128; 8] = [1, 15, 225, 3375, 50625, 759375, 11390625, 170859375];
/// Mantissas of the large powers of 15.
pub const LARGE_MANT: [u128; 72] = [176157581170134694175945662700929721613, 210233318295150407445977087805804313303, 250900630150587280377850342682701393565, 299434584015762656519487081521438784545, 178678447421354466262014715708770369510, 213241818261213966824485132704511196490, 254491091184140684406056053498886823977, 303719580053283976738045342609656736770, 181235388002241613446887230826356048960, 216293370737313530448778168911616746705, 258132932759965856034693127408739651425, 308065895631104646134849028190499821539, 183828919146951883093674448351327494412, 219388591817396682923135459647357436704, 261826890148575264294539329193196343516, 312474408249691315911417866816293319027, 186459564477102023710796186076704586060, 222528106411894691985532295229724475420, 265573709142416387133758214804806317848, 316946007966797681726272939583274683428, 189127855107486501747742000280219617523, 225712548373888955751123878842649157480, 269374146206443663446975509775551676690, 321481597577162915672598741300570427622, 191834329753307055373436045708607941890, 228942560627082928532238637834630336646, 273228968630845173556739192069109710925, 326082092794781635112624979076905003855, 194579534838936734374686465136944546456, 232218795295605362158733969001967701715, 277138954685954882938577351637270128950, 330748422437782207809506145002547658085, 197364024608240385117657735223630441823, 235541913835671069456466721167496749113, 281104893779381725235703590002221275596, 335481528615950719408183659471355674975, 200188361236473853754168248068850933442, 238912587169125791566529710613345919103, 285127586615387248178740525206042107172, 170141183460469231731687303715884105728, 203053114943784499590328850841600000000, 242331495818902131179520000000000000000, 289207845356544000000000000000000000000, 172575953309595678001642227172851562500, 205958864110335933831952325359648803271, 245799330046413899594233809090775284541, 293346493787707294402529081970820087350, 175045565423820113080636775231191731391, 208906195393080226844550976655564036201, 249316789990916616866725045444974174010, 297544367482333459204270734183314844936, 177550518406095745907734479894927853604, 211895703844201159681805788312089434384, 252884585810862301272632571838697691236, 301802313971178147521594347169174498450, 180091317994529147280371081412973024665, 214927993031252433012289596290523334542, 256503437827277086943219190518379691262, 306121192913408770879770801728425641044, 182668477164486370906358954938714362551, 218003675159015088778073023304915283497, 260174076669190616934963528529542450091, 310501876270165601037714752361776484586, 185282516232160242762660936045505469826, 221123371193098747019724833334214306438, 263897243421146573236258451562349376134, 314945248480606581688897076801472259251, 187933962959619728504626775329093970226, 224287710985311612370215929865332425589, 267673689772824125386430153566188172461, 319452206640471392649554807130291119305, 190623352661362587893902772482928415571];
/// Binary exponents of the large powers of 15.
pub const LARGE_EXP: [i32; 72] = [-1346, -1315, -1284, -1253, -1221, -1190, -1159, -1128, -1096, -1065, -1034, -1003, -971, -940, -909, -878, -846, -815, -784, -753, -721, -690, -659, -628, -596, -565, -534, -503, -471, -440, -409, -378, -346, -315, -284, -253, -221, -190, -159, -127, -96, -65, -34, -2, 29, 60, 91, 123, 154, 185, 216, 248, 279, 310, 341, 373, 404, 435, 466, 498, 529, 560, 591, 623, 654, 685, 716, 748, 779, 810, 841, 873];

/// The cached powers of 15.
pub open spec fn powers_spec() -> ModeratePathPowers<u128> {
    ModeratePathPowers { small: ExtendedPowers { mant: &SMALL_MANT, exp: &SMALL_EXP }, large: ExtendedPowers { mant: &LARGE_MANT, exp: &LARGE_EXP }, small_int: &SMALL_INT_POWERS, step: STEP, bias: BIAS }
}

/// The cached powers of 15, with their mantissas normalized and their
/// integer powers exact.
pub fn powers() -> (r: ModeratePathPowers<u128>)
    ensures
        r == powers_spec(),
        r.step == 8,
        r.bias == 312,
        r.small.mant@.len() == 8,
        r.small.exp@.len() == 8,
        r.small_int@.len() == 8,
        r.large.mant@.len() == 72,
        r.large.exp@.len() == 72,
        is_normalized_table(r.small.mant@),
        is_normalized_table(r.large.mant@),
        is_int_powers_table(15, r.small_int@),
{
    proof {
        assert(SMALL_MANT@ =~= seq![170141183460469231731687303715884105728u128, 319014718988379809496913694467282698240u128, 299076299051606071403356588563077529600u128, 280384030360880691940646801777885184000u128, 262860028463325648694356376666767360000u128, 246431276684367795650959103125094400000u128, 231029321891594808422774159179776000000u128, 216589989273370132896350774231040000000u128]);
        assert(LARGE_MANT@ =~= seq![176157581170134694175945662700929721613u128, 210233318295150407445977087805804313303u128, 250900630150587280377850342682701393565u128, 299434584015762656519487081521438784545u128, 178678447421354466262014715708770369510u128, 213241818261213966824485132704511196490u128, 254491091184140684406056053498886823977u128, 303719580053283976738045342609656736770u128, 181235388002241613446887230826356048960u128, 216293370737313530448778168911616746705u128, 258132932759965856034693127408739651425u128, 308065895631104646134849028190499821539u128, 183828919146951883093674448351327494412u128, 219388591817396682923135459647357436704u128, 261826890148575264294539329193196343516u128, 312474408249691315911417866816293319027u128, 186459564477102023710796186076704586060u128, 222528106411894691985532295229724475420u128, 265573709142416387133758214804806317848u128, 316946007966797681726272939583274683428u128, 189127855107486501747742000280219617523u128, 225712548373888955751123878842649157480u128, 269374146206443663446975509775551676690u128, 321481597577162915672598741300570427622u128, 191834329753307055373436045708607941890u128, 228942560627082928532238637834630336646u128, 273228968630845173556739192069109710925u128, 326082092794781635112624979076905003855u128, 194579534838936734374686465136944546456u128, 232218795295605362158733969001967701715u128, 277138954685954882938577351637270128950u128, 330748422437782207809506145002547658085u128, 197364024608240385117657735223630441823u128, 235541913835671069456466721167496749113u128, 281104893779381725235703590002221275596u128, 335481528615950719408183659471355674975u128, 200188361236473853754168248068850933442u128, 238912587169125791566529710613345919103u128, 285127586615387248178740525206042107172u128, 170141183460469231731687303715884105728u128, 203053114943784499590328850841600000000u128, 242331495818902131179520000000000000000u128, 289207845356544000000000000000000000000u128, 172575953309595678001642227172851562500u128, 205958864110335933831952325359648803271u128, 245799330046413899594233809090775284541u128, 293346493787707294402529081970820087350u128, 175045565423820113080636775231191731391u128, 208906195393080226844550976655564036201u128, 249316789990916616866725045444974174010u128, 297544367482333459204270734183314844936u128, 177550518406095745907734479894927853604u128, 211895703844201159681805788312089434384u128, 252884585810862301272632571838697691236u128, 301802313971178147521594347169174498450u128, 180091317994529147280371081412973024665u128, 214927993031252433012289596290523334542u128, 256503437827277086943219190518379691262u128, 306121192913408770879770801728425641044u128, 182668477164486370906358954938714362551u128, 218003675159015088778073023304915283497u128, 260174076669190616934963528529542450091u128, 310501876270165601037714752361776484586u128, 185282516232160242762660936045505469826u128, 221123371193098747019724833334214306438u128, 263897243421146573236258451562349376134u128, 314945248480606581688897076801472259251u128, 187933962959619728504626775329093970226u128, 224287710985311612370215929865332425589u128, 267673689772824125386430153566188172461u128, 319452206640471392649554807130291119305u128, 190623352661362587893902772482928415571u128]);
        reveal_with_fuel(powi, 9);
        assert(SMALL_INT_POWERS@ =~= seq![1u128, 15u128, 225u128, 3375u128, 50625u128, 759375u128, 11390625u128, 170859375u128]);
    }
    ModeratePathPowers { small: ExtendedPowers { mant: &SMALL_MANT, exp: &SMALL_EXP }, large: ExtendedPowers { mant: &LARGE_MANT, exp: &LARGE_EXP }, small_int: &SMALL_INT_POWERS, step: STEP, bias: BIAS }
}

} // verus!
