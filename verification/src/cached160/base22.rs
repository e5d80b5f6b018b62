//! Cached powers of 22.

use vstd::prelude::*;
use crate::cached::{ExtendedPowers, ModeratePathPowers};
use crate::cached160::{is_normalized_table, is_int_powers_table};
use crate::limbs::powi;

verus! {

/// Step between the large powers of 22, and number of small powers.
pub const STEP: i32 = 7;
/// Exponent bias of the large powers of 22.
pub const BIAS: i32 = 273;
/// Mantissas of the small powers of 22.
pub const SMALL_MANT: [u128; 7] = [170141183460469231731687303715884105728, 233944127258145193631070042609340645376, 321673174979949641242721308587843387392, 221150307798715378354370899654142328832, 304081673223233645237259987024445702144, 209056150340973131100616241079306420224, 287452206718838055263347331484046327808];
/// Binary exponents of the small powers of 22.
pub const SMALL_EXP: [i32; 7] = [-127, -123, -119, -114, -110, -105, -101];
/// Small powers of 22 as integers.
pub const SMALL_INT_POWERS: [u128; 7] = [1, 22, 484, 10648, 234256, 5153632, 113379904];
/// Mantissas of the large powers of 22.
pub const LARGE_MANT: [u128; 72] = [253485022519018253919924370237113401813, 294429420218882528916536957614299023600, 170993699408656992611557257796811971606, 198613611477559667549559644399735817047, 230694854843066209807480559654047740794, 267958050080955588510051414081700394572, 311240216657766425412953324616068813788, 180756787183491671385793896073455879749, 209953690842110549054787911387661891558, 243866650791248218437107825156701479612, 283257432291885574825362738029166670391, 329010845428281790557809997379933231677, 191077310017213090920037889613280023761, 221941245467987325560887198530024987097, 257790506028392555656294807759853932728, 299430350849140679073407301022315056449, 173898054647064197545039940705011138943, 201987095324676314922450395008827008097, 234613243722037545951821958217296505941, 272509360270263083361596599896866808472, 316526681344939644363801942778159729297, 183826970023851061892407973678416422311, 213519787744680626489456759979414929795, 248008764723795396613310192753363562635, 288068604926548520494484698905215058937, 334599147077506390730919115808572688418, 194322788582847037606425160078121997271, 225710952896522753756036626884027523975, 262169118861406100263284327408804984594, 304516223083230613247976703037939646270, 176851740822108453297561032060281913714, 205417878332621336576645714920472857997, 238598187060653380400994399373084663429, 277137975188549744820727493204211809261, 321902937477411396463387072352875080544, 186949300409097210175717446748311788922, 217146455371525722164937611369356262209, 252221233121680633945860233133208134270, 292961496095243353908740467141073506540, 170141183460469231731687303715884105728, 197623392119201162993551290395281850368, 229544689406569328704727047276706398208, 266622103131276669014944105065242165248, 309688479667831891620434363534947647488, 179855595827611186243917689814617910464, 208906933736774069538597567757512183241, 242650815297018604365857953016443636978, 281845207868958552685905724295461354592, 327370510177191550022527822209865447333, 190124664073591590972067520727552350138, 220834722526051754798575401303998056567, 256505250966711193359488809204377717494, 297937493800295372760917121026044042670, 173031058579617612943075122066206208260, 200980056932689281584830175015332323410, 233443542542281837469979323535186565406, 271150722048713022289973166238934106646, 314948587854906379895896832699151980516, 182910471789153927982518189465009158829, 212455251303071888680280266327561854998, 246772278069909496307705991140052073087, 286632393646709698979385809127728921005, 332930950470730393610585733499849696474, 193353961796034982060992467369794830962, 224585635486054469192295827945894724481, 260862033537650797156363766298784568546, 302998009619470597652934458975103615488, 175970018688269509849993361647138860754, 204393735233038880379975139336743154541, 237408618319925875163860351801153447367, 275756260280259146490263920764281465178, 320298039817924375055421761218548035863];
/// Binary exponents of the large powers of 22.
pub const LARGE_EXP: [i32; 72] = [-1345, -1314, -1282, -1251, -1220, -1189, -1158, -1126, -1095, -1064, -1033, -1002, -970, -939, -908, -877, -845, -814, -783, -752, -721, -689, -658, -627, -596, -565, -533, -502, -471, -440, -408, -377, -346, -315, -284, -252, -221, -190, -159, -127, -96, -65, -34, -3, 29, 60, 91, 122, 153, 185, 216, 247, 278, 310, 341, 372, 403, 434, 466, 497, 528, 559, 590, 622, 653, 684, 715, 747, 778, 809, 840, 871];

/// The cached powers of 22.
pub open spec fn powers_spec() -> ModeratePathPowers<u128> {
    ModeratePathPowers { small: ExtendedPowers { mant: &SMALL_MANT, exp: &SMALL_EXP }, large: ExtendedPowers { mant: &LARGE_MANT, exp: &LARGE_EXP }, small_int: &SMALL_INT_POWERS, step: STEP, bias: BIAS }
}

/// The cached powers of 22, with their mantissas normalized and their
/// integer powers exact.
pub fn powers() -> (r: ModeratePathPowers<u128>)
    ensures
        r == powers_spec(),
        r.step == 7,
        r.bias == 273,
        r.small.mant@.len() == 7,
        r.small.exp@.len() == 7,
        r.small_int@.len() == 7,
        r.large.mant@.len() == 72,
        r.large.exp@.len() == 72,
        is_normalized_table(r.small.mant@),
        is_normalized_table(r.large.mant@),
        is_int_powers_table(22, r.small_int@),
{
    proof {
        assert(SMALL_MANT@ =~= seq![170141183460469231731687303715884105728u128, 233944127258145193631070042609340645376u128, 321673174979949641242721308587843387392u128, 221150307798715378354370899654142328832u128, 304081673223233645237259987024445702144u128, 209056150340973131100616241079306420224u128, 287452206718838055263347331484046327808u128]);
        assert(LARGE_MANT@ =~= seq![253485022519018253919924370237113401813u128, 294429420218882528916536957614299023600u128, 170993699408656992611557257796811971606u128, 198613611477559667549559644399735817047u128, 230694854843066209807480559654047740794u128, 267958050080955588510051414081700394572u128, 311240216657766425412953324616068813788u128, 180756787183491671385793896073455879749u128, 209953690842110549054787911387661891558u128, 243866650791248218437107825156701479612u128, 283257432291885574825362738029166670391u128, 329010845428281790557809997379933231677u128, 191077310017213090920037889613280023761u128, 221941245467987325560887198530024987097u128, 257790506028392555656294807759853932728u128, 299430350849140679073407301022315056449u128, 173898054647064197545039940705011138943u128, 201987095324676314922450395008827008097u128, 234613243722037545951821958217296505941u128, 272509360270263083361596599896866808472u128, 316526681344939644363801942778159729297u128, 183826970023851061892407973678416422311u128, 213519787744680626489456759979414929795u128, 248008764723795396613310192753363562635u128, 288068604926548520494484698905215058937u128, 334599147077506390730919115808572688418u128, 194322788582847037606425160078121997271u128, 225710952896522753756036626884027523975u128, 262169118861406100263284327408804984594u128, 304516223083230613247976703037939646270u128, 176851740822108453297561032060281913714u128, 205417878332621336576645714920472857997u128, 238598187060653380400994399373084663429u128, 277137975188549744820727493204211809261u128, 321902937477411396463387072352875080544u128, 186949300409097210175717446748311788922u128, 217146455371525722164937611369356262209u128, 252221233121680633945860233133208134270u128, 292961496095243353908740467141073506540u128, 170141183460469231731687303715884105728u128, 197623392119201162993551290395281850368u128, 229544689406569328704727047276706398208u128, 266622103131276669014944105065242165248u128, 309688479667831891620434363534947647488u128, 179855595827611186243917689814617910464u128, 208906933736774069538597567757512183241u128, 242650815297018604365857953016443636978u128, 281845207868958552685905724295461354592u128, 327370510177191550022527822209865447333u128, 190124664073591590972067520727552350138u128, 220834722526051754798575401303998056567u128, 256505250966711193359488809204377717494u128, 297937493800295372760917121026044042670u128, 173031058579617612943075122066206208260u128, 200980056932689281584830175015332323410u128, 233443542542281837469979323535186565406u128, 271150722048713022289973166238934106646u128, 314948587854906379895896832699151980516u128, 182910471789153927982518189465009158829u128, 212455251303071888680280266327561854998u128, 246772278069909496307705991140052073087u128, 286632393646709698979385809127728921005u128, 332930950470730393610585733499849696474u128, 193353961796034982060992467369794830962u128, 224585635486054469192295827945894724481u128, 260862033537650797156363766298784568546u128, 302998009619470597652934458975103615488u128, 175970018688269509849993361647138860754u128, 204393735233038880379975139336743154541u128, 237408618319925875163860351801153447367u128, 275756260280259146490263920764281465178u128, 320298039817924375055421761218548035863u128]);
        reveal_with_fuel(powi, 8);
        assert(SMALL_INT_POWERS@ =~= seq![1u128, 22u128, 484u128, 10648u128, 234256u128, 5153632u128, 113379904u128]);
    }
    ModeratePathPowers { small: ExtendedPowers { mant: &SMALL_MANT, exp: &SMALL_EXP }, large: ExtendedPowers { mant: &LARGE_MANT, exp: &LARGE_EXP }, small_int: &SMALL_INT_POWERS, step: STEP, bias: BIAS }
}

} // verus!
