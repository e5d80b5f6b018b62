//! Cached powers of 19.

use vstd::prelude::*;
use crate::cached::{ExtendedPowers, ModeratePathPowers};
use crate::cached160::{is_normalized_table, is_int_powers_table};
use crate::limbs::powi;

verus! {

/// Step between the large powers of 19, and number of small powers.
pub const STEP: i32 = 7;
/// Exponent bias of the large powers of 19.
pub const BIAS: i32 = 287;
/// Mantissas of the small powers of 19.
pub const SMALL_MANT: [u128; 7] = [170141183460469231731687303715884105728, 202042655359307212681378673162612375552, 239925653239177315059137174380602195968, 284911713221523061632725394576965107712, 338332659450558635688861406060146065408, 200885016548769189940261459848211726336, 238550957151663413054060483569751425024];
/// Binary exponents of the small powers of 19.
pub const SMALL_EXP: [i32; 7] = [-127, -123, -119, -115, -111, -106, -102];
/// Small powers of 19 as integers.
pub const SMALL_INT_POWERS: [u128; 7] = [1, 19, 361, 6859, 130321, 2476099, 47045881];
/// Mantissas of the large powers of 19.
pub const LARGE_MANT: [u128; 76] = [305577016199347453916386629066628369566, 254387649585066250802448835894591219323, 211773375714873706954526795446522416463, 176297720171655089222657736919708805072, 293529685049453215881543661471874663538, 244358452058655253685245151337508023797, 203424239979142604035433607238695466107, 338694414393807804581041366088196084612, 281957318246159342222500231430112814088, 234724654242834897063227749239967575385, 195404267752744776874588226122954622761, 325341434449269614607198466720898964379, 270841190386491955899443752473167688523, 225470667559284387835624717321131334248, 187700481810335462307725392489901825033, 312514893872556142260088491662230499613, 260163314313871975296322899252180920269, 216581518007204247993872678149555585108, 180300416551865148993646942230063074210, 300194037865176954165930472692882676095, 249906412012854191998973084780461202007, 208042821933683442841807340743863291908, 173192097831823827445985218112992713522, 288358929883670982310136287441393538062, 240053886651337192078493312543483732688, 199840762759316398351061941853830886312, 332728047167428932050765437002481330484, 276990419380016367557580152018464109110, 230589795725005243268941857960660823918, 191962068621409314298003076822671000161, 319610290416807823632571053703933063036, 266070110813870135824430347248350305665, 221498825260546806854707890357129976717, 184393990898599943457278294759382590034, 307009699392470911375170613720126268120, 255580333886495993526502175170654921405, 212766265035907553834903279232863277537, 177124283582141234157272719875613305569, 294905884907949220984741236292709278206, 245504114948215358970059027289947453449, 204377984777481442195434041001194890061, 170141183460469231731687303715884105728, 283279261617600303001696824239079817216, 235825149533115640143913831779140632576, 196320411295724208786653789764804673536, 326866782169983241283381922259938632192, 272111016325296008481488740678554545334, 226527775976573799542251126784141726274, 188580506522192103284103254483314456872, 313980104972594785419533005246072709649, 261383077542535819285819131850454151532, 217596950072905364683647533344696965413, 181145746412467300065049161663171614429, 301601483222404786925353682146130769038, 251078086246727305139312855014591629283, 209018220732132084019166621358085321302, 174004100680832526758226172220060851297, 289710886904423785696066284771374024143, 241179367792317286239104434314982328918, 200777706596478115292553836948931709029, 334288026667806625723834320874258952107, 278289075684203471850125042859239363909, 231670904929322723497179168675130067798, 192862073578757583112120353708241916963, 321108767943438131876044073228689471164, 267317567774791732969648063348207624890, 222537311885602256946640972609673172416, 185258513286308067365753274779077551187, 308449099652072036761706748552096805527, 256778610031103646805005837172547824357, 213763809470930565948441961387708938512, 177954722295557497937779873950595261616, 296288537013515928119667265056482304979, 246655149223317717362685108852956230915, 205336201162591117777390249036062770913, 170938882243688352586356584716130516258];
/// Binary exponents of the large powers of 19.
pub const LARGE_EXP: [i32; 76] = [-1347, -1317, -1287, -1257, -1228, -1198, -1168, -1139, -1109, -1079, -1049, -1020, -990, -960, -930, -901, -871, -841, -811, -782, -752, -722, -692, -663, -633, -603, -574, -544, -514, -484, -455, -425, -395, -365, -336, -306, -276, -246, -217, -187, -157, -127, -98, -68, -38, -9, 21, 51, 81, 110, 140, 170, 200, 229, 259, 289, 319, 348, 378, 408, 437, 467, 497, 527, 556, 586, 616, 646, 675, 705, 735, 765, 794, 824, 854, 884];

/// The cached powers of 19.
pub open spec fn powers_spec() -> ModeratePathPowers<u128> {
    ModeratePathPowers { small: ExtendedPowers { mant: &SMALL_MANT, exp: &SMALL_EXP }, large: ExtendedPowers { mant: &LARGE_MANT, exp: &LARGE_EXP }, small_int: &SMALL_INT_POWERS, step: STEP, bias: BIAS }
}

/// The cached powers of 19, with their mantissas normalized and their
/// integer powers exact.
pub fn powers() -> (r: ModeratePathPowers<u128>)
    ensures
        r == powers_spec(),
        r.step == 7,
        r.bias == 287,
        r.small.mant@.len() == 7,
        r.small.exp@.len() == 7,
        r.small_int@.len() == 7,
        r.large.mant@.len() == 76,
        r.large.exp@.len() == 76,
        is_normalized_table(r.small.mant@),
        is_normalized_table(r.large.mant@),
        is_int_powers_table(19, r.small_int@),
{
    proof {
        assert(SMALL_MANT@ =~= seq![170141183460469231731687303715884105728u128, 202042655359307212681378673162612375552u128, 239925653239177315059137174380602195968u128, 284911713221523061632725394576965107712u128, 338332659450558635688861406060146065408u128, 200885016548769189940261459848211726336u128, 238550957151663413054060483569751425024u128]);
        assert(LARGE_MANT@ =~= seq![305577016199347453916386629066628369566u128, 254387649585066250802448835894591219323u128, 211773375714873706954526795446522416463u128, 176297720171655089222657736919708805072u128, 293529685049453215881543661471874663538u128, 244358452058655253685245151337508023797u128, 203424239979142604035433607238695466107u128, 338694414393807804581041366088196084612u128, 281957318246159342222500231430112814088u128, 234724654242834897063227749239967575385u128, 195404267752744776874588226122954622761u128, 325341434449269614607198466720898964379u128, 270841190386491955899443752473167688523u128, 225470667559284387835624717321131334248u128, 187700481810335462307725392489901825033u128, 312514893872556142260088491662230499613u128, 260163314313871975296322899252180920269u128, 216581518007204247993872678149555585108u128, 180300416551865148993646942230063074210u128, 300194037865176954165930472692882676095u128, 249906412012854191998973084780461202007u128, 208042821933683442841807340743863291908u128, 173192097831823827445985218112992713522u128, 288358929883670982310136287441393538062u128, 240053886651337192078493312543483732688u128, 199840762759316398351061941853830886312u128, 332728047167428932050765437002481330484u128, 276990419380016367557580152018464109110u128, 230589795725005243268941857960660823918u128, 191962068621409314298003076822671000161u128, 319610290416807823632571053703933063036u128, 266070110813870135824430347248350305665u128, 221498825260546806854707890357129976717u128, 184393990898599943457278294759382590034u128, 307009699392470911375170613720126268120u128, 255580333886495993526502175170654921405u128, 212766265035907553834903279232863277537u128, 177124283582141234157272719875613305569u128, 294905884907949220984741236292709278206u128, 245504114948215358970059027289947453449u128, 204377984777481442195434041001194890061u128, 170141183460469231731687303715884105728u128, 283279261617600303001696824239079817216u128, 235825149533115640143913831779140632576u128, 196320411295724208786653789764804673536u128, 326866782169983241283381922259938632192u128, 272111016325296008481488740678554545334u128, 226527775976573799542251126784141726274u128, 188580506522192103284103254483314456872u128, 313980104972594785419533005246072709649u128, 261383077542535819285819131850454151532u128, 217596950072905364683647533344696965413u128, 181145746412467300065049161663171614429u128, 301601483222404786925353682146130769038u128, 251078086246727305139312855014591629283u128, 209018220732132084019166621358085321302u128, 174004100680832526758226172220060851297u128, 289710886904423785696066284771374024143u128, 241179367792317286239104434314982328918u128, 200777706596478115292553836948931709029u128, 334288026667806625723834320874258952107u128, 278289075684203471850125042859239363909u128, 231670904929322723497179168675130067798u128, 192862073578757583112120353708241916963u128, 321108767943438131876044073228689471164u128, 267317567774791732969648063348207624890u128, 222537311885602256946640972609673172416u128, 185258513286308067365753274779077551187u128, 308449099652072036761706748552096805527u128, 256778610031103646805005837172547824357u128, 213763809470930565948441961387708938512u128, 177954722295557497937779873950595261616u128, 296288537013515928119667265056482304979u128, 246655149223317717362685108852956230915u128, 205336201162591117777390249036062770913u128, 170938882243688352586356584716130516258u128]);
        reveal_with_fuel(powi, 8);
        assert(SMALL_INT_POWERS@ =~= seq![1u128, 19u128, 361u128, 6859u128, 130321u128, 2476099u128, 47045881u128]);
    }
    ModeratePathPowers { small: ExtendedPowers { mant: &SMALL_MANT, exp: &SMALL_EXP }, large: ExtendedPowers { mant: &LARGE_MANT, exp: &LARGE_EXP }, small_int: &SMALL_INT_POWERS, step: STEP, bias: BIAS }
}

} // verus!
