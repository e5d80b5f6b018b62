//! Cached powers of 3.

use vstd::prelude::*;
use crate::cached::{ExtendedPowers, ModeratePathPowers};
use crate::cached160::{is_normalized_table, is_int_powers_table};
use crate::limbs::powi;

verus! {

/// Step between the large powers of 3, and number of small powers.
pub const STEP: i32 = 20;
/// Exponent bias of the large powers of 3.
pub const BIAS: i32 = 760;
/// Mantissas of the small powers of 3.
pub const SMALL_MANT: [u128; 20] = [170141183460469231731687303715884105728, 255211775190703847597530955573826158592, 191408831393027885698148216680369618944, 287113247089541828547222325020554428416, 215334935317156371410416743765415821312, 323002402975734557115625115648123731968, 242251802231800917836718836736092798976, 181688851673850688377539127552069599232, 272533277510776032566308691328104398848, 204399958133082024424731518496078299136, 306599937199623036637097277744117448704, 229949952899717277477822958308088086528, 172462464674787958108367218731066064896, 258693697012181937162550828096599097344, 194020272759136452871913121072449323008, 291030409138704679307869681608673984512, 218272806854028509480902261206505488384, 327409210281042764221353391809758232576, 245556907710782073166015043857318674432, 184167680783086554874511282892989005824];
/// Binary exponents of the small powers of 3.
pub const SMALL_EXP: [i32; 20] = [-127, -126, -124, -123, -121, -120, -118, -116, -115, -113, -112, -110, -108, -107, -105, -104, -102, -101, -99, -97];
/// Small powers of 3 as integers.
pub const SMALL_INT_POWERS: [u128; 20] = [1, 3, 9, 27, 81, 243, 729, 2187, 6561, 19683, 59049, 177147, 531441, 1594323, 4782969, 14348907, 43046721, 129140163, 387420489, 1162261467];
/// Mantissas of the large powers of 3.
pub const LARGE_MANT: [u128; 71] = [228981627321413421057217801224022768458, 185894213211699326013762494029347155134, 301829093537629265639465570217176944359, 245033990385703656345786023933864839340, 198926007233479871031630637668169238011, 322988302900880006728964617948539328448, 262211676747596696167096696967233799204, 212871372756449173771443137071089544143, 172815421118085121562612771428651141606, 280593575260967566098415738074481154338, 227794354139073103116567345878808448350, 184930348919702200346046943747485274024, 300264105147079021545114594266031000970, 243763485459391712918376663011554847091, 197894572893436379626501802082900685163, 321313603691473325606249593990411338331, 260852105259086286749566195634740776863, 211767631486382365261996259087726574961, 171919370559843833352674924374427532806, 279138693352137745884317186629683060895, 226613236986043931067161987739751269180, 183971482278558945643179980616811190964, 298707231244876640116631457791747347925, 242499568120235502703106353919523432682, 196868486555962367745019627988939060464, 319647587822660709450189016904055940251, 259499583169196479959998361450291137700, 210669613131404954481085620515615417585, 171027966037226738058674240289082148799, 277691355027891684120101092281051616669, 225438243943221318560556485110109738278, 183017587375374702561553597022155160742, 297158429757277967604640789526650060843, 241242204211496523037749538228345943134, 195847720491584060106836777189641681162, 317990210271190550439415903835536554761, 258154073926689380540223575440483383976, 209577288018116110386327960504760073299, 170141183460469231731687303715884105728, 276251521174629832311766924339483508736, 224269343257001716702690972139746492416, 182068638431613361423174859113151594496, 295617658828691846632166420412766595202, 239991359753539474232337032335634004651, 194832247114605420104007752175098574688, 316341426247257477645159711999449660471, 256815541169845811576524073480007610450, 208490626626972031635281014538153149532, 338517997729425004575949331160209430911, 274819152881557244028610584245948464515, 223106503338424488684979682521025988628, 181124609802400910077427551154104473922, 294084876820548989626661915132664622178, 238747000942913976797497733353022683918, 193822038982362660063056049982127016523, 314701191193291934781116205950433765545, 255483948725482657093998355855298189652, 207409599591488195571905341445445255582, 336762776818711782198286065086981891498, 273394211439632029990640781047045990695, 221949692762318233808346663450192754968, 180185475975832393914650652957737664335, 292560042310176717160312096633717510967, 237509094151441049982785534773499431992, 192817068794482616882547252154136283242, 313069460782756034010893203297842312622, 254159260607975299744356396919078736707, 206334177697445743564032291193028958152, 335016656754825225194410391893304442626, 271976658340519265432186039827268288213, 220798880266451537830039115389735391778];
/// Binary exponents of the large powers of 3.
pub const LARGE_EXP: [i32; 71] = [-1332, -1300, -1269, -1237, -1205, -1174, -1142, -1110, -1078, -1047, -1015, -983, -952, -920, -888, -857, -825, -793, -761, -730, -698, -666, -635, -603, -571, -540, -508, -476, -444, -413, -381, -349, -318, -286, -254, -223, -191, -159, -127, -96, -64, -32, -1, 31, 63, 94, 126, 158, 189, 221, 253, 285, 316, 348, 380, 411, 443, 475, 506, 538, 570, 602, 633, 665, 697, 728, 760, 792, 823, 855, 887];

/// The cached powers of 3.
pub open spec fn powers_spec() -> ModeratePathPowers<u128> {
    ModeratePathPowers { small: ExtendedPowers { mant: &SMALL_MANT, exp: &SMALL_EXP }, large: ExtendedPowers { mant: &LARGE_MANT, exp: &LARGE_EXP }, small_int: &SMALL_INT_POWERS, step: STEP, bias: BIAS }
}

/// The cached powers of 3, with their mantissas normalized and their
/// integer powers exact.
pub fn powers() -> (r: ModeratePathPowers<u128>)
    ensures
        r == powers_spec(),
        r.step == 20,
        r.bias == 760,
        r.small.mant@.len() == 20,
        r.small.exp@.len() == 20,
        r.small_int@.len() == 20,
        r.large.mant@.len() == 71,
        r.large.exp@.len() == 71,
        is_normalized_table(r.small.mant@),
        is_normalized_table(r.large.mant@),
        is_int_powers_table(3, r.small_int@),
{
    proof {
        assert(SMALL_MANT@ =~= seq![170141183460469231731687303715884105728u128, 255211775190703847597530955573826158592u128, 191408831393027885698148216680369618944u128, 287113247089541828547222325020554428416u128, 215334935317156371410416743765415821312u128, 323002402975734557115625115648123731968u128, 242251802231800917836718836736092798976u128, 181688851673850688377539127552069599232u128, 272533277510776032566308691328104398848u128, 204399958133082024424731518496078299136u128, 306599937199623036637097277744117448704u128, 229949952899717277477822958308088086528u128, 172462464674787958108367218731066064896u128, 258693697012181937162550828096599097344u128, 194020272759136452871913121072449323008u128, 291030409138704679307869681608673984512u128, 218272806854028509480902261206505488384u128, 327409210281042764221353391809758232576u128, 245556907710782073166015043857318674432u128, 184167680783086554874511282892989005824u128]);
        assert(LARGE_MANT@ =~= seq![228981627321413421057217801224022768458u128, 185894213211699326013762494029347155134u128, 301829093537629265639465570217176944359u128, 245033990385703656345786023933864839340u128, 198926007233479871031630637668169238011u128, 322988302900880006728964617948539328448u128, 262211676747596696167096696967233799204u128, 212871372756449173771443137071089544143u128, 172815421118085121562612771428651141606u128, 280593575260967566098415738074481154338u128, 227794354139073103116567345878808448350u128, 184930348919702200346046943747485274024u128, 300264105147079021545114594266031000970u128, 243763485459391712918376663011554847091u128, 197894572893436379626501802082900685163u128, 321313603691473325606249593990411338331u128, 260852105259086286749566195634740776863u128, 211767631486382365261996259087726574961u128, 171919370559843833352674924374427532806u128, 279138693352137745884317186629683060895u128, 226613236986043931067161987739751269180u128, 183971482278558945643179980616811190964u128, 298707231244876640116631457791747347925u128, 242499568120235502703106353919523432682u128, 196868486555962367745019627988939060464u128, 319647587822660709450189016904055940251u128, 259499583169196479959998361450291137700u128, 210669613131404954481085620515615417585u128, 171027966037226738058674240289082148799u128, 277691355027891684120101092281051616669u128, 225438243943221318560556485110109738278u128, 183017587375374702561553597022155160742u128, 297158429757277967604640789526650060843u128, 241242204211496523037749538228345943134u128, 195847720491584060106836777189641681162u128, 317990210271190550439415903835536554761u128, 258154073926689380540223575440483383976u128, 209577288018116110386327960504760073299u128, 170141183460469231731687303715884105728u128, 276251521174629832311766924339483508736u128, 224269343257001716702690972139746492416u128, 182068638431613361423174859113151594496u128, 295617658828691846632166420412766595202u128, 239991359753539474232337032335634004651u128, 194832247114605420104007752175098574688u128, 316341426247257477645159711999449660471u128, 256815541169845811576524073480007610450u128, 208490626626972031635281014538153149532u128, 338517997729425004575949331160209430911u128, 274819152881557244028610584245948464515u128, 223106503338424488684979682521025988628u128, 181124609802400910077427551154104473922u128, 294084876820548989626661915132664622178u128, 238747000942913976797497733353022683918u128, 193822038982362660063056049982127016523u128, 314701191193291934781116205950433765545u128, 255483948725482657093998355855298189652u128, 207409599591488195571905341445445255582u128, 336762776818711782198286065086981891498u128, 273394211439632029990640781047045990695u128, 221949692762318233808346663450192754968u128, 180185475975832393914650652957737664335u128, 292560042310176717160312096633717510967u128, 237509094151441049982785534773499431992u128, 192817068794482616882547252154136283242u128, 313069460782756034010893203297842312622u128, 254159260607975299744356396919078736707u128, 206334177697445743564032291193028958152u128, 335016656754825225194410391893304442626u128, 271976658340519265432186039827268288213u128, 220798880266451537830039115389735391778u128]);
        reveal_with_fuel(powi, 21);
        assert(SMALL_INT_POWERS@ =~= seq![1u128, 3u128, 9u128, 27u128, 81u128, 243u128, 729u128, 2187u128, 6561u128, 19683u128, 59049u128, 177147u128, 531441u128, 1594323u128, 4782969u128, 14348907u128, 43046721u128, 129140163u128, 387420489u128, 1162261467u128]);
    }
    ModeratePathPowers { small: ExtendedPowers { mant: &SMALL_MANT, exp: &SMALL_EXP }, large: ExtendedPowers { mant: &LARGE_MANT, exp: &LARGE_EXP }, small_int: &SMALL_INT_POWERS, step: STEP, bias: BIAS }
}

} // verus!
