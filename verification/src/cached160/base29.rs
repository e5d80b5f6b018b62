//! Cached powers of 29.

use vstd::prelude::*;
use crate::cached::{ExtendedPowers, ModeratePathPowers};
use crate::cached160::{is_normalized_table, is_int_powers_table};
use crate::limbs::powi;

verus! {

/// Step between the large powers of 29, and number of small powers.
pub const STEP: i32 = 6;
/// Exponent bias of the large powers of 29.
pub const BIAS: i32 = 252;
/// Mantissas of the small powers of 29.
pub const SMALL_MANT: [u128; 6] = [170141183460469231731687303715884105728, 308380895022100482513683237985039941632, 279470186113778562278025434423942447104, 253269856165611822064460549946697842688, 229525807150085713745917373389194919936, 208007762729765178082237619633957896192];
/// Binary exponents of the small powers of 29.
pub const SMALL_EXP: [i32; 6] = [-127, -123, -118, -113, -108, -103];
/// Small powers of 29 as integers.
pub const SMALL_INT_POWERS: [u128; 6] = [1, 29, 841, 24389, 707281, 20511149];
/// Mantissas of the large powers of 29.
pub const LARGE_MANT: [u128; 78] = [293939984653516579153014908772647553927, 325669269722502242662675110993270300309, 180411782640948456163108621039484300353, 199886291656678749778798199538954577713, 221462972137332420374365077239613292335, 245368742505570013761609603669658845854, 271855015841791437163383377269432435982, 301200343954417841961395964144914808415, 333713346863741229059418106803065448261, 184867979254122350694373980738345610830, 204823511403978168182734748793342650457, 226933138952023660037574950865203175761, 251429385238135556008900174982942596722, 278569873281449391084528542386060643447, 308640035159552273337407148073177516540, 170978056925499484035797671737173759761, 189434244555519246827735852425496159000, 209882681179121373738148351480252166035, 232538419662693834656863635067192575556, 257639726705579546348788818074016917383, 285450588652016995453946272087193218261, 316263487792383250937533050996202736450, 175201239175822924661859658491633525197, 194113297257345719179697640426306620561, 215066813165088318898530949380694999931, 238282151601732438626757341123945812037, 264003464487880391063907148518553600721, 292501258667905961095191488633763572010, 324075240786231793266420435905585066661, 179528734626566103050967344518404222838, 198907923224385351394870557131224024014, 220378993946205681004466278772642662300, 244167754534112212293116837315364018708, 270524387495766270724774864712621178351, 299726081232954872012689080099923610541, 332079945186715557451765374774991672241, 183963119828570739334286542177638201257, 203820977132676910337518249049241331980, 225822386345870676314424417535913775896, 250198732693485636863600410972168425001, 277206378226597610088077970727216566225, 307129357939822377568583266911848900855, 170141183460469231731687303715884105728, 188507034973849692637027842793274343424, 208855384169162106382075974754544648192, 231400231309666912826787170353923751936, 256378676868573301455838684793773426688, 284053415075970164879962990673826094314, 314715496631115750914098978917481871688, 174343694817539847357322592625772163155, 193163185467532912371523116182520814756, 214014141773314894388674508400179209532, 237115849834993471687725998227739696222, 262711266541086358656385267533109039869, 291069574706415032602452081981147446763, 322489014023779685975823216414806216349, 178650008801035774670984867305268298071, 197934343538640677425270715935647505996, 219300321421789265371466533424126863110, 242972644948356100526463281459541324974, 269200272076455967884065094333741996545, 298259034474605889482552078350958780837, 330454538398307869859357548505383554011, 183062689350548673356118481539553806163, 202823349890643162760568057855283073783, 224717070457148091679782830215989826885, 248974103731497779640892318688061490897, 275849556968674066644388728598920812956, 305626074918518590345961283073160340970, 338616812354378462414859289927404969896, 187584363735341677353233362159059264795, 207833115392789061354400140358968381064, 230267613961761833964469003400183663813, 255123799397575000468261630468177681638, 282663080140582027146793786682106989268, 313175082306023963280707662359655742783, 173490347817277081445057491729890113081, 192217724118601260264099717636971309833];
/// Binary exponents of the large powers of 29.
pub const LARGE_EXP: [i32; 78] = [-1352, -1323, -1293, -1264, -1235, -1206, -1177, -1148, -1119, -1089, -1060, -1031, -1002, -973, -944, -914, -885, -856, -827, -798, -769, -740, -710, -681, -652, -623, -594, -565, -536, -506, -477, -448, -419, -390, -361, -332, -302, -273, -244, -215, -186, -157, -127, -98, -69, -40, -11, 18, 47, 77, 106, 135, 164, 193, 222, 251, 281, 310, 339, 368, 397, 426, 455, 485, 514, 543, 572, 601, 630, 659, 689, 718, 747, 776, 805, 834, 864, 893];

/// The cached powers of 29.
pub open spec fn powers_spec() -> ModeratePathPowers<u128> {
    ModeratePathPowers { small: ExtendedPowers { mant: &SMALL_MANT, exp: &SMALL_EXP }, large: ExtendedPowers { mant: &LARGE_MANT, exp: &LARGE_EXP }, small_int: &SMALL_INT_POWERS, step: STEP, bias: BIAS }
}

/// The cached powers of 29, with their mantissas normalized and their
/// integer powers exact.
pub fn powers() -> (r: ModeratePathPowers<u128>)
    ensures
        r == powers_spec(),
        r.step == 6,
        r.bias == 252,
        r.small.mant@.len() == 6,
        r.small.exp@.len() == 6,
        r.small_int@.len() == 6,
        r.large.mant@.len() == 78,
        r.large.exp@.len() == 78,
        is_normalized_table(r.small.mant@),
        is_normalized_table(r.large.mant@),
        is_int_powers_table(29, r.small_int@),
{
    proof {
        assert(SMALL_MANT@ =~= seq![170141183460469231731687303715884105728u128, 308380895022100482513683237985039941632u128, 279470186113778562278025434423942447104u128, 253269856165611822064460549946697842688u128, 229525807150085713745917373389194919936u128, 208007762729765178082237619633957896192u128]);
        assert(LARGE_MANT@ =~= seq![293939984653516579153014908772647553927u128, 325669269722502242662675110993270300309u128, 180411782640948456163108621039484300353u128, 199886291656678749778798199538954577713u128, 221462972137332420374365077239613292335u128, 245368742505570013761609603669658845854u128, 271855015841791437163383377269432435982u128, 301200343954417841961395964144914808415u128, 333713346863741229059418106803065448261u128, 184867979254122350694373980738345610830u128, 204823511403978168182734748793342650457u128, 226933138952023660037574950865203175761u128, 251429385238135556008900174982942596722u128, 278569873281449391084528542386060643447u128, 308640035159552273337407148073177516540u128, 170978056925499484035797671737173759761u128, 189434244555519246827735852425496159000u128, 209882681179121373738148351480252166035u128, 232538419662693834656863635067192575556u128, 257639726705579546348788818074016917383u128, 285450588652016995453946272087193218261u128, 316263487792383250937533050996202736450u128, 175201239175822924661859658491633525197u128, 194113297257345719179697640426306620561u128, 215066813165088318898530949380694999931u128, 238282151601732438626757341123945812037u128, 264003464487880391063907148518553600721u128, 292501258667905961095191488633763572010u128, 324075240786231793266420435905585066661u128, 179528734626566103050967344518404222838u128, 198907923224385351394870557131224024014u128, 220378993946205681004466278772642662300u128, 244167754534112212293116837315364018708u128, 270524387495766270724774864712621178351u128, 299726081232954872012689080099923610541u128, 332079945186715557451765374774991672241u128, 183963119828570739334286542177638201257u128, 203820977132676910337518249049241331980u128, 225822386345870676314424417535913775896u128, 250198732693485636863600410972168425001u128, 277206378226597610088077970727216566225u128, 307129357939822377568583266911848900855u128, 170141183460469231731687303715884105728u128, 188507034973849692637027842793274343424u128, 208855384169162106382075974754544648192u128, 231400231309666912826787170353923751936u128, 256378676868573301455838684793773426688u128, 284053415075970164879962990673826094314u128, 314715496631115750914098978917481871688u128, 174343694817539847357322592625772163155u128, 193163185467532912371523116182520814756u128, 214014141773314894388674508400179209532u128, 237115849834993471687725998227739696222u128, 262711266541086358656385267533109039869u128, 291069574706415032602452081981147446763u128, 322489014023779685975823216414806216349u128, 178650008801035774670984867305268298071u128, 197934343538640677425270715935647505996u128, 219300321421789265371466533424126863110u128, 242972644948356100526463281459541324974u128, 269200272076455967884065094333741996545u128, 298259034474605889482552078350958780837u128, 330454538398307869859357548505383554011u128, 183062689350548673356118481539553806163u128, 202823349890643162760568057855283073783u128, 224717070457148091679782830215989826885u128, 248974103731497779640892318688061490897u128, 275849556968674066644388728598920812956u128, 305626074918518590345961283073160340970u128, 338616812354378462414859289927404969896u128, 187584363735341677353233362159059264795u128, 207833115392789061354400140358968381064u128, 230267613961761833964469003400183663813u128, 255123799397575000468261630468177681638u128, 282663080140582027146793786682106989268u128, 313175082306023963280707662359655742783u128, 173490347817277081445057491729890113081u128, 192217724118601260264099717636971309833u128]);
        reveal_with_fuel(powi, 7);
        assert(SMALL_INT_POWERS@ =~= seq![1u128, 29u128, 841u128, 24389u128, 707281u128, 20511149u128]);
    }
    ModeratePathPowers { small: ExtendedPowers { mant: &SMALL_MANT, exp: &SMALL_EXP }, large: ExtendedPowers { mant: &LARGE_MANT, exp: &LARGE_EXP }, small_int: &SMALL_INT_POWERS, step: STEP, bias: BIAS }
}

} // verus!
