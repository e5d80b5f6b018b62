//! Cached powers of 11.

use vstd::prelude::*;
use crate::cached::{ExtendedPowers, ModeratePathPowers};
use crate::cached160::{is_normalized_table, is_int_powers_table};
use crate::limbs::powi;

verus! {

/// Step between the large powers of 11, and number of small powers.
pub const STEP: i32 = 9;
/// Exponent bias of the large powers of 11.
pub const BIAS: i32 = 351;
/// Mantissas of the small powers of 11.
pub const SMALL_MANT: [u128; 9] = [170141183460469231731687303715884105728, 233944127258145193631070042609340645376, 321673174979949641242721308587843387392, 221150307798715378354370899654142328832, 304081673223233645237259987024445702144, 209056150340973131100616241079306420224, 287452206718838055263347331484046327808, 197623392119201162993551290395281850368, 271732164163901599116133024293512544256];
/// Binary exponents of the small powers of 11.
pub const SMALL_EXP: [i32; 9] = [-127, -124, -121, -117, -114, -110, -107, -103, -100];
/// Small powers of 11 as integers.
pub const SMALL_INT_POWERS: [u128; 9] = [1, 11, 121, 1331, 14641, 161051, 1771561, 19487171, 214358881];
/// Mantissas of the large powers of 11.
pub const LARGE_MANT: [u128; 72] = [284067592451440402783250740870803882848, 311907624690236024263722849036730520835, 171238059048456285069153007806767780751, 188020237695718721716314139814895141308, 206447153042951189194086232691622882083, 226679997440031906769564274339983654138, 248895760886189129917706060109685643694, 273288779277949488106534827711219187027, 300072434393060227248554937081761703289, 329481020481262984343182946079685486146, 180885896895108223589085363619768036079, 198613611477559667549559644399735817047, 218078729968836026458633966547967004969, 239451526564652757041971603611460905574, 262918963175987885652063848834117643272, 288686324907902004950333378158035100892, 316979015823390018300576675081611005238, 174022265350496153683469750680295263035, 191077310017213090920037889613280023761, 209803833606456768694276179860414245615, 230365649338482385703357683130616542302, 252942624941184287338239913752743474826, 277732256071429933018369293137137136134, 304951393939484349279174830456271141999, 334838142249192351062534286575243350001, 183826970023851061892407973678416422311, 201842924352393404728314593418040675821, 221624531513738305774870271734740961947, 243344834238186465986122993315325591576, 267193834301414676708834595107417746247, 293380154594991977782504639045547494542, 322132864088045607402818330486415493575, 176851740822108453297561032060281913714, 194184088111306107232610402385759498575, 213215091354676888577329040601887973466, 234111227256299197427917870802090967668, 257055288062508663991611489278928709768, 282247980565918687696808555402942563478, 309909681819761564465444461107912469729, 170141183460469231731687303715884105728, 186815862862682349392341454201789874176, 205124743505955904636591107127579246592, 225227985212968648451224991661780107264, 247301444262965381085386823495099626888, 271538211722310826714720080747313199115, 298150302539063592923933328180322755271, 327370510177191550022527822209865447333, 179727221507067050840782578187764330990, 197341380157710189331417385894277071911, 216681813672942089280666997109850212851, 237917705546974217796728292841033536358, 261234820095126400184969690376374338338, 286837127456489808703442688252756740915, 314948587854906379895896832699151980516, 172907555363184572545974225978641470455, 189853352925309785288573204303090400331, 208459922652152508348644224820166488004, 228890028448627145607277691781146666326, 251322385889182188596856419989450117198, 275953225560490099471194727985491113834, 302998009619470597652934458975103615488, 332693316582509542060143699364121908613, 182649455416682266091504883729813020363, 200550007476552106538373760555841065584, 220204902374823007850602460837751774656, 241786074406278472344858080843135119733, 265482308278902675848717553283442644763, 291500890537904924029114199837605959154, 320069422837484936971208194402230692262, 175718906461109937023963056381563419957, 192940230367248485471498733602562118815, 211849329385655768374338506351963365331];
/// Binary exponents of the large powers of 11.
pub const LARGE_EXP: [i32; 72] = [-1342, -1311, -1279, -1248, -1217, -1186, -1155, -1124, -1093, -1062, -1030, -999, -968, -937, -906, -875, -844, -812, -781, -750, -719, -688, -657, -626, -595, -563, -532, -501, -470, -439, -408, -377, -345, -314, -283, -252, -221, -190, -159, -127, -96, -65, -34, -3, 28, 59, 90, 122, 153, 184, 215, 246, 277, 308, 340, 371, 402, 433, 464, 495, 526, 557, 589, 620, 651, 682, 713, 744, 775, 807, 838, 869];

/// The cached powers of 11.
pub open spec fn powers_spec() -> ModeratePathPowers<u128> {
    ModeratePathPowers { small: ExtendedPowers { mant: &SMALL_MANT, exp: &SMALL_EXP }, large: ExtendedPowers { mant: &LARGE_MANT, exp: &LARGE_EXP }, small_int: &SMALL_INT_POWERS, step: STEP, bias: BIAS }
}

/// The cached powers of 11, with their mantissas normalized and their
/// integer powers exact.
pub fn powers() -> (r: ModeratePathPowers<u128>)
    ensures
        r == powers_spec(),
        r.step == 9,
        r.bias == 351,
        r.small.mant@.len() == 9,
        r.small.exp@.len() == 9,
        r.small_int@.len() == 9,
        r.large.mant@.len() == 72,
        r.large.exp@.len() == 72,
        is_normalized_table(r.small.mant@),
        is_normalized_table(r.large.mant@),
        is_int_powers_table(11, r.small_int@),
{
    proof {
        assert(SMALL_MANT@ =~= seq![170141183460469231731687303715884105728u128, 233944127258145193631070042609340645376u128, 321673174979949641242721308587843387392u128, 221150307798715378354370899654142328832u128, 304081673223233645237259987024445702144u128, 209056150340973131100616241079306420224u128, 287452206718838055263347331484046327808u128, 197623392119201162993551290395281850368u128, 271732164163901599116133024293512544256u128]);
        assert(LARGE_MANT@ =~= seq![284067592451440402783250740870803882848u128, 311907624690236024263722849036730520835u128, 171238059048456285069153007806767780751u128, 188020237695718721716314139814895141308u128, 206447153042951189194086232691622882083u128, 226679997440031906769564274339983654138u128, 248895760886189129917706060109685643694u128, 273288779277949488106534827711219187027u128, 300072434393060227248554937081761703289u128, 329481020481262984343182946079685486146u128, 180885896895108223589085363619768036079u128, 198613611477559667549559644399735817047u128, 218078729968836026458633966547967004969u128, 239451526564652757041971603611460905574u128, 262918963175987885652063848834117643272u128, 288686324907902004950333378158035100892u128, 316979015823390018300576675081611005238u128, 174022265350496153683469750680295263035u128, 191077310017213090920037889613280023761u128, 209803833606456768694276179860414245615u128, 230365649338482385703357683130616542302u128, 252942624941184287338239913752743474826u128, 277732256071429933018369293137137136134u128, 304951393939484349279174830456271141999u128, 334838142249192351062534286575243350001u128, 183826970023851061892407973678416422311u128, 201842924352393404728314593418040675821u128, 221624531513738305774870271734740961947u128, 243344834238186465986122993315325591576u128, 267193834301414676708834595107417746247u128, 293380154594991977782504639045547494542u128, 322132864088045607402818330486415493575u128, 176851740822108453297561032060281913714u128, 194184088111306107232610402385759498575u128, 213215091354676888577329040601887973466u128, 234111227256299197427917870802090967668u128, 257055288062508663991611489278928709768u128, 282247980565918687696808555402942563478u128, 309909681819761564465444461107912469729u128, 170141183460469231731687303715884105728u128, 186815862862682349392341454201789874176u128, 205124743505955904636591107127579246592u128, 225227985212968648451224991661780107264u128, 247301444262965381085386823495099626888u128, 271538211722310826714720080747313199115u128, 298150302539063592923933328180322755271u128, 327370510177191550022527822209865447333u128, 179727221507067050840782578187764330990u128, 197341380157710189331417385894277071911u128, 216681813672942089280666997109850212851u128, 237917705546974217796728292841033536358u128, 261234820095126400184969690376374338338u128, 286837127456489808703442688252756740915u128, 314948587854906379895896832699151980516u128, 172907555363184572545974225978641470455u128, 189853352925309785288573204303090400331u128, 208459922652152508348644224820166488004u128, 228890028448627145607277691781146666326u128, 251322385889182188596856419989450117198u128, 275953225560490099471194727985491113834u128, 302998009619470597652934458975103615488u128, 332693316582509542060143699364121908613u128, 182649455416682266091504883729813020363u128, 200550007476552106538373760555841065584u128, 220204902374823007850602460837751774656u128, 241786074406278472344858080843135119733u128, 265482308278902675848717553283442644763u128, 291500890537904924029114199837605959154u128, 320069422837484936971208194402230692262u128, 175718906461109937023963056381563419957u128, 192940230367248485471498733602562118815u128, 211849329385655768374338506351963365331u128]);
        reveal_with_fuel(powi, 10);
        assert(SMALL_INT_POWERS@ =~= seq![1u128, 11u128, 121u128, 1331u128, 14641u128, 161051u128, 1771561u128, 19487171u128, 214358881u128]);
    }
    ModeratePathPowers { small: ExtendedPowers { mant: &SMALL_MANT, exp: &SMALL_EXP }, large: ExtendedPowers { mant: &LARGE_MANT, exp: &LARGE_EXP }, small_int: &SMALL_INT_POWERS, step: STEP, bias: BIAS }
}

} // verus!
