//! Cached powers of 23.

use vstd::prelude::*;
use crate::cached::{ExtendedPowers, ModeratePathPowers};
use crate::cached160::{is_normalized_table, is_int_powers_table};
use crate::limbs::powi;

verus! {

/// Step between the large powers of 23, and number of small powers.
pub const STEP: i32 = 7;
/// Exponent bias of the large powers of 23.
pub const BIAS: i32 = 266;
/// Mantissas of the small powers of 23.
pub const SMALL_MANT: [u128; 7] = [170141183460469231731687303715884105728, 244577951224424520614300499091583401984, 175790402442555124191528483722075570176, 252698703511172991025322195350483632128, 181627193148655587299450327908160110592, 261089090151192406742959846367980158976, 187657783546169542346502389576985739264];
/// Binary exponents of the small powers of 23.
pub const SMALL_EXP: [i32; 7] = [-127, -123, -118, -114, -109, -105, -100];
/// Small powers of 23 as integers.
pub const SMALL_INT_POWERS: [u128; 7] = [1, 23, 529, 12167, 279841, 6436343, 148035889];
/// Mantissas of the large powers of 23.
pub const LARGE_MANT: [u128; 71] = [282696120152370340326324393350129313583, 224106699149813515160027793248965839768, 177660070384959299518117426820409879479, 281679224484842507661590842703493245235, 223300557447880794264720046366338636067, 177021003404592607294928857171705382014, 280665986726726659567026238400885338462, 222497315545222527698408099502330410230, 176384235233432227183413281705333529169, 279656393720034524921314175179274359595, 221696963010873772243653930801015609536, 175749757602354687973874432000535316950, 278650432354108872233513992865613552171, 220899489451391157505367921930602163472, 175117562271981659025201047697761937562, 277648089565453253577594524944387660343, 220104884510717915806439152820624263438, 174487641032572953025011241897191693675, 276649352337562360960754521131809259049, 219313137870049397588841701361789229875, 173859985703919913633146478806481352851, 275654207700752992922523689325318624601, 218524239247699070573788964393354746146, 173234588135239186624038395745277208596, 274662642731995629169562809047557585825, 217738178398965000940790150805824878955, 172611440205066873148451849294509762826, 273674644554746611058977369746265857416, 216954945115996814791722634413562231827, 171990533821153063740069798803230423676, 272690200338780925750826785583705218666, 216174529227663138172270874689475697712, 171371860920356751697330024074687407971, 271709297300025591858350535820526217684, 215396920599419513929297198496715326537, 170755413468541124475850272054650469150, 270731922700393644432243678371210997948, 214622109133176793688901966303396671549, 170141183460469231731687303715884105728, 269758063847618717123097185016917000192, 213850084767170003246100602438595641344, 339058325839400057321133061640411938816, 268787708095090219373873551177395072962, 213080837475827679663192730864754774513, 337838687796969586566185112723027994705, 267820842841689106502015241773782572538, 212314357269641678380024305538561269739, 336623436955327832661614051077606366471, 266857455531624240538482847903341038248, 211550634195037448645447237257455979321, 335412557533128124785597638278283462337, 265897533654269339698691446779528819034, 210789658334244775585362676204225495858, 334206033805791401974785682123232789907, 264941064744000514367957679290425962065, 210031419805168987228793890184514974036, 333003850105302012456495057986285588216, 263988036380034387491686584861354377998, 209275908761262624819472661494385533289, 331805990820004247517955628678622148639, 263038436186266797268116360982380732098, 208523115391397574746439388866966551936, 330612440394399607270379273154482344971, 262092251831112080049001043331284413642, 207773029919737660433151703156509162570, 329423183328944795675128680336602321085, 261149471027342931361145730086041639640, 207025642605611692530569464171386341133, 328238204179850442208732821518504518810, 260210081531930842969216498623209392426, 206280943743386975765635578931435897048];
/// Binary exponents of the large powers of 23.
pub const LARGE_EXP: [i32; 71] = [-1331, -1299, -1267, -1236, -1204, -1172, -1141, -1109, -1077, -1046, -1014, -982, -951, -919, -887, -856, -824, -792, -761, -729, -697, -666, -634, -602, -571, -539, -507, -476, -444, -412, -381, -349, -317, -286, -254, -222, -191, -159, -127, -96, -64, -33, -1, 31, 62, 94, 126, 157, 189, 221, 252, 284, 316, 347, 379, 411, 442, 474, 506, 537, 569, 601, 632, 664, 696, 727, 759, 791, 822, 854, 886];

/// The cached powers of 23.
pub open spec fn powers_spec() -> ModeratePathPowers<u128> {
    ModeratePathPowers { small: ExtendedPowers { mant: &SMALL_MANT, exp: &SMALL_EXP }, large: ExtendedPowers { mant: &LARGE_MANT, exp: &LARGE_EXP }, small_int: &SMALL_INT_POWERS, step: STEP, bias: BIAS }
}

/// The cached powers of 23, with their mantissas normalized and their
/// integer powers exact.
pub fn powers() -> (r: ModeratePathPowers<u128>)
    ensures
        r == powers_spec(),
        r.step == 7,
        r.bias == 266,
        r.small.mant@.len() == 7,
        r.small.exp@.len() == 7,
        r.small_int@.len() == 7,
        r.large.mant@.len() == 71,
        r.large.exp@.len() == 71,
        is_normalized_table(r.small.mant@),
        is_normalized_table(r.large.mant@),
        is_int_powers_table(23, r.small_int@),
{
    proof {
        assert(SMALL_MANT@ =~= seq![170141183460469231731687303715884105728u128, 244577951224424520614300499091583401984u128, 175790402442555124191528483722075570176u128, 252698703511172991025322195350483632128u128, 181627193148655587299450327908160110592u128, 261089090151192406742959846367980158976u128, 187657783546169542346502389576985739264u128]);
        assert(LARGE_MANT@ =~= seq![282696120152370340326324393350129313583u128, 224106699149813515160027793248965839768u128, 177660070384959299518117426820409879479u128, 281679224484842507661590842703493245235u128, 223300557447880794264720046366338636067u128, 177021003404592607294928857171705382014u128, 280665986726726659567026238400885338462u128, 222497315545222527698408099502330410230u128, 176384235233432227183413281705333529169u128, 279656393720034524921314175179274359595u128, 221696963010873772243653930801015609536u128, 175749757602354687973874432000535316950u128, 278650432354108872233513992865613552171u128, 220899489451391157505367921930602163472u128, 175117562271981659025201047697761937562u128, 277648089565453253577594524944387660343u128, 220104884510717915806439152820624263438u128, 174487641032572953025011241897191693675u128, 276649352337562360960754521131809259049u128, 219313137870049397588841701361789229875u128, 173859985703919913633146478806481352851u128, 275654207700752992922523689325318624601u128, 218524239247699070573788964393354746146u128, 173234588135239186624038395745277208596u128, 274662642731995629169562809047557585825u128, 217738178398965000940790150805824878955u128, 172611440205066873148451849294509762826u128, 273674644554746611058977369746265857416u128, 216954945115996814791722634413562231827u128, 171990533821153063740069798803230423676u128, 272690200338780925750826785583705218666u128, 216174529227663138172270874689475697712u128, 171371860920356751697330024074687407971u128, 271709297300025591858350535820526217684u128, 215396920599419513929297198496715326537u128, 170755413468541124475850272054650469150u128, 270731922700393644432243678371210997948u128, 214622109133176793688901966303396671549u128, 170141183460469231731687303715884105728u128, 269758063847618717123097185016917000192u128, 213850084767170003246100602438595641344u128, 339058325839400057321133061640411938816u128, 268787708095090219373873551177395072962u128, 213080837475827679663192730864754774513u128, 337838687796969586566185112723027994705u128, 267820842841689106502015241773782572538u128, 212314357269641678380024305538561269739u128, 336623436955327832661614051077606366471u128, 266857455531624240538482847903341038248u128, 211550634195037448645447237257455979321u128, 335412557533128124785597638278283462337u128, 265897533654269339698691446779528819034u128, 210789658334244775585362676204225495858u128, 334206033805791401974785682123232789907u128, 264941064744000514367957679290425962065u128, 210031419805168987228793890184514974036u128, 333003850105302012456495057986285588216u128, 263988036380034387491686584861354377998u128, 209275908761262624819472661494385533289u128, 331805990820004247517955628678622148639u128, 263038436186266797268116360982380732098u128, 208523115391397574746439388866966551936u128, 330612440394399607270379273154482344971u128, 262092251831112080049001043331284413642u128, 207773029919737660433151703156509162570u128, 329423183328944795675128680336602321085u128, 261149471027342931361145730086041639640u128, 207025642605611692530569464171386341133u128, 328238204179850442208732821518504518810u128, 260210081531930842969216498623209392426u128, 206280943743386975765635578931435897048u128]);
        reveal_with_fuel(powi, 8);
        assert(SMALL_INT_POWERS@ =~= seq![1u128, 23u128, 529u128, 12167u128, 279841u128, 6436343u128, 148035889u128]);
    }
    ModeratePathPowers { small: ExtendedPowers { mant: &SMALL_MANT, exp: &SMALL_EXP }, large: ExtendedPowers { mant: &LARGE_MANT, exp: &LARGE_EXP }, small_int: &SMALL_INT_POWERS, step: STEP, bias: BIAS }
}

} // verus!
