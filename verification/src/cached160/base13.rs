//! Cached powers of 13.

use vstd::prelude::*;
use crate::cached::{ExtendedPowers, ModeratePathPowers};
use crate::cached160::{is_normalized_table, is_int_powers_table};
use crate::limbs::powi;

verus! {

/// Step between the large powers of 13, and number of small powers.
pub const STEP: i32 = 8;
/// Exponent bias of the large powers of 13.
pub const BIAS: i32 = 328;
/// Mantissas of the small powers of 13.
pub const SMALL_MANT: [u128; 8] = [170141183460469231731687303715884105728, 276479423123262501563991868538311671808, 224639531287650782520743393187378233344, 182519619171216260798104006964744814592, 296594381153226423796919011317710323712, 240982934686996469334996696695639638016, 195798634433184631334684816065207205888, 318172780953925025918862826105961709568];
/// Binary exponents of the small powers of 13.
pub const SMALL_EXP: [i32; 8] = [-127, -124, -120, -116, -113, -109, -105, -102];
/// Small powers of 13 as integers.
pub const SMALL_INT_POWERS: [u128; 8] = [1, 13, 169, 2197, 28561, 371293, 4826809, 62748517];
/// Mantissas of the large powers of 13.
pub const LARGE_MANT: [u128; 76] = [203144294263616275774101896291847629186, 308660867859974258960304731483787471388, 234492264952419818661296823055466035238, 178145751691013993109826848158654507171, 270677660536016922109887166011364690074, 205636101949623162244352604410701629545, 312446962496257587924386799659895562352, 237368592984352411701605597109952160960, 180330922359490147340520816471555077038, 273997845714729128559081401928980460360, 208158474636564731932432542641850208607, 316279498110609430339960234785638219567, 240280202619066059925234911435300433349, 182542896759209079117924981191278218615, 277358756934885281135534847026826478882, 210711787240726612911538723377341283448, 320159044357159213189440578296814412270, 243227526627608078053980201967728671175, 184782003669985976085437039910686134984, 280760893750083272032555777889582843511, 213296419277190995686832685182416132955, 324086177877525444638594829459150002632, 246211003089480177174216643591955743445, 187048575904513609075482455349961378053, 284204761841543230201034707437221523825, 215912754916246372204794564138901211197, 328061482386525623150638173263346085618, 249231075457753005677502945704601914895, 189342950357830398121128390896356453239, 287690873093270135400938070638952191684, 218561183040489207765436578950529361150, 332085548758937481126223466223271077691, 252288192624979397908801362020362227394, 191665468057395263450492571375008762286, 291219745668138391592456499213129019442, 221242097302626033221832363181059870585, 336158975117324458944453423021025623710, 255382808989916127627430380985009698372, 194016474213776704407345321083633835842, 294791904084909668600573533146696407742, 223955896183984548959338021657683010637, 170141183460469231731687303715884105728, 258515384525064083559076046211093889024, 196396318271963640537903969427202768896, 298407879296195459704416306334760173568, 226702983053742437531808354380178063872, 172228168527856562581024588413877561828, 261686384845036905964465455013477410965, 198805353963305641500281734389939339052, 302068208767375943221882620634577632307, 229483766228882688509711411881831930515, 174340752962680465097022527378326959423, 264896281275768246289732905498826672107, 201243939358090266003114541899396801267, 305773436556486878301580275426022079145, 232298659034884347081172590621418853088, 176479250771793883849064971202097683281, 268145550924567936613388404500729180677, 203712436918765324677453955129179600235, 309524113395086409019191949184662333574, 235148079867157707257686510259099274415, 178643979813719299400243488890704650366, 271434676751037481783657313824389119896, 206211213553813977645157972930830162165, 313320796770113796525378889251061848013, 238032452253233081187768481790039531230, 180835261845894060934288352757379708280, 274764147638855414866553566635921015415, 208740640672290674581982064710037218783, 317164051006752246428908041221997358677, 240952204915712388090624317255539471706, 183053422572495239382420468754129441919, 278134458468443185818361944895170594350, 211301094239026043298793364640604498188, 321054447352308147843744474962905446408, 243907771835992919704646129069158162971];
/// Binary exponents of the large powers of 13.
pub const LARGE_EXP: [i32; 76] = [-1341, -1312, -1282, -1252, -1223, -1193, -1164, -1134, -1104, -1075, -1045, -1016, -986, -956, -927, -897, -868, -838, -808, -779, -749, -720, -690, -660, -631, -601, -572, -542, -512, -483, -453, -424, -394, -364, -335, -305, -276, -246, -216, -187, -157, -127, -98, -68, -39, -9, 21, 50, 80, 109, 139, 169, 198, 228, 257, 287, 317, 346, 376, 405, 435, 465, 494, 524, 553, 583, 613, 642, 672, 701, 731, 761, 790, 820, 849, 879];

/// The cached powers of 13.
pub open spec fn powers_spec() -> ModeratePathPowers<u128> {
    ModeratePathPowers { small: ExtendedPowers { mant: &SMALL_MANT, exp: &SMALL_EXP }, large: ExtendedPowers { mant: &LARGE_MANT, exp: &LARGE_EXP }, small_int: &SMALL_INT_POWERS, step: STEP, bias: BIAS }
}

/// The cached powers of 13, with their mantissas normalized and their
/// integer powers exact.
pub fn powers() -> (r: ModeratePathPowers<u128>)
    ensures
        r == powers_spec(),
        r.step == 8,
        r.bias == 328,
        r.small.mant@.len() == 8,
        r.small.exp@.len() == 8,
        r.small_int@.len() == 8,
        r.large.mant@.len() == 76,
        r.large.exp@.len() == 76,
        is_normalized_table(r.small.mant@),
        is_normalized_table(r.large.mant@),
        is_int_powers_table(13, r.small_int@),
{
    proof {
        assert(SMALL_MANT@ =~= seq![170141183460469231731687303715884105728u128, 276479423123262501563991868538311671808u128, 224639531287650782520743393187378233344u128, 182519619171216260798104006964744814592u128, 296594381153226423796919011317710323712u128, 240982934686996469334996696695639638016u128, 195798634433184631334684816065207205888u128, 318172780953925025918862826105961709568u128]);
        assert(LARGE_MANT@ =~= seq![203144294263616275774101896291847629186u128, 308660867859974258960304731483787471388u128, 234492264952419818661296823055466035238u128, 178145751691013993109826848158654507171u128, 270677660536016922109887166011364690074u128, 205636101949623162244352604410701629545u128, 312446962496257587924386799659895562352u128, 237368592984352411701605597109952160960u128, 180330922359490147340520816471555077038u128, 273997845714729128559081401928980460360u128, 208158474636564731932432542641850208607u128, 316279498110609430339960234785638219567u128, 240280202619066059925234911435300433349u128, 182542896759209079117924981191278218615u128, 277358756934885281135534847026826478882u128, 210711787240726612911538723377341283448u128, 320159044357159213189440578296814412270u128, 243227526627608078053980201967728671175u128, 184782003669985976085437039910686134984u128, 280760893750083272032555777889582843511u128, 213296419277190995686832685182416132955u128, 324086177877525444638594829459150002632u128, 246211003089480177174216643591955743445u128, 187048575904513609075482455349961378053u128, 284204761841543230201034707437221523825u128, 215912754916246372204794564138901211197u128, 328061482386525623150638173263346085618u128, 249231075457753005677502945704601914895u128, 189342950357830398121128390896356453239u128, 287690873093270135400938070638952191684u128, 218561183040489207765436578950529361150u128, 332085548758937481126223466223271077691u128, 252288192624979397908801362020362227394u128, 191665468057395263450492571375008762286u128, 291219745668138391592456499213129019442u128, 221242097302626033221832363181059870585u128, 336158975117324458944453423021025623710u128, 255382808989916127627430380985009698372u128, 194016474213776704407345321083633835842u128, 294791904084909668600573533146696407742u128, 223955896183984548959338021657683010637u128, 170141183460469231731687303715884105728u128, 258515384525064083559076046211093889024u128, 196396318271963640537903969427202768896u128, 298407879296195459704416306334760173568u128, 226702983053742437531808354380178063872u128, 172228168527856562581024588413877561828u128, 261686384845036905964465455013477410965u128, 198805353963305641500281734389939339052u128, 302068208767375943221882620634577632307u128, 229483766228882688509711411881831930515u128, 174340752962680465097022527378326959423u128, 264896281275768246289732905498826672107u128, 201243939358090266003114541899396801267u128, 305773436556486878301580275426022079145u128, 232298659034884347081172590621418853088u128, 176479250771793883849064971202097683281u128, 268145550924567936613388404500729180677u128, 203712436918765324677453955129179600235u128, 309524113395086409019191949184662333574u128, 235148079867157707257686510259099274415u128, 178643979813719299400243488890704650366u128, 271434676751037481783657313824389119896u128, 206211213553813977645157972930830162165u128, 313320796770113796525378889251061848013u128, 238032452253233081187768481790039531230u128, 180835261845894060934288352757379708280u128, 274764147638855414866553566635921015415u128, 208740640672290674581982064710037218783u128, 317164051006752246428908041221997358677u128, 240952204915712388090624317255539471706u128, 183053422572495239382420468754129441919u128, 278134458468443185818361944895170594350u128, 211301094239026043298793364640604498188u128, 321054447352308147843744474962905446408u128, 243907771835992919704646129069158162971u128]);
        reveal_with_fuel(powi, 9);
        assert(SMALL_INT_POWERS@ =~= seq![1u128, 13u128, 169u128, 2197u128, 28561u128, 371293u128, 4826809u128, 62748517u128]);
    }
    ModeratePathPowers { small: ExtendedPowers { mant: &SMALL_MANT, exp: &SMALL_EXP }, large: ExtendedPowers { mant: &LARGE_MANT, exp: &LARGE_EXP }, small_int: &SMALL_INT_POWERS, step: STEP, bias: BIAS }
}

} // verus!
