use vstd::prelude::*;
use vstd::arithmetic::div_mod::*;
use vstd::arithmetic::power::*;
use vstd::arithmetic::mul::*;
use crate::field::goldilocks::{GoldilocksField, modulus, lemma_mod_p_multiple, lemma_mul_congr, lemma_add_congr, u64_le_bytes, u64_from_le_bytes, lemma_u64_le_bytes_roundtrip};
use crate::field::quintic::{Fp5, le_word};

verus! {

/// 8 full rounds x 12 elements: round constants added in full rounds.
pub const EXTERNAL_CONSTANTS: [[u64; 12]; 8] = [
    [
        15492826721047263190, 11728330187201910315, 8836021247773420868, 16777404051263952451,
        5510875212538051896, 6173089941271892285, 2927757366422211339, 10340958981325008808,
        8541987352684552425, 9739599543776434497, 15073950188101532019, 12084856431752384512,
    ],
    [
        4584713381960671270, 8807052963476652830, 54136601502601741, 4872702333905478703,
        5551030319979516287, 12889366755535460989, 16329242193178844328, 412018088475211848,
        10505784623379650541, 9758812378619434837, 7421979329386275117, 375240370024755551,
    ],
    [
        3331431125640721931, 15684937309956309981, 578521833432107983, 14379242000670861838,
        17922409828154900976, 8153494278429192257, 15904673920630731971, 11217863998460634216,
        3301540195510742136, 9937973023749922003, 3059102938155026419, 1895288289490976132,
    ],
    [
        5580912693628927540, 10064804080494788323, 9582481583369602410, 10186259561546797986,
        247426333829703916, 13193193905461376067, 6386232593701758044, 17954717245501896472,
        1531720443376282699, 2455761864255501970, 11234429217864304495, 4746959618548874102,
    ],
    [
        13571697342473846203, 17477857865056504753, 15963032953523553760, 16033593225279635898,
        14252634232868282405, 8219748254835277737, 7459165569491914711, 15855939513193752003,
        16788866461340278896, 7102224659693946577, 3024718005636976471, 13695468978618890430,
    ],
    [
        8214202050877825436, 2670727992739346204, 16259532062589659211, 11869922396257088411,
        3179482916972760137, 13525476046633427808, 3217337278042947412, 14494689598654046340,
        15837379330312175383, 8029037639801151344, 2153456285263517937, 8301106462311849241,
    ],
    [
        13294194396455217955, 17394768489610594315, 12847609130464867455, 14015739446356528640,
        5879251655839607853, 9747000124977436185, 8950393546890284269, 10765765936405694368,
        14695323910334139959, 16366254691123000864, 15292774414889043182, 10910394433429313384,
    ],
    [
        17253424460214596184, 3442854447664030446, 3005570425335613727, 10859158614900201063,
        9763230642109343539, 6647722546511515039, 909012944955815706, 18101204076790399111,
        11588128829349125809, 15863878496612806566, 5201119062417750399, 176665553780565743,
    ],
];

/// 22 partial-round constants, added to element 0 only.
pub const INTERNAL_CONSTANTS: [u64; 22] = [
    11921381764981422944, 10318423381711320787, 8291411502347000766, 229948027109387563,
    9152521390190983261, 7129306032690285515, 15395989607365232011, 8641397269074305925,
    17256848792241043600, 6046475228902245682, 12041608676381094092, 12785542378683951657,
    14546032085337914034, 3304199118235116851, 16499627707072547655, 10386478025625759321,
    13475579315436919170, 16042710511297532028, 1411266850385657080, 9024840976168649958,
    14047056970978379368, 838728605080212101,
];

/// Diagonal of the internal linear layer.
pub const MATRIX_DIAG_U64: [u64; 12] = [
    0xc3b6c08e23ba9300, 0xd84b5de94a324fb6, 0x0d0c371c5b35b84f, 0x7964f570e7188037,
    0x5daf18bbd996604b, 0x6743bc47b9595257, 0x5528b9362c59bb70, 0xac45e25b7127b68b,
    0xa2077d7dfbb606b5, 0xf3faac6faee378ae, 0x0c6388b51545e883, 0xd27dbb6944917b60,
];

/// The values (mod p) of a permutation state.
pub open spec fn state_view(s: [GoldilocksField; 12]) -> Seq<nat> {
    Seq::new(12, |i: int| s[i]@)
}

/// Output `k` of the 4x4 MDS block applied to the window starting at `b`.
pub open spec fn window_out(x: Seq<int>, b: int, k: int) -> int {
    let x0 = x[b];
    let x1 = x[b + 1];
    let x2 = x[b + 2];
    let x3 = x[b + 3];
    let t01 = x0 + x1;
    let t23 = x2 + x3;
    let t0123 = t01 + t23;
    if k == 0 {
        t0123 + t01 + x1
    } else if k == 1 {
        t0123 + x1 + x2 + x2
    } else if k == 2 {
        t0123 + t23 + x3
    } else {
        t0123 + x3 + x0 + x0
    }
}

/// Integer result of the external linear layer: three 4x4 MDS blocks, then
/// each output adds the sum of its column across the three blocks.
pub open spec fn external_linear_int(x: Seq<int>, i: int) -> int {
    let k = i % 4;
    window_out(x, i - k, k) + window_out(x, 0, k) + window_out(x, 4, k) + window_out(x, 8, k)
}

/// The external linear layer over field values.
pub open spec fn external_linear(s: Seq<nat>) -> Seq<nat> {
    Seq::new(12, |i: int| (external_linear_int(s.map_values(|v: nat| v as int), i) % (modulus() as int)) as nat)
}

/// The S-box x^7.
pub open spec fn sbox(x: nat) -> nat {
    (pow(x as int, 7) % (modulus() as int)) as nat
}

/// Sum of the twelve state values.
pub open spec fn state_sum(s: Seq<nat>) -> nat {
    s[0] + s[1] + s[2] + s[3] + s[4] + s[5] + s[6] + s[7] + s[8] + s[9] + s[10] + s[11]
}

/// The internal linear layer: x_i * DIAG_i + sum of all x_j.
pub open spec fn internal_linear(s: Seq<nat>) -> Seq<nat> {
    Seq::new(12, |i: int| (s[i] * (MATRIX_DIAG_U64[i] as nat) + state_sum(s)) % modulus())
}

/// One full round: round constants, S-box on every element, external layer.
#[verifier::opaque]
pub open spec fn full_round(s: Seq<nat>, r: int) -> Seq<nat> {
    external_linear(Seq::new(12, |i: int| sbox((s[i] + (EXTERNAL_CONSTANTS[r][i] as nat)) % modulus())))
}

/// `n` full rounds starting at round `start`.
pub open spec fn full_rounds(s: Seq<nat>, start: int, n: nat) -> Seq<nat>
    decreases n,
{
    if n == 0 {
        s
    } else {
        full_round(full_rounds(s, start, (n - 1) as nat), start + n - 1)
    }
}

/// One partial round: constant and S-box on element 0, internal layer.
#[verifier::opaque]
pub open spec fn partial_round(s: Seq<nat>, r: int) -> Seq<nat> {
    internal_linear(s.update(0, sbox((s[0] + (INTERNAL_CONSTANTS[r] as nat)) % modulus())))
}

/// The first `n` partial rounds.
pub open spec fn partial_rounds(s: Seq<nat>, n: nat) -> Seq<nat>
    decreases n,
{
    if n == 0 {
        s
    } else {
        partial_round(partial_rounds(s, (n - 1) as nat), n - 1)
    }
}

/// The Poseidon2 permutation of a 12-element state.
#[verifier::opaque]
pub open spec fn permutation(s: Seq<nat>) -> Seq<nat> {
    full_rounds(partial_rounds(full_rounds(external_linear(s), 0, 4), 22), 4, 4)
}

/// The S-box on a given value.
proof fn lemma_sbox_value(x: nat, y: nat)
    requires
        y == (x * x * x * x * x * x * x) % modulus(),
    ensures
        sbox(x) == y,
{
    reveal_with_fuel(pow, 8);
    let xi = x as int;
    assert(pow(xi, 7) == xi * xi * xi * xi * xi * xi * xi) by {
        reveal_with_fuel(pow, 8);
        assert(pow(xi, 7) == xi * (xi * (xi * (xi * (xi * (xi * (xi * 1)))))));
        assert(xi * (xi * (xi * (xi * (xi * (xi * (xi * 1)))))) == xi * xi * xi * xi * xi * xi * xi) by (nonlinear_arith);
    }
}

/// The state [0, 1, ..., 7, 0, 0, 0, 0]: the inputs 0..7 absorbed into the zero state.
pub open spec fn absorbed_counting_state() -> Seq<nat> {
    seq![0nat, 1nat, 2nat, 3nat, 4nat, 5nat, 6nat, 7nat, 0nat, 0nat, 0nat, 0nat]
}

proof fn lemma_kat_step_0()
    ensures
        external_linear(seq![0nat, 1nat, 2nat, 3nat, 4nat, 5nat, 6nat, 7nat, 0nat, 0nat, 0nat, 0nat]) == seq![52nat, 61nat, 70nat, 55nat, 80nat, 89nat, 98nat, 83nat, 44nat, 50nat, 56nat, 46nat],
{
    let x = seq![0nat, 1nat, 2nat, 3nat, 4nat, 5nat, 6nat, 7nat, 0nat, 0nat, 0nat, 0nat];
    assert(external_linear(x)[0] == 52);
    assert(external_linear(x)[1] == 61);
    assert(external_linear(x)[2] == 70);
    assert(external_linear(x)[3] == 55);
    assert(external_linear(x)[4] == 80);
    assert(external_linear(x)[5] == 89);
    assert(external_linear(x)[6] == 98);
    assert(external_linear(x)[7] == 83);
    assert(external_linear(x)[8] == 44);
    assert(external_linear(x)[9] == 50);
    assert(external_linear(x)[10] == 56);
    assert(external_linear(x)[11] == 46);
    assert(external_linear(x) =~= seq![52nat, 61nat, 70nat, 55nat, 80nat, 89nat, 98nat, 83nat, 44nat, 50nat, 56nat, 46nat]);
}

proof fn lemma_kat_step_1()
    ensures
        full_round(seq![52nat, 61nat, 70nat, 55nat, 80nat, 89nat, 98nat, 83nat, 44nat, 50nat, 56nat, 46nat], 0) == seq![8614832817144776337nat, 11253123355186217469nat, 5508285056181027185nat, 16443556530263872248nat, 15394130528307457005nat, 2186799596612570156nat, 15556425870485022719nat, 4314292607677918466nat, 1859169994178480948nat, 16466933938711256713nat, 15050895797817752379nat, 8440294339201513463nat],
{
    reveal(full_round);
    let x = seq![52nat, 61nat, 70nat, 55nat, 80nat, 89nat, 98nat, 83nat, 44nat, 50nat, 56nat, 46nat];
    let t = Seq::new(12, |i: int| sbox((x[i] + (EXTERNAL_CONSTANTS[0][i] as nat)) % modulus()));
    assert(EXTERNAL_CONSTANTS[0][0] == 15492826721047263190u64);
    lemma_sbox_value(15492826721047263242, 9578964117151515806);
    assert(t[0] == 9578964117151515806nat);
    assert(EXTERNAL_CONSTANTS[0][1] == 11728330187201910315u64);
    lemma_sbox_value(11728330187201910376, 10612270835930919031);
    assert(t[1] == 10612270835930919031nat);
    assert(EXTERNAL_CONSTANTS[0][2] == 8836021247773420868u64);
    lemma_sbox_value(8836021247773420938, 1686550266994729568);
    assert(t[2] == 1686550266994729568nat);
    assert(EXTERNAL_CONSTANTS[0][3] == 16777404051263952451u64);
    lemma_sbox_value(16777404051263952506, 14030112716097624615);
    assert(t[3] == 14030112716097624615nat);
    assert(EXTERNAL_CONSTANTS[0][4] == 5510875212538051896u64);
    lemma_sbox_value(5510875212538051976, 3721178370381642352);
    assert(t[4] == 3721178370381642352nat);
    assert(EXTERNAL_CONSTANTS[0][5] == 6173089941271892285u64);
    lemma_sbox_value(6173089941271892374, 13289949489714994087);
    assert(t[5] == 13289949489714994087nat);
    assert(EXTERNAL_CONSTANTS[0][6] == 2927757366422211339u64);
    lemma_sbox_value(2927757366422211437, 1397058020340958539);
    assert(t[6] == 1397058020340958539nat);
    assert(EXTERNAL_CONSTANTS[0][7] == 10340958981325008808u64);
    lemma_sbox_value(10340958981325008891, 6334694136687013731);
    assert(t[7] == 6334694136687013731nat);
    assert(EXTERNAL_CONSTANTS[0][8] == 8541987352684552425u64);
    lemma_sbox_value(8541987352684552469, 9709081042863991530);
    assert(t[8] == 9709081042863991530nat);
    assert(EXTERNAL_CONSTANTS[0][9] == 9739599543776434497u64);
    lemma_sbox_value(9739599543776434547, 8487184372897353050);
    assert(t[9] == 8487184372897353050nat);
    assert(EXTERNAL_CONSTANTS[0][10] == 15073950188101532019u64);
    lemma_sbox_value(15073950188101532075, 6673802201579851756);
    assert(t[10] == 6673802201579851756nat);
    assert(EXTERNAL_CONSTANTS[0][11] == 12084856431752384512u64);
    lemma_sbox_value(12084856431752384558, 8402223496221953533);
    assert(t[11] == 8402223496221953533nat);
    assert(t =~= seq![9578964117151515806nat, 10612270835930919031nat, 1686550266994729568nat, 14030112716097624615nat, 3721178370381642352nat, 13289949489714994087nat, 1397058020340958539nat, 6334694136687013731nat, 9709081042863991530nat, 8487184372897353050nat, 6673802201579851756nat, 8402223496221953533nat]);
    assert(external_linear(t)[0] == 8614832817144776337);
    assert(external_linear(t)[1] == 11253123355186217469);
    assert(external_linear(t)[2] == 5508285056181027185);
    assert(external_linear(t)[3] == 16443556530263872248);
    assert(external_linear(t)[4] == 15394130528307457005);
    assert(external_linear(t)[5] == 2186799596612570156);
    assert(external_linear(t)[6] == 15556425870485022719);
    assert(external_linear(t)[7] == 4314292607677918466);
    assert(external_linear(t)[8] == 1859169994178480948);
    assert(external_linear(t)[9] == 16466933938711256713);
    assert(external_linear(t)[10] == 15050895797817752379);
    assert(external_linear(t)[11] == 8440294339201513463);
    assert(external_linear(t) =~= seq![8614832817144776337nat, 11253123355186217469nat, 5508285056181027185nat, 16443556530263872248nat, 15394130528307457005nat, 2186799596612570156nat, 15556425870485022719nat, 4314292607677918466nat, 1859169994178480948nat, 16466933938711256713nat, 15050895797817752379nat, 8440294339201513463nat]);
}

proof fn lemma_kat_step_2()
    ensures
        full_round(seq![8614832817144776337nat, 11253123355186217469nat, 5508285056181027185nat, 16443556530263872248nat, 15394130528307457005nat, 2186799596612570156nat, 15556425870485022719nat, 4314292607677918466nat, 1859169994178480948nat, 16466933938711256713nat, 15050895797817752379nat, 8440294339201513463nat], 1) == seq![10226829576370157078nat, 8292524014228050851nat, 14242718471522720275nat, 15698615442589753937nat, 4072249184880205333nat, 380889971972939628nat, 4276562856651502430nat, 16257606525522866224nat, 16647732131205378439nat, 8131881666914274059nat, 8680748321127773828nat, 16489873866013685128nat],
{
    reveal(full_round);
    let x = seq![8614832817144776337nat, 11253123355186217469nat, 5508285056181027185nat, 16443556530263872248nat, 15394130528307457005nat, 2186799596612570156nat, 15556425870485022719nat, 4314292607677918466nat, 1859169994178480948nat, 16466933938711256713nat, 15050895797817752379nat, 8440294339201513463nat];
    let t = Seq::new(12, |i: int| sbox((x[i] + (EXTERNAL_CONSTANTS[1][i] as nat)) % modulus()));
    assert(EXTERNAL_CONSTANTS[1][0] == 4584713381960671270u64);
    lemma_sbox_value(13199546199105447607, 10537298626438533552);
    assert(t[0] == 10537298626438533552nat);
    assert(EXTERNAL_CONSTANTS[1][1] == 8807052963476652830u64);
    lemma_sbox_value(1613432249248285978, 13165220361576224525);
    assert(t[1] == 13165220361576224525nat);
    assert(EXTERNAL_CONSTANTS[1][2] == 54136601502601741u64);
    lemma_sbox_value(5562421657683628926, 12651796117853885464);
    assert(t[2] == 12651796117853885464nat);
    assert(EXTERNAL_CONSTANTS[1][3] == 4872702333905478703u64);
    lemma_sbox_value(2869514794754766630, 12278420710162225167);
    assert(t[3] == 12278420710162225167nat);
    assert(EXTERNAL_CONSTANTS[1][4] == 5551030319979516287u64);
    lemma_sbox_value(2498416778872388971, 11331020319740472320);
    assert(t[4] == 11331020319740472320nat);
    assert(EXTERNAL_CONSTANTS[1][5] == 12889366755535460989u64);
    lemma_sbox_value(15076166352148031145, 7414865516140237523);
    assert(t[5] == 7414865516140237523nat);
    assert(EXTERNAL_CONSTANTS[1][6] == 16329242193178844328u64);
    lemma_sbox_value(13438923994249282726, 9294952716404281608);
    assert(t[6] == 9294952716404281608nat);
    assert(EXTERNAL_CONSTANTS[1][7] == 412018088475211848u64);
    lemma_sbox_value(4726310696153130314, 6697560800411376427);
    assert(t[7] == 6697560800411376427nat);
    assert(EXTERNAL_CONSTANTS[1][8] == 10505784623379650541u64);
    lemma_sbox_value(12364954617558131489, 4543387501280386262);
    assert(t[8] == 4543387501280386262nat);
    assert(EXTERNAL_CONSTANTS[1][9] == 9758812378619434837u64);
    lemma_sbox_value(7779002247916107229, 819486812119008150);
    assert(t[9] == 819486812119008150nat);
    assert(EXTERNAL_CONSTANTS[1][10] == 7421979329386275117u64);
    lemma_sbox_value(4026131057789443175, 191201329471704555);
    assert(t[10] == 191201329471704555nat);
    assert(EXTERNAL_CONSTANTS[1][11] == 375240370024755551u64);
    lemma_sbox_value(8815534709226269014, 6397964674409233858);
    assert(t[11] == 6397964674409233858nat);
    assert(t =~= seq![10537298626438533552nat, 13165220361576224525nat, 12651796117853885464nat, 12278420710162225167nat, 11331020319740472320nat, 7414865516140237523nat, 9294952716404281608nat, 6697560800411376427nat, 4543387501280386262nat, 819486812119008150nat, 191201329471704555nat, 6397964674409233858nat]);
    assert(external_linear(t)[0] == 10226829576370157078);
    assert(external_linear(t)[1] == 8292524014228050851);
    assert(external_linear(t)[2] == 14242718471522720275);
    assert(external_linear(t)[3] == 15698615442589753937);
    assert(external_linear(t)[4] == 4072249184880205333);
    assert(external_linear(t)[5] == 380889971972939628);
    assert(external_linear(t)[6] == 4276562856651502430);
    assert(external_linear(t)[7] == 16257606525522866224);
    assert(external_linear(t)[8] == 16647732131205378439);
    assert(external_linear(t)[9] == 8131881666914274059);
    assert(external_linear(t)[10] == 8680748321127773828);
    assert(external_linear(t)[11] == 16489873866013685128);
    assert(external_linear(t) =~= seq![10226829576370157078nat, 8292524014228050851nat, 14242718471522720275nat, 15698615442589753937nat, 4072249184880205333nat, 380889971972939628nat, 4276562856651502430nat, 16257606525522866224nat, 16647732131205378439nat, 8131881666914274059nat, 8680748321127773828nat, 16489873866013685128nat]);
}

proof fn lemma_kat_step_3()
    ensures
        full_round(seq![10226829576370157078nat, 8292524014228050851nat, 14242718471522720275nat, 15698615442589753937nat, 4072249184880205333nat, 380889971972939628nat, 4276562856651502430nat, 16257606525522866224nat, 16647732131205378439nat, 8131881666914274059nat, 8680748321127773828nat, 16489873866013685128nat], 2) == seq![3763961551218678741nat, 1256499612445132237nat, 1169918452424488340nat, 8972034731312189147nat, 6799197884948475353nat, 15433444616611463803nat, 14679079655757949798nat, 10461168036374789000nat, 3601122700389107472nat, 18107342568539113516nat, 16250998719286903318nat, 5275873529404154198nat],
{
    reveal(full_round);
    let x = seq![10226829576370157078nat, 8292524014228050851nat, 14242718471522720275nat, 15698615442589753937nat, 4072249184880205333nat, 380889971972939628nat, 4276562856651502430nat, 16257606525522866224nat, 16647732131205378439nat, 8131881666914274059nat, 8680748321127773828nat, 16489873866013685128nat];
    let t = Seq::new(12, |i: int| sbox((x[i] + (EXTERNAL_CONSTANTS[2][i] as nat)) % modulus()));
    assert(EXTERNAL_CONSTANTS[2][0] == 3331431125640721931u64);
    lemma_sbox_value(13558260702010879009, 1399095084242036416);
    assert(t[0] == 1399095084242036416nat);
    assert(EXTERNAL_CONSTANTS[2][1] == 15684937309956309981u64);
    lemma_sbox_value(5530717254769776511, 18334967760827942551);
    assert(t[1] == 18334967760827942551nat);
    assert(EXTERNAL_CONSTANTS[2][2] == 578521833432107983u64);
    lemma_sbox_value(14821240304954828258, 10645860887871931313);
    assert(t[2] == 10645860887871931313nat);
    assert(EXTERNAL_CONSTANTS[2][3] == 14379242000670861838u64);
    lemma_sbox_value(11631113373846031454, 14784284990605410996);
    assert(t[3] == 14784284990605410996nat);
    assert(EXTERNAL_CONSTANTS[2][4] == 17922409828154900976u64);
    lemma_sbox_value(3547914943620521988, 7704781707299861078);
    assert(t[4] == 7704781707299861078nat);
    assert(EXTERNAL_CONSTANTS[2][5] == 8153494278429192257u64);
    lemma_sbox_value(8534384250402131885, 13081369765042016111);
    assert(t[5] == 13081369765042016111nat);
    assert(EXTERNAL_CONSTANTS[2][6] == 15904673920630731971u64);
    lemma_sbox_value(1734492707867650080, 16742759536726147901);
    assert(t[6] == 16742759536726147901nat);
    assert(EXTERNAL_CONSTANTS[2][7] == 11217863998460634216u64);
    lemma_sbox_value(9028726454568916119, 14872043416723121016);
    assert(t[7] == 14872043416723121016nat);
    assert(EXTERNAL_CONSTANTS[2][8] == 3301540195510742136u64);
    lemma_sbox_value(1502528257301536254, 16354910385425787108);
    assert(t[8] == 16354910385425787108nat);
    assert(EXTERNAL_CONSTANTS[2][9] == 9937973023749922003u64);
    lemma_sbox_value(18069854690664196062, 16676179345269046991);
    assert(t[9] == 16676179345269046991nat);
    assert(EXTERNAL_CONSTANTS[2][10] == 3059102938155026419u64);
    lemma_sbox_value(11739851259282800247, 7354471164731550832);
    assert(t[10] == 7354471164731550832nat);
    assert(EXTERNAL_CONSTANTS[2][11] == 1895288289490976132u64);
    lemma_sbox_value(18385162155504661260, 11424314576639989825);
    assert(t[11] == 11424314576639989825nat);
    assert(t =~= seq![1399095084242036416nat, 18334967760827942551nat, 10645860887871931313nat, 14784284990605410996nat, 7704781707299861078nat, 13081369765042016111nat, 16742759536726147901nat, 14872043416723121016nat, 16354910385425787108nat, 16676179345269046991nat, 7354471164731550832nat, 11424314576639989825nat]);
    assert(external_linear(t)[0] == 3763961551218678741);
    assert(external_linear(t)[1] == 1256499612445132237);
    assert(external_linear(t)[2] == 1169918452424488340);
    assert(external_linear(t)[3] == 8972034731312189147);
    assert(external_linear(t)[4] == 6799197884948475353);
    assert(external_linear(t)[5] == 15433444616611463803);
    assert(external_linear(t)[6] == 14679079655757949798);
    assert(external_linear(t)[7] == 10461168036374789000);
    assert(external_linear(t)[8] == 3601122700389107472);
    assert(external_linear(t)[9] == 18107342568539113516);
    assert(external_linear(t)[10] == 16250998719286903318);
    assert(external_linear(t)[11] == 5275873529404154198);
    assert(external_linear(t) =~= seq![3763961551218678741nat, 1256499612445132237nat, 1169918452424488340nat, 8972034731312189147nat, 6799197884948475353nat, 15433444616611463803nat, 14679079655757949798nat, 10461168036374789000nat, 3601122700389107472nat, 18107342568539113516nat, 16250998719286903318nat, 5275873529404154198nat]);
}

proof fn lemma_kat_step_4()
    ensures
        full_round(seq![3763961551218678741nat, 1256499612445132237nat, 1169918452424488340nat, 8972034731312189147nat, 6799197884948475353nat, 15433444616611463803nat, 14679079655757949798nat, 10461168036374789000nat, 3601122700389107472nat, 18107342568539113516nat, 16250998719286903318nat, 5275873529404154198nat], 3) == seq![16016774613595676006nat, 4390763805314379360nat, 15679942655215661201nat, 13703830136674355908nat, 2286178604671495926nat, 2816139236640043107nat, 3016570146687455162nat, 1362965011973899699nat, 17728574355570077045nat, 7428353807158978464nat, 12351977726260082338nat, 17751641108892125088nat],
{
    reveal(full_round);
    let x = seq![3763961551218678741nat, 1256499612445132237nat, 1169918452424488340nat, 8972034731312189147nat, 6799197884948475353nat, 15433444616611463803nat, 14679079655757949798nat, 10461168036374789000nat, 3601122700389107472nat, 18107342568539113516nat, 16250998719286903318nat, 5275873529404154198nat];
    let t = Seq::new(12, |i: int| sbox((x[i] + (EXTERNAL_CONSTANTS[3][i] as nat)) % modulus()));
    assert(EXTERNAL_CONSTANTS[3][0] == 5580912693628927540u64);
    lemma_sbox_value(9344874244847606281, 13279372791276840756);
    assert(t[0] == 13279372791276840756nat);
    assert(EXTERNAL_CONSTANTS[3][1] == 10064804080494788323u64);
    lemma_sbox_value(11321303692939920560, 6882697621482697050);
    assert(t[1] == 6882697621482697050nat);
    assert(EXTERNAL_CONSTANTS[3][2] == 9582481583369602410u64);
    lemma_sbox_value(10752400035794090750, 11554249660183247666);
    assert(t[2] == 11554249660183247666nat);
    assert(EXTERNAL_CONSTANTS[3][3] == 10186259561546797986u64);
    lemma_sbox_value(711550223444402812, 8199722838548742477);
    assert(t[3] == 8199722838548742477nat);
    assert(EXTERNAL_CONSTANTS[3][4] == 247426333829703916u64);
    lemma_sbox_value(7046624218778179269, 1104302256318422681);
    assert(t[4] == 1104302256318422681nat);
    assert(EXTERNAL_CONSTANTS[3][5] == 13193193905461376067u64);
    lemma_sbox_value(10179894452658255549, 6348932746785388186);
    assert(t[5] == 6348932746785388186nat);
    assert(EXTERNAL_CONSTANTS[3][6] == 6386232593701758044u64);
    lemma_sbox_value(2618568180045123521, 11277817675480306110);
    assert(t[6] == 11277817675480306110nat);
    assert(EXTERNAL_CONSTANTS[3][7] == 17954717245501896472u64);
    lemma_sbox_value(9969141212462101151, 2250250438921682374);
    assert(t[7] == 2250250438921682374nat);
    assert(EXTERNAL_CONSTANTS[3][8] == 1531720443376282699u64);
    lemma_sbox_value(5132843143765390171, 8977417214478139505);
    assert(t[8] == 8977417214478139505nat);
    assert(EXTERNAL_CONSTANTS[3][9] == 2455761864255501970u64);
    lemma_sbox_value(2116360363380031165, 9498915581792020305);
    assert(t[9] == 9498915581792020305nat);
    assert(EXTERNAL_CONSTANTS[3][10] == 11234429217864304495u64);
    lemma_sbox_value(9038683867736623492, 2150903947166365540);
    assert(t[10] == 2150903947166365540nat);
    assert(EXTERNAL_CONSTANTS[3][11] == 4746959618548874102u64);
    lemma_sbox_value(10022833147953028300, 1623381496794874058);
    assert(t[11] == 1623381496794874058nat);
    assert(t =~= seq![13279372791276840756nat, 6882697621482697050nat, 11554249660183247666nat, 8199722838548742477nat, 1104302256318422681nat, 6348932746785388186nat, 11277817675480306110nat, 2250250438921682374nat, 8977417214478139505nat, 9498915581792020305nat, 2150903947166365540nat, 1623381496794874058nat]);
    assert(external_linear(t)[0] == 16016774613595676006);
    assert(external_linear(t)[1] == 4390763805314379360);
    assert(external_linear(t)[2] == 15679942655215661201);
    assert(external_linear(t)[3] == 13703830136674355908);
    assert(external_linear(t)[4] == 2286178604671495926);
    assert(external_linear(t)[5] == 2816139236640043107);
    assert(external_linear(t)[6] == 3016570146687455162);
    assert(external_linear(t)[7] == 1362965011973899699);
    assert(external_linear(t)[8] == 17728574355570077045);
    assert(external_linear(t)[9] == 7428353807158978464);
    assert(external_linear(t)[10] == 12351977726260082338);
    assert(external_linear(t)[11] == 17751641108892125088);
    assert(external_linear(t) =~= seq![16016774613595676006nat, 4390763805314379360nat, 15679942655215661201nat, 13703830136674355908nat, 2286178604671495926nat, 2816139236640043107nat, 3016570146687455162nat, 1362965011973899699nat, 17728574355570077045nat, 7428353807158978464nat, 12351977726260082338nat, 17751641108892125088nat]);
}

proof fn lemma_kat_step_5()
    ensures
        partial_round(seq![16016774613595676006nat, 4390763805314379360nat, 15679942655215661201nat, 13703830136674355908nat, 2286178604671495926nat, 2816139236640043107nat, 3016570146687455162nat, 1362965011973899699nat, 17728574355570077045nat, 7428353807158978464nat, 12351977726260082338nat, 17751641108892125088nat], 0) == seq![4408906553361151226nat, 16317963332576517332nat, 16238841515502715667nat, 14409830733018146731nat, 1523969537803232301nat, 16115314553815020217nat, 8929888697753740455nat, 476670480580442645nat, 14322972710573926219nat, 885196816208468494nat, 13505629378299385638nat, 14562137537846565171nat],
{
    reveal(partial_round);
    let x = seq![16016774613595676006nat, 4390763805314379360nat, 15679942655215661201nat, 13703830136674355908nat, 2286178604671495926nat, 2816139236640043107nat, 3016570146687455162nat, 1362965011973899699nat, 17728574355570077045nat, 7428353807158978464nat, 12351977726260082338nat, 17751641108892125088nat];
    assert(INTERNAL_CONSTANTS[0] == 11921381764981422944u64);
    lemma_sbox_value(9491412309162514629, 5897490029337717853);
    assert(sbox((x[0] + (INTERNAL_CONSTANTS[0] as nat)) % modulus()) == 5897490029337717853nat);
    let u = x.update(0, 5897490029337717853nat);
    assert(u =~= seq![5897490029337717853nat, 4390763805314379360nat, 15679942655215661201nat, 13703830136674355908nat, 2286178604671495926nat, 2816139236640043107nat, 3016570146687455162nat, 1362965011973899699nat, 17728574355570077045nat, 7428353807158978464nat, 12351977726260082338nat, 17751641108892125088nat]);
    assert(internal_linear(u)[0] == 4408906553361151226);
    assert(internal_linear(u)[1] == 16317963332576517332);
    assert(internal_linear(u)[2] == 16238841515502715667);
    assert(internal_linear(u)[3] == 14409830733018146731);
    assert(internal_linear(u)[4] == 1523969537803232301);
    assert(internal_linear(u)[5] == 16115314553815020217);
    assert(internal_linear(u)[6] == 8929888697753740455);
    assert(internal_linear(u)[7] == 476670480580442645);
    assert(internal_linear(u)[8] == 14322972710573926219);
    assert(internal_linear(u)[9] == 885196816208468494);
    assert(internal_linear(u)[10] == 13505629378299385638);
    assert(internal_linear(u)[11] == 14562137537846565171);
    assert(internal_linear(u) =~= seq![4408906553361151226nat, 16317963332576517332nat, 16238841515502715667nat, 14409830733018146731nat, 1523969537803232301nat, 16115314553815020217nat, 8929888697753740455nat, 476670480580442645nat, 14322972710573926219nat, 885196816208468494nat, 13505629378299385638nat, 14562137537846565171nat]);
}

proof fn lemma_kat_step_6()
    ensures
        partial_round(seq![4408906553361151226nat, 16317963332576517332nat, 16238841515502715667nat, 14409830733018146731nat, 1523969537803232301nat, 16115314553815020217nat, 8929888697753740455nat, 476670480580442645nat, 14322972710573926219nat, 885196816208468494nat, 13505629378299385638nat, 14562137537846565171nat], 1) == seq![16038076565949532842nat, 1965409804860426699nat, 1622007606756660866nat, 11774221252664005174nat, 9485760408553319191nat, 4706954773875348535nat, 9974622982978645826nat, 3539560855330724578nat, 11644902612389117171nat, 17629059129220325712nat, 14204004333763220297nat, 4857778458099541892nat],
{
    reveal(partial_round);
    let x = seq![4408906553361151226nat, 16317963332576517332nat, 16238841515502715667nat, 14409830733018146731nat, 1523969537803232301nat, 16115314553815020217nat, 8929888697753740455nat, 476670480580442645nat, 14322972710573926219nat, 885196816208468494nat, 13505629378299385638nat, 14562137537846565171nat];
    assert(INTERNAL_CONSTANTS[1] == 10318423381711320787u64);
    lemma_sbox_value(14727329935072472013, 10894437988715189639);
    assert(sbox((x[0] + (INTERNAL_CONSTANTS[1] as nat)) % modulus()) == 10894437988715189639nat);
    let u = x.update(0, 10894437988715189639nat);
    assert(u =~= seq![10894437988715189639nat, 16317963332576517332nat, 16238841515502715667nat, 14409830733018146731nat, 1523969537803232301nat, 16115314553815020217nat, 8929888697753740455nat, 476670480580442645nat, 14322972710573926219nat, 885196816208468494nat, 13505629378299385638nat, 14562137537846565171nat]);
    assert(internal_linear(u)[0] == 16038076565949532842);
    assert(internal_linear(u)[1] == 1965409804860426699);
    assert(internal_linear(u)[2] == 1622007606756660866);
    assert(internal_linear(u)[3] == 11774221252664005174);
    assert(internal_linear(u)[4] == 9485760408553319191);
    assert(internal_linear(u)[5] == 4706954773875348535);
    assert(internal_linear(u)[6] == 9974622982978645826);
    assert(internal_linear(u)[7] == 3539560855330724578);
    assert(internal_linear(u)[8] == 11644902612389117171);
    assert(internal_linear(u)[9] == 17629059129220325712);
    assert(internal_linear(u)[10] == 14204004333763220297);
    assert(internal_linear(u)[11] == 4857778458099541892);
    assert(internal_linear(u) =~= seq![16038076565949532842nat, 1965409804860426699nat, 1622007606756660866nat, 11774221252664005174nat, 9485760408553319191nat, 4706954773875348535nat, 9974622982978645826nat, 3539560855330724578nat, 11644902612389117171nat, 17629059129220325712nat, 14204004333763220297nat, 4857778458099541892nat]);
}

proof fn lemma_kat_step_7()
    ensures
        partial_round(seq![16038076565949532842nat, 1965409804860426699nat, 1622007606756660866nat, 11774221252664005174nat, 9485760408553319191nat, 4706954773875348535nat, 9974622982978645826nat, 3539560855330724578nat, 11644902612389117171nat, 17629059129220325712nat, 14204004333763220297nat, 4857778458099541892nat], 2) == seq![7025011944751203149nat, 15347633824723940964nat, 15705256319828009048nat, 9645353563313229485nat, 7291881486815084539nat, 4097069139198529316nat, 13755820184026041786nat, 12928935238288594928nat, 9087574756530693083nat, 14881286332248782420nat, 2176503984694805204nat, 2012942456511822394nat],
{
    reveal(partial_round);
    let x = seq![16038076565949532842nat, 1965409804860426699nat, 1622007606756660866nat, 11774221252664005174nat, 9485760408553319191nat, 4706954773875348535nat, 9974622982978645826nat, 3539560855330724578nat, 11644902612389117171nat, 17629059129220325712nat, 14204004333763220297nat, 4857778458099541892nat];
    assert(INTERNAL_CONSTANTS[2] == 8291411502347000766u64);
    lemma_sbox_value(5882743998881949287, 1022961582358233732);
    assert(sbox((x[0] + (INTERNAL_CONSTANTS[2] as nat)) % modulus()) == 1022961582358233732nat);
    let u = x.update(0, 1022961582358233732nat);
    assert(u =~= seq![1022961582358233732nat, 1965409804860426699nat, 1622007606756660866nat, 11774221252664005174nat, 9485760408553319191nat, 4706954773875348535nat, 9974622982978645826nat, 3539560855330724578nat, 11644902612389117171nat, 17629059129220325712nat, 14204004333763220297nat, 4857778458099541892nat]);
    assert(internal_linear(u)[0] == 7025011944751203149);
    assert(internal_linear(u)[1] == 15347633824723940964);
    assert(internal_linear(u)[2] == 15705256319828009048);
    assert(internal_linear(u)[3] == 9645353563313229485);
    assert(internal_linear(u)[4] == 7291881486815084539);
    assert(internal_linear(u)[5] == 4097069139198529316);
    assert(internal_linear(u)[6] == 13755820184026041786);
    assert(internal_linear(u)[7] == 12928935238288594928);
    assert(internal_linear(u)[8] == 9087574756530693083);
    assert(internal_linear(u)[9] == 14881286332248782420);
    assert(internal_linear(u)[10] == 2176503984694805204);
    assert(internal_linear(u)[11] == 2012942456511822394);
    assert(internal_linear(u) =~= seq![7025011944751203149nat, 15347633824723940964nat, 15705256319828009048nat, 9645353563313229485nat, 7291881486815084539nat, 4097069139198529316nat, 13755820184026041786nat, 12928935238288594928nat, 9087574756530693083nat, 14881286332248782420nat, 2176503984694805204nat, 2012942456511822394nat]);
}

proof fn lemma_kat_step_8()
    ensures
        partial_round(seq![7025011944751203149nat, 15347633824723940964nat, 15705256319828009048nat, 9645353563313229485nat, 7291881486815084539nat, 4097069139198529316nat, 13755820184026041786nat, 12928935238288594928nat, 9087574756530693083nat, 14881286332248782420nat, 2176503984694805204nat, 2012942456511822394nat], 3) == seq![8019854452750887179nat, 12982083072748914145nat, 12338747480620592263nat, 3826878927304232238nat, 810476476871466959nat, 12317917743863402793nat, 16368623851055233007nat, 6551604272391065162nat, 11955427759285073688nat, 15639644381286058722nat, 9773192539849539412nat, 1177841076961383811nat],
{
    reveal(partial_round);
    let x = seq![7025011944751203149nat, 15347633824723940964nat, 15705256319828009048nat, 9645353563313229485nat, 7291881486815084539nat, 4097069139198529316nat, 13755820184026041786nat, 12928935238288594928nat, 9087574756530693083nat, 14881286332248782420nat, 2176503984694805204nat, 2012942456511822394nat];
    assert(INTERNAL_CONSTANTS[3] == 229948027109387563u64);
    lemma_sbox_value(7254959971860590712, 9555462697640507500);
    assert(sbox((x[0] + (INTERNAL_CONSTANTS[3] as nat)) % modulus()) == 9555462697640507500nat);
    let u = x.update(0, 9555462697640507500nat);
    assert(u =~= seq![9555462697640507500nat, 15347633824723940964nat, 15705256319828009048nat, 9645353563313229485nat, 7291881486815084539nat, 4097069139198529316nat, 13755820184026041786nat, 12928935238288594928nat, 9087574756530693083nat, 14881286332248782420nat, 2176503984694805204nat, 2012942456511822394nat]);
    assert(internal_linear(u)[0] == 8019854452750887179);
    assert(internal_linear(u)[1] == 12982083072748914145);
    assert(internal_linear(u)[2] == 12338747480620592263);
    assert(internal_linear(u)[3] == 3826878927304232238);
    assert(internal_linear(u)[4] == 810476476871466959);
    assert(internal_linear(u)[5] == 12317917743863402793);
    assert(internal_linear(u)[6] == 16368623851055233007);
    assert(internal_linear(u)[7] == 6551604272391065162);
    assert(internal_linear(u)[8] == 11955427759285073688);
    assert(internal_linear(u)[9] == 15639644381286058722);
    assert(internal_linear(u)[10] == 9773192539849539412);
    assert(internal_linear(u)[11] == 1177841076961383811);
    assert(internal_linear(u) =~= seq![8019854452750887179nat, 12982083072748914145nat, 12338747480620592263nat, 3826878927304232238nat, 810476476871466959nat, 12317917743863402793nat, 16368623851055233007nat, 6551604272391065162nat, 11955427759285073688nat, 15639644381286058722nat, 9773192539849539412nat, 1177841076961383811nat]);
}

proof fn lemma_kat_step_9()
    ensures
        partial_round(seq![8019854452750887179nat, 12982083072748914145nat, 12338747480620592263nat, 3826878927304232238nat, 810476476871466959nat, 12317917743863402793nat, 16368623851055233007nat, 6551604272391065162nat, 11955427759285073688nat, 15639644381286058722nat, 9773192539849539412nat, 1177841076961383811nat], 4) == seq![8126219279375559341nat, 13271804073414972537nat, 14540253330824676349nat, 16621904380595057279nat, 15275992182337624738nat, 12424968612208104759nat, 4033794884257218660nat, 18446519153017650974nat, 9812293117809882282nat, 8919172745181951877nat, 14382743414217138031nat, 7964619964201135506nat],
{
    reveal(partial_round);
    let x = seq![8019854452750887179nat, 12982083072748914145nat, 12338747480620592263nat, 3826878927304232238nat, 810476476871466959nat, 12317917743863402793nat, 16368623851055233007nat, 6551604272391065162nat, 11955427759285073688nat, 15639644381286058722nat, 9773192539849539412nat, 1177841076961383811nat];
    assert(INTERNAL_CONSTANTS[4] == 9152521390190983261u64);
    lemma_sbox_value(17172375842941870440, 15314831788805199941);
    assert(sbox((x[0] + (INTERNAL_CONSTANTS[4] as nat)) % modulus()) == 15314831788805199941nat);
    let u = x.update(0, 15314831788805199941nat);
    assert(u =~= seq![15314831788805199941nat, 12982083072748914145nat, 12338747480620592263nat, 3826878927304232238nat, 810476476871466959nat, 12317917743863402793nat, 16368623851055233007nat, 6551604272391065162nat, 11955427759285073688nat, 15639644381286058722nat, 9773192539849539412nat, 1177841076961383811nat]);
    assert(internal_linear(u)[0] == 8126219279375559341);
    assert(internal_linear(u)[1] == 13271804073414972537);
    assert(internal_linear(u)[2] == 14540253330824676349);
    assert(internal_linear(u)[3] == 16621904380595057279);
    assert(internal_linear(u)[4] == 15275992182337624738);
    assert(internal_linear(u)[5] == 12424968612208104759);
    assert(internal_linear(u)[6] == 4033794884257218660);
    assert(internal_linear(u)[7] == 18446519153017650974);
    assert(internal_linear(u)[8] == 9812293117809882282);
    assert(internal_linear(u)[9] == 8919172745181951877);
    assert(internal_linear(u)[10] == 14382743414217138031);
    assert(internal_linear(u)[11] == 7964619964201135506);
    assert(internal_linear(u) =~= seq![8126219279375559341nat, 13271804073414972537nat, 14540253330824676349nat, 16621904380595057279nat, 15275992182337624738nat, 12424968612208104759nat, 4033794884257218660nat, 18446519153017650974nat, 9812293117809882282nat, 8919172745181951877nat, 14382743414217138031nat, 7964619964201135506nat]);
}

proof fn lemma_kat_step_10()
    ensures
        partial_round(seq![8126219279375559341nat, 13271804073414972537nat, 14540253330824676349nat, 16621904380595057279nat, 15275992182337624738nat, 12424968612208104759nat, 4033794884257218660nat, 18446519153017650974nat, 9812293117809882282nat, 8919172745181951877nat, 14382743414217138031nat, 7964619964201135506nat], 5) == seq![10903186771641992121nat, 17494023409880471756nat, 18250450125470052509nat, 16282253322719898199nat, 9824795223527096991nat, 7616058951166460479nat, 11355012505970981832nat, 1840414098569191439nat, 5221156181064782808nat, 97902580711673815nat, 9635435949480454314nat, 16752367457521849638nat],
{
    reveal(partial_round);
    let x = seq![8126219279375559341nat, 13271804073414972537nat, 14540253330824676349nat, 16621904380595057279nat, 15275992182337624738nat, 12424968612208104759nat, 4033794884257218660nat, 18446519153017650974nat, 9812293117809882282nat, 8919172745181951877nat, 14382743414217138031nat, 7964619964201135506nat];
    assert(INTERNAL_CONSTANTS[5] == 7129306032690285515u64);
    lemma_sbox_value(15255525312065844856, 9862175589930330889);
    assert(sbox((x[0] + (INTERNAL_CONSTANTS[5] as nat)) % modulus()) == 9862175589930330889nat);
    let u = x.update(0, 9862175589930330889nat);
    assert(u =~= seq![9862175589930330889nat, 13271804073414972537nat, 14540253330824676349nat, 16621904380595057279nat, 15275992182337624738nat, 12424968612208104759nat, 4033794884257218660nat, 18446519153017650974nat, 9812293117809882282nat, 8919172745181951877nat, 14382743414217138031nat, 7964619964201135506nat]);
    assert(internal_linear(u)[0] == 10903186771641992121);
    assert(internal_linear(u)[1] == 17494023409880471756);
    assert(internal_linear(u)[2] == 18250450125470052509);
    assert(internal_linear(u)[3] == 16282253322719898199);
    assert(internal_linear(u)[4] == 9824795223527096991);
    assert(internal_linear(u)[5] == 7616058951166460479);
    assert(internal_linear(u)[6] == 11355012505970981832);
    assert(internal_linear(u)[7] == 1840414098569191439);
    assert(internal_linear(u)[8] == 5221156181064782808);
    assert(internal_linear(u)[9] == 97902580711673815);
    assert(internal_linear(u)[10] == 9635435949480454314);
    assert(internal_linear(u)[11] == 16752367457521849638);
    assert(internal_linear(u) =~= seq![10903186771641992121nat, 17494023409880471756nat, 18250450125470052509nat, 16282253322719898199nat, 9824795223527096991nat, 7616058951166460479nat, 11355012505970981832nat, 1840414098569191439nat, 5221156181064782808nat, 97902580711673815nat, 9635435949480454314nat, 16752367457521849638nat]);
}

proof fn lemma_kat_step_11()
    ensures
        partial_round(seq![10903186771641992121nat, 17494023409880471756nat, 18250450125470052509nat, 16282253322719898199nat, 9824795223527096991nat, 7616058951166460479nat, 11355012505970981832nat, 1840414098569191439nat, 5221156181064782808nat, 97902580711673815nat, 9635435949480454314nat, 16752367457521849638nat], 6) == seq![11166966129977337457nat, 14801996754164093587nat, 16837065951106592151nat, 8606552382016432555nat, 5693876320559590151nat, 10169145535294106988nat, 12819044364731484096nat, 2797716999056519900nat, 7617695151269626025nat, 16181381672795164332nat, 11976166428223536755nat, 6749326123746555732nat],
{
    reveal(partial_round);
    let x = seq![10903186771641992121nat, 17494023409880471756nat, 18250450125470052509nat, 16282253322719898199nat, 9824795223527096991nat, 7616058951166460479nat, 11355012505970981832nat, 1840414098569191439nat, 5221156181064782808nat, 97902580711673815nat, 9635435949480454314nat, 16752367457521849638nat];
    assert(INTERNAL_CONSTANTS[6] == 15395989607365232011u64);
    lemma_sbox_value(7852432309592639811, 17641520098899824137);
    assert(sbox((x[0] + (INTERNAL_CONSTANTS[6] as nat)) % modulus()) == 17641520098899824137nat);
    let u = x.update(0, 17641520098899824137nat);
    assert(u =~= seq![17641520098899824137nat, 17494023409880471756nat, 18250450125470052509nat, 16282253322719898199nat, 9824795223527096991nat, 7616058951166460479nat, 11355012505970981832nat, 1840414098569191439nat, 5221156181064782808nat, 97902580711673815nat, 9635435949480454314nat, 16752367457521849638nat]);
    assert(internal_linear(u)[0] == 11166966129977337457);
    assert(internal_linear(u)[1] == 14801996754164093587);
    assert(internal_linear(u)[2] == 16837065951106592151);
    assert(internal_linear(u)[3] == 8606552382016432555);
    assert(internal_linear(u)[4] == 5693876320559590151);
    assert(internal_linear(u)[5] == 10169145535294106988);
    assert(internal_linear(u)[6] == 12819044364731484096);
    assert(internal_linear(u)[7] == 2797716999056519900);
    assert(internal_linear(u)[8] == 7617695151269626025);
    assert(internal_linear(u)[9] == 16181381672795164332);
    assert(internal_linear(u)[10] == 11976166428223536755);
    assert(internal_linear(u)[11] == 6749326123746555732);
    assert(internal_linear(u) =~= seq![11166966129977337457nat, 14801996754164093587nat, 16837065951106592151nat, 8606552382016432555nat, 5693876320559590151nat, 10169145535294106988nat, 12819044364731484096nat, 2797716999056519900nat, 7617695151269626025nat, 16181381672795164332nat, 11976166428223536755nat, 6749326123746555732nat]);
}

proof fn lemma_kat_step_12()
    ensures
        partial_round(seq![11166966129977337457nat, 14801996754164093587nat, 16837065951106592151nat, 8606552382016432555nat, 5693876320559590151nat, 10169145535294106988nat, 12819044364731484096nat, 2797716999056519900nat, 7617695151269626025nat, 16181381672795164332nat, 11976166428223536755nat, 6749326123746555732nat], 7) == seq![15854062677950331005nat, 5927723566726483357nat, 6663323253027420548nat, 50946554487312118nat, 3613360817742762550nat, 4575462477483146630nat, 777142722346150581nat, 7317496122649535561nat, 8009947204719079279nat, 4608215380167451816nat, 15475571619767088787nat, 1459626566081882383nat],
{
    reveal(partial_round);
    let x = seq![11166966129977337457nat, 14801996754164093587nat, 16837065951106592151nat, 8606552382016432555nat, 5693876320559590151nat, 10169145535294106988nat, 12819044364731484096nat, 2797716999056519900nat, 7617695151269626025nat, 16181381672795164332nat, 11976166428223536755nat, 6749326123746555732nat];
    assert(INTERNAL_CONSTANTS[7] == 8641397269074305925u64);
    lemma_sbox_value(1361619329637059061, 11126299843757458898);
    assert(sbox((x[0] + (INTERNAL_CONSTANTS[7] as nat)) % modulus()) == 11126299843757458898nat);
    let u = x.update(0, 11126299843757458898nat);
    assert(u =~= seq![11126299843757458898nat, 14801996754164093587nat, 16837065951106592151nat, 8606552382016432555nat, 5693876320559590151nat, 10169145535294106988nat, 12819044364731484096nat, 2797716999056519900nat, 7617695151269626025nat, 16181381672795164332nat, 11976166428223536755nat, 6749326123746555732nat]);
    assert(internal_linear(u)[0] == 15854062677950331005);
    assert(internal_linear(u)[1] == 5927723566726483357);
    assert(internal_linear(u)[2] == 6663323253027420548);
    assert(internal_linear(u)[3] == 50946554487312118);
    assert(internal_linear(u)[4] == 3613360817742762550);
    assert(internal_linear(u)[5] == 4575462477483146630);
    assert(internal_linear(u)[6] == 777142722346150581);
    assert(internal_linear(u)[7] == 7317496122649535561);
    assert(internal_linear(u)[8] == 8009947204719079279);
    assert(internal_linear(u)[9] == 4608215380167451816);
    assert(internal_linear(u)[10] == 15475571619767088787);
    assert(internal_linear(u)[11] == 1459626566081882383);
    assert(internal_linear(u) =~= seq![15854062677950331005nat, 5927723566726483357nat, 6663323253027420548nat, 50946554487312118nat, 3613360817742762550nat, 4575462477483146630nat, 777142722346150581nat, 7317496122649535561nat, 8009947204719079279nat, 4608215380167451816nat, 15475571619767088787nat, 1459626566081882383nat]);
}

proof fn lemma_kat_step_13()
    ensures
        partial_round(seq![15854062677950331005nat, 5927723566726483357nat, 6663323253027420548nat, 50946554487312118nat, 3613360817742762550nat, 4575462477483146630nat, 777142722346150581nat, 7317496122649535561nat, 8009947204719079279nat, 4608215380167451816nat, 15475571619767088787nat, 1459626566081882383nat], 8) == seq![5047792585383457448nat, 13618654007961075471nat, 7520853120872188740nat, 15018740248587429193nat, 15649096417133118464nat, 15598040940658648457nat, 8927876445350928993nat, 14204456022362248722nat, 14307358061289415148nat, 8189396245480712181nat, 17582990186385832967nat, 11360621970865996164nat],
{
    reveal(partial_round);
    let x = seq![15854062677950331005nat, 5927723566726483357nat, 6663323253027420548nat, 50946554487312118nat, 3613360817742762550nat, 4575462477483146630nat, 777142722346150581nat, 7317496122649535561nat, 8009947204719079279nat, 4608215380167451816nat, 15475571619767088787nat, 1459626566081882383nat];
    assert(INTERNAL_CONSTANTS[8] == 17256848792241043600u64);
    lemma_sbox_value(14664167400776790284, 13826646008732070228);
    assert(sbox((x[0] + (INTERNAL_CONSTANTS[8] as nat)) % modulus()) == 13826646008732070228nat);
    let u = x.update(0, 13826646008732070228nat);
    assert(u =~= seq![13826646008732070228nat, 5927723566726483357nat, 6663323253027420548nat, 50946554487312118nat, 3613360817742762550nat, 4575462477483146630nat, 777142722346150581nat, 7317496122649535561nat, 8009947204719079279nat, 4608215380167451816nat, 15475571619767088787nat, 1459626566081882383nat]);
    assert(internal_linear(u)[0] == 5047792585383457448);
    assert(internal_linear(u)[1] == 13618654007961075471);
    assert(internal_linear(u)[2] == 7520853120872188740);
    assert(internal_linear(u)[3] == 15018740248587429193);
    assert(internal_linear(u)[4] == 15649096417133118464);
    assert(internal_linear(u)[5] == 15598040940658648457);
    assert(internal_linear(u)[6] == 8927876445350928993);
    assert(internal_linear(u)[7] == 14204456022362248722);
    assert(internal_linear(u)[8] == 14307358061289415148);
    assert(internal_linear(u)[9] == 8189396245480712181);
    assert(internal_linear(u)[10] == 17582990186385832967);
    assert(internal_linear(u)[11] == 11360621970865996164);
    assert(internal_linear(u) =~= seq![5047792585383457448nat, 13618654007961075471nat, 7520853120872188740nat, 15018740248587429193nat, 15649096417133118464nat, 15598040940658648457nat, 8927876445350928993nat, 14204456022362248722nat, 14307358061289415148nat, 8189396245480712181nat, 17582990186385832967nat, 11360621970865996164nat]);
}

proof fn lemma_kat_step_14()
    ensures
        partial_round(seq![5047792585383457448nat, 13618654007961075471nat, 7520853120872188740nat, 15018740248587429193nat, 15649096417133118464nat, 15598040940658648457nat, 8927876445350928993nat, 14204456022362248722nat, 14307358061289415148nat, 8189396245480712181nat, 17582990186385832967nat, 11360621970865996164nat], 9) == seq![9562620643506615295nat, 7681890759762202144nat, 9693864938153849703nat, 13437753866086286923nat, 1690870758717932872nat, 4622393037461729336nat, 15148134747731298558nat, 8218338546517880972nat, 5866369269378421300nat, 80946667450859200nat, 3714098701721475498nat, 17183062551583277005nat],
{
    reveal(partial_round);
    let x = seq![5047792585383457448nat, 13618654007961075471nat, 7520853120872188740nat, 15018740248587429193nat, 15649096417133118464nat, 15598040940658648457nat, 8927876445350928993nat, 14204456022362248722nat, 14307358061289415148nat, 8189396245480712181nat, 17582990186385832967nat, 11360621970865996164nat];
    assert(INTERNAL_CONSTANTS[9] == 6046475228902245682u64);
    lemma_sbox_value(11094267814285703130, 12397846859459443755);
    assert(sbox((x[0] + (INTERNAL_CONSTANTS[9] as nat)) % modulus()) == 12397846859459443755nat);
    let u = x.update(0, 12397846859459443755nat);
    assert(u =~= seq![12397846859459443755nat, 13618654007961075471nat, 7520853120872188740nat, 15018740248587429193nat, 15649096417133118464nat, 15598040940658648457nat, 8927876445350928993nat, 14204456022362248722nat, 14307358061289415148nat, 8189396245480712181nat, 17582990186385832967nat, 11360621970865996164nat]);
    assert(internal_linear(u)[0] == 9562620643506615295);
    assert(internal_linear(u)[1] == 7681890759762202144);
    assert(internal_linear(u)[2] == 9693864938153849703);
    assert(internal_linear(u)[3] == 13437753866086286923);
    assert(internal_linear(u)[4] == 1690870758717932872);
    assert(internal_linear(u)[5] == 4622393037461729336);
    assert(internal_linear(u)[6] == 15148134747731298558);
    assert(internal_linear(u)[7] == 8218338546517880972);
    assert(internal_linear(u)[8] == 5866369269378421300);
    assert(internal_linear(u)[9] == 80946667450859200);
    assert(internal_linear(u)[10] == 3714098701721475498);
    assert(internal_linear(u)[11] == 17183062551583277005);
    assert(internal_linear(u) =~= seq![9562620643506615295nat, 7681890759762202144nat, 9693864938153849703nat, 13437753866086286923nat, 1690870758717932872nat, 4622393037461729336nat, 15148134747731298558nat, 8218338546517880972nat, 5866369269378421300nat, 80946667450859200nat, 3714098701721475498nat, 17183062551583277005nat]);
}

proof fn lemma_kat_step_15()
    ensures
        partial_round(seq![9562620643506615295nat, 7681890759762202144nat, 9693864938153849703nat, 13437753866086286923nat, 1690870758717932872nat, 4622393037461729336nat, 15148134747731298558nat, 8218338546517880972nat, 5866369269378421300nat, 80946667450859200nat, 3714098701721475498nat, 17183062551583277005nat], 10) == seq![12789217882185193656nat, 9030173795404057844nat, 17988210170130112820nat, 3671896173950098817nat, 3645118300944018934nat, 15757711049499223652nat, 1167839432205598227nat, 16163037720234569740nat, 11739168070975916726nat, 15545904514134333763nat, 9153421606975127717nat, 16467711633442823425nat],
{
    reveal(partial_round);
    let x = seq![9562620643506615295nat, 7681890759762202144nat, 9693864938153849703nat, 13437753866086286923nat, 1690870758717932872nat, 4622393037461729336nat, 15148134747731298558nat, 8218338546517880972nat, 5866369269378421300nat, 80946667450859200nat, 3714098701721475498nat, 17183062551583277005nat];
    assert(INTERNAL_CONSTANTS[10] == 12041608676381094092u64);
    lemma_sbox_value(3157485250473125066, 15057426576956601318);
    assert(sbox((x[0] + (INTERNAL_CONSTANTS[10] as nat)) % modulus()) == 15057426576956601318nat);
    let u = x.update(0, 15057426576956601318nat);
    assert(u =~= seq![15057426576956601318nat, 7681890759762202144nat, 9693864938153849703nat, 13437753866086286923nat, 1690870758717932872nat, 4622393037461729336nat, 15148134747731298558nat, 8218338546517880972nat, 5866369269378421300nat, 80946667450859200nat, 3714098701721475498nat, 17183062551583277005nat]);
    assert(internal_linear(u)[0] == 12789217882185193656);
    assert(internal_linear(u)[1] == 9030173795404057844);
    assert(internal_linear(u)[2] == 17988210170130112820);
    assert(internal_linear(u)[3] == 3671896173950098817);
    assert(internal_linear(u)[4] == 3645118300944018934);
    assert(internal_linear(u)[5] == 15757711049499223652);
    assert(internal_linear(u)[6] == 1167839432205598227);
    assert(internal_linear(u)[7] == 16163037720234569740);
    assert(internal_linear(u)[8] == 11739168070975916726);
    assert(internal_linear(u)[9] == 15545904514134333763);
    assert(internal_linear(u)[10] == 9153421606975127717);
    assert(internal_linear(u)[11] == 16467711633442823425);
    assert(internal_linear(u) =~= seq![12789217882185193656nat, 9030173795404057844nat, 17988210170130112820nat, 3671896173950098817nat, 3645118300944018934nat, 15757711049499223652nat, 1167839432205598227nat, 16163037720234569740nat, 11739168070975916726nat, 15545904514134333763nat, 9153421606975127717nat, 16467711633442823425nat]);
}

proof fn lemma_kat_step_16()
    ensures
        partial_round(seq![12789217882185193656nat, 9030173795404057844nat, 17988210170130112820nat, 3671896173950098817nat, 3645118300944018934nat, 15757711049499223652nat, 1167839432205598227nat, 16163037720234569740nat, 11739168070975916726nat, 15545904514134333763nat, 9153421606975127717nat, 16467711633442823425nat], 11) == seq![15420930324917605214nat, 13239300231548941926nat, 11034761828884781886nat, 2268565299308166035nat, 5326843897370701053nat, 12486410672226022780nat, 5524909381671327677nat, 2244992491807580642nat, 12559046739317039852nat, 5776254459228955608nat, 9939964688631066000nat, 13412328986681937947nat],
{
    reveal(partial_round);
    let x = seq![12789217882185193656nat, 9030173795404057844nat, 17988210170130112820nat, 3671896173950098817nat, 3645118300944018934nat, 15757711049499223652nat, 1167839432205598227nat, 16163037720234569740nat, 11739168070975916726nat, 15545904514134333763nat, 9153421606975127717nat, 16467711633442823425nat];
    assert(INTERNAL_CONSTANTS[11] == 12785542378683951657u64);
    lemma_sbox_value(7128016191454560992, 3041582970979917103);
    assert(sbox((x[0] + (INTERNAL_CONSTANTS[11] as nat)) % modulus()) == 3041582970979917103nat);
    let u = x.update(0, 3041582970979917103nat);
    assert(u =~= seq![3041582970979917103nat, 9030173795404057844nat, 17988210170130112820nat, 3671896173950098817nat, 3645118300944018934nat, 15757711049499223652nat, 1167839432205598227nat, 16163037720234569740nat, 11739168070975916726nat, 15545904514134333763nat, 9153421606975127717nat, 16467711633442823425nat]);
    assert(internal_linear(u)[0] == 15420930324917605214);
    assert(internal_linear(u)[1] == 13239300231548941926);
    assert(internal_linear(u)[2] == 11034761828884781886);
    assert(internal_linear(u)[3] == 2268565299308166035);
    assert(internal_linear(u)[4] == 5326843897370701053);
    assert(internal_linear(u)[5] == 12486410672226022780);
    assert(internal_linear(u)[6] == 5524909381671327677);
    assert(internal_linear(u)[7] == 2244992491807580642);
    assert(internal_linear(u)[8] == 12559046739317039852);
    assert(internal_linear(u)[9] == 5776254459228955608);
    assert(internal_linear(u)[10] == 9939964688631066000);
    assert(internal_linear(u)[11] == 13412328986681937947);
    assert(internal_linear(u) =~= seq![15420930324917605214nat, 13239300231548941926nat, 11034761828884781886nat, 2268565299308166035nat, 5326843897370701053nat, 12486410672226022780nat, 5524909381671327677nat, 2244992491807580642nat, 12559046739317039852nat, 5776254459228955608nat, 9939964688631066000nat, 13412328986681937947nat]);
}

proof fn lemma_kat_step_17()
    ensures
        partial_round(seq![15420930324917605214nat, 13239300231548941926nat, 11034761828884781886nat, 2268565299308166035nat, 5326843897370701053nat, 12486410672226022780nat, 5524909381671327677nat, 2244992491807580642nat, 12559046739317039852nat, 5776254459228955608nat, 9939964688631066000nat, 13412328986681937947nat], 12) == seq![13365348827919530164nat, 5749804679145319400nat, 12637323058422954575nat, 6305743891619334310nat, 9972560196100765895nat, 15653410377717073484nat, 3569030686650471647nat, 12598379509135240629nat, 5139034210141318231nat, 14710538351469382437nat, 1289168438641092657nat, 14601731195929281236nat],
{
    reveal(partial_round);
    let x = seq![15420930324917605214nat, 13239300231548941926nat, 11034761828884781886nat, 2268565299308166035nat, 5326843897370701053nat, 12486410672226022780nat, 5524909381671327677nat, 2244992491807580642nat, 12559046739317039852nat, 5776254459228955608nat, 9939964688631066000nat, 13412328986681937947nat];
    assert(INTERNAL_CONSTANTS[12] == 14546032085337914034u64);
    lemma_sbox_value(11520218340840934927, 698780667000225904);
    assert(sbox((x[0] + (INTERNAL_CONSTANTS[12] as nat)) % modulus()) == 698780667000225904nat);
    let u = x.update(0, 698780667000225904nat);
    assert(u =~= seq![698780667000225904nat, 13239300231548941926nat, 11034761828884781886nat, 2268565299308166035nat, 5326843897370701053nat, 12486410672226022780nat, 5524909381671327677nat, 2244992491807580642nat, 12559046739317039852nat, 5776254459228955608nat, 9939964688631066000nat, 13412328986681937947nat]);
    assert(internal_linear(u)[0] == 13365348827919530164);
    assert(internal_linear(u)[1] == 5749804679145319400);
    assert(internal_linear(u)[2] == 12637323058422954575);
    assert(internal_linear(u)[3] == 6305743891619334310);
    assert(internal_linear(u)[4] == 9972560196100765895);
    assert(internal_linear(u)[5] == 15653410377717073484);
    assert(internal_linear(u)[6] == 3569030686650471647);
    assert(internal_linear(u)[7] == 12598379509135240629);
    assert(internal_linear(u)[8] == 5139034210141318231);
    assert(internal_linear(u)[9] == 14710538351469382437);
    assert(internal_linear(u)[10] == 1289168438641092657);
    assert(internal_linear(u)[11] == 14601731195929281236);
    assert(internal_linear(u) =~= seq![13365348827919530164nat, 5749804679145319400nat, 12637323058422954575nat, 6305743891619334310nat, 9972560196100765895nat, 15653410377717073484nat, 3569030686650471647nat, 12598379509135240629nat, 5139034210141318231nat, 14710538351469382437nat, 1289168438641092657nat, 14601731195929281236nat]);
}

proof fn lemma_kat_step_18()
    ensures
        partial_round(seq![13365348827919530164nat, 5749804679145319400nat, 12637323058422954575nat, 6305743891619334310nat, 9972560196100765895nat, 15653410377717073484nat, 3569030686650471647nat, 12598379509135240629nat, 5139034210141318231nat, 14710538351469382437nat, 1289168438641092657nat, 14601731195929281236nat], 13) == seq![14442441715176923455nat, 6466633799433891107nat, 3902738701550914599nat, 18142443532027815211nat, 10195241481132011577nat, 6327693819248218595nat, 5335461734467870650nat, 4151167697894091986nat, 15160851737444301830nat, 14159222037642231088nat, 11409973256181452993nat, 17571864317656119780nat],
{
    reveal(partial_round);
    let x = seq![13365348827919530164nat, 5749804679145319400nat, 12637323058422954575nat, 6305743891619334310nat, 9972560196100765895nat, 15653410377717073484nat, 3569030686650471647nat, 12598379509135240629nat, 5139034210141318231nat, 14710538351469382437nat, 1289168438641092657nat, 14601731195929281236nat];
    assert(INTERNAL_CONSTANTS[13] == 3304199118235116851u64);
    lemma_sbox_value(16669547946154647015, 18289506993329439523);
    assert(sbox((x[0] + (INTERNAL_CONSTANTS[13] as nat)) % modulus()) == 18289506993329439523nat);
    let u = x.update(0, 18289506993329439523nat);
    assert(u =~= seq![18289506993329439523nat, 5749804679145319400nat, 12637323058422954575nat, 6305743891619334310nat, 9972560196100765895nat, 15653410377717073484nat, 3569030686650471647nat, 12598379509135240629nat, 5139034210141318231nat, 14710538351469382437nat, 1289168438641092657nat, 14601731195929281236nat]);
    assert(internal_linear(u)[0] == 14442441715176923455);
    assert(internal_linear(u)[1] == 6466633799433891107);
    assert(internal_linear(u)[2] == 3902738701550914599);
    assert(internal_linear(u)[3] == 18142443532027815211);
    assert(internal_linear(u)[4] == 10195241481132011577);
    assert(internal_linear(u)[5] == 6327693819248218595);
    assert(internal_linear(u)[6] == 5335461734467870650);
    assert(internal_linear(u)[7] == 4151167697894091986);
    assert(internal_linear(u)[8] == 15160851737444301830);
    assert(internal_linear(u)[9] == 14159222037642231088);
    assert(internal_linear(u)[10] == 11409973256181452993);
    assert(internal_linear(u)[11] == 17571864317656119780);
    assert(internal_linear(u) =~= seq![14442441715176923455nat, 6466633799433891107nat, 3902738701550914599nat, 18142443532027815211nat, 10195241481132011577nat, 6327693819248218595nat, 5335461734467870650nat, 4151167697894091986nat, 15160851737444301830nat, 14159222037642231088nat, 11409973256181452993nat, 17571864317656119780nat]);
}

proof fn lemma_kat_step_19()
    ensures
        partial_round(seq![14442441715176923455nat, 6466633799433891107nat, 3902738701550914599nat, 18142443532027815211nat, 10195241481132011577nat, 6327693819248218595nat, 5335461734467870650nat, 4151167697894091986nat, 15160851737444301830nat, 14159222037642231088nat, 11409973256181452993nat, 17571864317656119780nat], 14) == seq![8602145903339900890nat, 12074354500468113451nat, 456037540431753347nat, 10708663565970611750nat, 16613125946315915366nat, 14184494517026046025nat, 18292196478824777101nat, 8435300654915313307nat, 16090498297285924606nat, 8263884442689159014nat, 9525290882308306323nat, 15157953040470241166nat],
{
    reveal(partial_round);
    let x = seq![14442441715176923455nat, 6466633799433891107nat, 3902738701550914599nat, 18142443532027815211nat, 10195241481132011577nat, 6327693819248218595nat, 5335461734467870650nat, 4151167697894091986nat, 15160851737444301830nat, 14159222037642231088nat, 11409973256181452993nat, 17571864317656119780nat];
    assert(INTERNAL_CONSTANTS[14] == 16499627707072547655u64);
    lemma_sbox_value(12495325352834886789, 12818736076981802682);
    assert(sbox((x[0] + (INTERNAL_CONSTANTS[14] as nat)) % modulus()) == 12818736076981802682nat);
    let u = x.update(0, 12818736076981802682nat);
    assert(u =~= seq![12818736076981802682nat, 6466633799433891107nat, 3902738701550914599nat, 18142443532027815211nat, 10195241481132011577nat, 6327693819248218595nat, 5335461734467870650nat, 4151167697894091986nat, 15160851737444301830nat, 14159222037642231088nat, 11409973256181452993nat, 17571864317656119780nat]);
    assert(internal_linear(u)[0] == 8602145903339900890);
    assert(internal_linear(u)[1] == 12074354500468113451);
    assert(internal_linear(u)[2] == 456037540431753347);
    assert(internal_linear(u)[3] == 10708663565970611750);
    assert(internal_linear(u)[4] == 16613125946315915366);
    assert(internal_linear(u)[5] == 14184494517026046025);
    assert(internal_linear(u)[6] == 18292196478824777101);
    assert(internal_linear(u)[7] == 8435300654915313307);
    assert(internal_linear(u)[8] == 16090498297285924606);
    assert(internal_linear(u)[9] == 8263884442689159014);
    assert(internal_linear(u)[10] == 9525290882308306323);
    assert(internal_linear(u)[11] == 15157953040470241166);
    assert(internal_linear(u) =~= seq![8602145903339900890nat, 12074354500468113451nat, 456037540431753347nat, 10708663565970611750nat, 16613125946315915366nat, 14184494517026046025nat, 18292196478824777101nat, 8435300654915313307nat, 16090498297285924606nat, 8263884442689159014nat, 9525290882308306323nat, 15157953040470241166nat]);
}

proof fn lemma_kat_step_20()
    ensures
        partial_round(seq![8602145903339900890nat, 12074354500468113451nat, 456037540431753347nat, 10708663565970611750nat, 16613125946315915366nat, 14184494517026046025nat, 18292196478824777101nat, 8435300654915313307nat, 16090498297285924606nat, 8263884442689159014nat, 9525290882308306323nat, 15157953040470241166nat], 15) == seq![9975286750758661186nat, 17677592500842004716nat, 11774872646302448433nat, 11095597055280310270nat, 7423290931799815068nat, 6838903121691520569nat, 11188118511343613379nat, 14935364515779614687nat, 12724244886931434522nat, 277997857947926862nat, 17098569886139771671nat, 141854867953530413nat],
{
    reveal(partial_round);
    let x = seq![8602145903339900890nat, 12074354500468113451nat, 456037540431753347nat, 10708663565970611750nat, 16613125946315915366nat, 14184494517026046025nat, 18292196478824777101nat, 8435300654915313307nat, 16090498297285924606nat, 8263884442689159014nat, 9525290882308306323nat, 15157953040470241166nat];
    assert(INTERNAL_CONSTANTS[15] == 10386478025625759321u64);
    lemma_sbox_value(541879859551075890, 10165886736169542567);
    assert(sbox((x[0] + (INTERNAL_CONSTANTS[15] as nat)) % modulus()) == 10165886736169542567nat);
    let u = x.update(0, 10165886736169542567nat);
    assert(u =~= seq![10165886736169542567nat, 12074354500468113451nat, 456037540431753347nat, 10708663565970611750nat, 16613125946315915366nat, 14184494517026046025nat, 18292196478824777101nat, 8435300654915313307nat, 16090498297285924606nat, 8263884442689159014nat, 9525290882308306323nat, 15157953040470241166nat]);
    assert(internal_linear(u)[0] == 9975286750758661186);
    assert(internal_linear(u)[1] == 17677592500842004716);
    assert(internal_linear(u)[2] == 11774872646302448433);
    assert(internal_linear(u)[3] == 11095597055280310270);
    assert(internal_linear(u)[4] == 7423290931799815068);
    assert(internal_linear(u)[5] == 6838903121691520569);
    assert(internal_linear(u)[6] == 11188118511343613379);
    assert(internal_linear(u)[7] == 14935364515779614687);
    assert(internal_linear(u)[8] == 12724244886931434522);
    assert(internal_linear(u)[9] == 277997857947926862);
    assert(internal_linear(u)[10] == 17098569886139771671);
    assert(internal_linear(u)[11] == 141854867953530413);
    assert(internal_linear(u) =~= seq![9975286750758661186nat, 17677592500842004716nat, 11774872646302448433nat, 11095597055280310270nat, 7423290931799815068nat, 6838903121691520569nat, 11188118511343613379nat, 14935364515779614687nat, 12724244886931434522nat, 277997857947926862nat, 17098569886139771671nat, 141854867953530413nat]);
}

proof fn lemma_kat_step_21()
    ensures
        partial_round(seq![9975286750758661186nat, 17677592500842004716nat, 11774872646302448433nat, 11095597055280310270nat, 7423290931799815068nat, 6838903121691520569nat, 11188118511343613379nat, 14935364515779614687nat, 12724244886931434522nat, 277997857947926862nat, 17098569886139771671nat, 141854867953530413nat], 16) == seq![6668283130238655799nat, 550336291919137520nat, 16626113767768875789nat, 18015843007935302930nat, 12566675992808476760nat, 7144017775026615662nat, 6044628693510232403nat, 10536277542425074356nat, 13297533384566937879nat, 7964143396419721924nat, 836354123724475389nat, 1315063394447706276nat],
{
    reveal(partial_round);
    let x = seq![9975286750758661186nat, 17677592500842004716nat, 11774872646302448433nat, 11095597055280310270nat, 7423290931799815068nat, 6838903121691520569nat, 11188118511343613379nat, 14935364515779614687nat, 12724244886931434522nat, 277997857947926862nat, 17098569886139771671nat, 141854867953530413nat];
    assert(INTERNAL_CONSTANTS[16] == 13475579315436919170u64);
    lemma_sbox_value(5004121996780996035, 66567325011821328);
    assert(sbox((x[0] + (INTERNAL_CONSTANTS[16] as nat)) % modulus()) == 66567325011821328nat);
    let u = x.update(0, 66567325011821328nat);
    assert(u =~= seq![66567325011821328nat, 17677592500842004716nat, 11774872646302448433nat, 11095597055280310270nat, 7423290931799815068nat, 6838903121691520569nat, 11188118511343613379nat, 14935364515779614687nat, 12724244886931434522nat, 277997857947926862nat, 17098569886139771671nat, 141854867953530413nat]);
    assert(internal_linear(u)[0] == 6668283130238655799);
    assert(internal_linear(u)[1] == 550336291919137520);
    assert(internal_linear(u)[2] == 16626113767768875789);
    assert(internal_linear(u)[3] == 18015843007935302930);
    assert(internal_linear(u)[4] == 12566675992808476760);
    assert(internal_linear(u)[5] == 7144017775026615662);
    assert(internal_linear(u)[6] == 6044628693510232403);
    assert(internal_linear(u)[7] == 10536277542425074356);
    assert(internal_linear(u)[8] == 13297533384566937879);
    assert(internal_linear(u)[9] == 7964143396419721924);
    assert(internal_linear(u)[10] == 836354123724475389);
    assert(internal_linear(u)[11] == 1315063394447706276);
    assert(internal_linear(u) =~= seq![6668283130238655799nat, 550336291919137520nat, 16626113767768875789nat, 18015843007935302930nat, 12566675992808476760nat, 7144017775026615662nat, 6044628693510232403nat, 10536277542425074356nat, 13297533384566937879nat, 7964143396419721924nat, 836354123724475389nat, 1315063394447706276nat]);
}

proof fn lemma_kat_step_22()
    ensures
        partial_round(seq![6668283130238655799nat, 550336291919137520nat, 16626113767768875789nat, 18015843007935302930nat, 12566675992808476760nat, 7144017775026615662nat, 6044628693510232403nat, 10536277542425074356nat, 13297533384566937879nat, 7964143396419721924nat, 836354123724475389nat, 1315063394447706276nat], 17) == seq![14067608937750661161nat, 2881160343876871467nat, 15269558359433156135nat, 10922300138634619189nat, 5020409217514063888nat, 1989058744162150786nat, 13807310470551438976nat, 15696960965699189080nat, 1082323514151473556nat, 7409557319787025904nat, 16709346242500375384nat, 11663863123692410728nat],
{
    reveal(partial_round);
    let x = seq![6668283130238655799nat, 550336291919137520nat, 16626113767768875789nat, 18015843007935302930nat, 12566675992808476760nat, 7144017775026615662nat, 6044628693510232403nat, 10536277542425074356nat, 13297533384566937879nat, 7964143396419721924nat, 836354123724475389nat, 1315063394447706276nat];
    assert(INTERNAL_CONSTANTS[17] == 16042710511297532028u64);
    lemma_sbox_value(4264249572121603506, 8439634303220276818);
    assert(sbox((x[0] + (INTERNAL_CONSTANTS[17] as nat)) % modulus()) == 8439634303220276818nat);
    let u = x.update(0, 8439634303220276818nat);
    assert(u =~= seq![8439634303220276818nat, 550336291919137520nat, 16626113767768875789nat, 18015843007935302930nat, 12566675992808476760nat, 7144017775026615662nat, 6044628693510232403nat, 10536277542425074356nat, 13297533384566937879nat, 7964143396419721924nat, 836354123724475389nat, 1315063394447706276nat]);
    assert(internal_linear(u)[0] == 14067608937750661161);
    assert(internal_linear(u)[1] == 2881160343876871467);
    assert(internal_linear(u)[2] == 15269558359433156135);
    assert(internal_linear(u)[3] == 10922300138634619189);
    assert(internal_linear(u)[4] == 5020409217514063888);
    assert(internal_linear(u)[5] == 1989058744162150786);
    assert(internal_linear(u)[6] == 13807310470551438976);
    assert(internal_linear(u)[7] == 15696960965699189080);
    assert(internal_linear(u)[8] == 1082323514151473556);
    assert(internal_linear(u)[9] == 7409557319787025904);
    assert(internal_linear(u)[10] == 16709346242500375384);
    assert(internal_linear(u)[11] == 11663863123692410728);
    assert(internal_linear(u) =~= seq![14067608937750661161nat, 2881160343876871467nat, 15269558359433156135nat, 10922300138634619189nat, 5020409217514063888nat, 1989058744162150786nat, 13807310470551438976nat, 15696960965699189080nat, 1082323514151473556nat, 7409557319787025904nat, 16709346242500375384nat, 11663863123692410728nat]);
}

proof fn lemma_kat_step_23()
    ensures
        partial_round(seq![14067608937750661161nat, 2881160343876871467nat, 15269558359433156135nat, 10922300138634619189nat, 5020409217514063888nat, 1989058744162150786nat, 13807310470551438976nat, 15696960965699189080nat, 1082323514151473556nat, 7409557319787025904nat, 16709346242500375384nat, 11663863123692410728nat], 18) == seq![13922892677125928161nat, 4328409300947688373nat, 14771695683665353809nat, 3601975558723491153nat, 3596543477029510912nat, 1512154707609849399nat, 9487529806139671191nat, 2966638800262306801nat, 8436570574642836933nat, 11503069050282516417nat, 16188453149900511850nat, 11577836365868716257nat],
{
    reveal(partial_round);
    let x = seq![14067608937750661161nat, 2881160343876871467nat, 15269558359433156135nat, 10922300138634619189nat, 5020409217514063888nat, 1989058744162150786nat, 13807310470551438976nat, 15696960965699189080nat, 1082323514151473556nat, 7409557319787025904nat, 16709346242500375384nat, 11663863123692410728nat];
    assert(INTERNAL_CONSTANTS[18] == 1411266850385657080u64);
    lemma_sbox_value(15478875788136318241, 4379742468619520399);
    assert(sbox((x[0] + (INTERNAL_CONSTANTS[18] as nat)) % modulus()) == 4379742468619520399nat);
    let u = x.update(0, 4379742468619520399nat);
    assert(u =~= seq![4379742468619520399nat, 2881160343876871467nat, 15269558359433156135nat, 10922300138634619189nat, 5020409217514063888nat, 1989058744162150786nat, 13807310470551438976nat, 15696960965699189080nat, 1082323514151473556nat, 7409557319787025904nat, 16709346242500375384nat, 11663863123692410728nat]);
    assert(internal_linear(u)[0] == 13922892677125928161);
    assert(internal_linear(u)[1] == 4328409300947688373);
    assert(internal_linear(u)[2] == 14771695683665353809);
    assert(internal_linear(u)[3] == 3601975558723491153);
    assert(internal_linear(u)[4] == 3596543477029510912);
    assert(internal_linear(u)[5] == 1512154707609849399);
    assert(internal_linear(u)[6] == 9487529806139671191);
    assert(internal_linear(u)[7] == 2966638800262306801);
    assert(internal_linear(u)[8] == 8436570574642836933);
    assert(internal_linear(u)[9] == 11503069050282516417);
    assert(internal_linear(u)[10] == 16188453149900511850);
    assert(internal_linear(u)[11] == 11577836365868716257);
    assert(internal_linear(u) =~= seq![13922892677125928161nat, 4328409300947688373nat, 14771695683665353809nat, 3601975558723491153nat, 3596543477029510912nat, 1512154707609849399nat, 9487529806139671191nat, 2966638800262306801nat, 8436570574642836933nat, 11503069050282516417nat, 16188453149900511850nat, 11577836365868716257nat]);
}

proof fn lemma_kat_step_24()
    ensures
        partial_round(seq![13922892677125928161nat, 4328409300947688373nat, 14771695683665353809nat, 3601975558723491153nat, 3596543477029510912nat, 1512154707609849399nat, 9487529806139671191nat, 2966638800262306801nat, 8436570574642836933nat, 11503069050282516417nat, 16188453149900511850nat, 11577836365868716257nat], 19) == seq![18436476568901780394nat, 13446870560164291555nat, 5522289182975476838nat, 13835162171708767509nat, 1727600345480121087nat, 3197873804139699743nat, 17010986558521782230nat, 5022006919937372349nat, 6842003666789871213nat, 6259741099680676994nat, 16169101667042102518nat, 10115614112467758881nat],
{
    reveal(partial_round);
    let x = seq![13922892677125928161nat, 4328409300947688373nat, 14771695683665353809nat, 3601975558723491153nat, 3596543477029510912nat, 1512154707609849399nat, 9487529806139671191nat, 2966638800262306801nat, 8436570574642836933nat, 11503069050282516417nat, 16188453149900511850nat, 11577836365868716257nat];
    assert(INTERNAL_CONSTANTS[19] == 9024840976168649958u64);
    lemma_sbox_value(4500989583879993798, 18065573176698476541);
    assert(sbox((x[0] + (INTERNAL_CONSTANTS[19] as nat)) % modulus()) == 18065573176698476541nat);
    let u = x.update(0, 18065573176698476541nat);
    assert(u =~= seq![18065573176698476541nat, 4328409300947688373nat, 14771695683665353809nat, 3601975558723491153nat, 3596543477029510912nat, 1512154707609849399nat, 9487529806139671191nat, 2966638800262306801nat, 8436570574642836933nat, 11503069050282516417nat, 16188453149900511850nat, 11577836365868716257nat]);
    assert(internal_linear(u)[0] == 18436476568901780394);
    assert(internal_linear(u)[1] == 13446870560164291555);
    assert(internal_linear(u)[2] == 5522289182975476838);
    assert(internal_linear(u)[3] == 13835162171708767509);
    assert(internal_linear(u)[4] == 1727600345480121087);
    assert(internal_linear(u)[5] == 3197873804139699743);
    assert(internal_linear(u)[6] == 17010986558521782230);
    assert(internal_linear(u)[7] == 5022006919937372349);
    assert(internal_linear(u)[8] == 6842003666789871213);
    assert(internal_linear(u)[9] == 6259741099680676994);
    assert(internal_linear(u)[10] == 16169101667042102518);
    assert(internal_linear(u)[11] == 10115614112467758881);
    assert(internal_linear(u) =~= seq![18436476568901780394nat, 13446870560164291555nat, 5522289182975476838nat, 13835162171708767509nat, 1727600345480121087nat, 3197873804139699743nat, 17010986558521782230nat, 5022006919937372349nat, 6842003666789871213nat, 6259741099680676994nat, 16169101667042102518nat, 10115614112467758881nat]);
}

proof fn lemma_kat_step_25()
    ensures
        partial_round(seq![18436476568901780394nat, 13446870560164291555nat, 5522289182975476838nat, 13835162171708767509nat, 1727600345480121087nat, 3197873804139699743nat, 17010986558521782230nat, 5022006919937372349nat, 6842003666789871213nat, 6259741099680676994nat, 16169101667042102518nat, 10115614112467758881nat], 20) == seq![3042732343267603049nat, 11974113949816991530nat, 3686172248855307957nat, 6695987061153218138nat, 3000960252566030999nat, 8521032038350085785nat, 6585540758659367066nat, 10193713570455009793nat, 4874707841804792564nat, 1496780344410322802nat, 7606738435735621204nat, 1374739061996636276nat],
{
    reveal(partial_round);
    let x = seq![18436476568901780394nat, 13446870560164291555nat, 5522289182975476838nat, 13835162171708767509nat, 1727600345480121087nat, 3197873804139699743nat, 17010986558521782230nat, 5022006919937372349nat, 6842003666789871213nat, 6259741099680676994nat, 16169101667042102518nat, 10115614112467758881nat];
    assert(INTERNAL_CONSTANTS[20] == 14047056970978379368u64);
    lemma_sbox_value(14036789470465575441, 14386321016118658986);
    assert(sbox((x[0] + (INTERNAL_CONSTANTS[20] as nat)) % modulus()) == 14386321016118658986nat);
    let u = x.update(0, 14386321016118658986nat);
    assert(u =~= seq![14386321016118658986nat, 13446870560164291555nat, 5522289182975476838nat, 13835162171708767509nat, 1727600345480121087nat, 3197873804139699743nat, 17010986558521782230nat, 5022006919937372349nat, 6842003666789871213nat, 6259741099680676994nat, 16169101667042102518nat, 10115614112467758881nat]);
    assert(internal_linear(u)[0] == 3042732343267603049);
    assert(internal_linear(u)[1] == 11974113949816991530);
    assert(internal_linear(u)[2] == 3686172248855307957);
    assert(internal_linear(u)[3] == 6695987061153218138);
    assert(internal_linear(u)[4] == 3000960252566030999);
    assert(internal_linear(u)[5] == 8521032038350085785);
    assert(internal_linear(u)[6] == 6585540758659367066);
    assert(internal_linear(u)[7] == 10193713570455009793);
    assert(internal_linear(u)[8] == 4874707841804792564);
    assert(internal_linear(u)[9] == 1496780344410322802);
    assert(internal_linear(u)[10] == 7606738435735621204);
    assert(internal_linear(u)[11] == 1374739061996636276);
    assert(internal_linear(u) =~= seq![3042732343267603049nat, 11974113949816991530nat, 3686172248855307957nat, 6695987061153218138nat, 3000960252566030999nat, 8521032038350085785nat, 6585540758659367066nat, 10193713570455009793nat, 4874707841804792564nat, 1496780344410322802nat, 7606738435735621204nat, 1374739061996636276nat]);
}

proof fn lemma_kat_step_26()
    ensures
        partial_round(seq![3042732343267603049nat, 11974113949816991530nat, 3686172248855307957nat, 6695987061153218138nat, 3000960252566030999nat, 8521032038350085785nat, 6585540758659367066nat, 10193713570455009793nat, 4874707841804792564nat, 1496780344410322802nat, 7606738435735621204nat, 1374739061996636276nat], 21) == seq![7795353057187977054nat, 693758173540099973nat, 2038510881297024355nat, 2173035070576377531nat, 5547361471543245503nat, 3569517863367500618nat, 12249577647420609935nat, 3087759916907627364nat, 17387584496353080947nat, 1845388735196068819nat, 9208894662234219056nat, 15521123422356425748nat],
{
    reveal(partial_round);
    let x = seq![3042732343267603049nat, 11974113949816991530nat, 3686172248855307957nat, 6695987061153218138nat, 3000960252566030999nat, 8521032038350085785nat, 6585540758659367066nat, 10193713570455009793nat, 4874707841804792564nat, 1496780344410322802nat, 7606738435735621204nat, 1374739061996636276nat];
    assert(INTERNAL_CONSTANTS[21] == 838728605080212101u64);
    lemma_sbox_value(3881460948347815150, 1410201371397276412);
    assert(sbox((x[0] + (INTERNAL_CONSTANTS[21] as nat)) % modulus()) == 1410201371397276412nat);
    let u = x.update(0, 1410201371397276412nat);
    assert(u =~= seq![1410201371397276412nat, 11974113949816991530nat, 3686172248855307957nat, 6695987061153218138nat, 3000960252566030999nat, 8521032038350085785nat, 6585540758659367066nat, 10193713570455009793nat, 4874707841804792564nat, 1496780344410322802nat, 7606738435735621204nat, 1374739061996636276nat]);
    assert(internal_linear(u)[0] == 7795353057187977054);
    assert(internal_linear(u)[1] == 693758173540099973);
    assert(internal_linear(u)[2] == 2038510881297024355);
    assert(internal_linear(u)[3] == 2173035070576377531);
    assert(internal_linear(u)[4] == 5547361471543245503);
    assert(internal_linear(u)[5] == 3569517863367500618);
    assert(internal_linear(u)[6] == 12249577647420609935);
    assert(internal_linear(u)[7] == 3087759916907627364);
    assert(internal_linear(u)[8] == 17387584496353080947);
    assert(internal_linear(u)[9] == 1845388735196068819);
    assert(internal_linear(u)[10] == 9208894662234219056);
    assert(internal_linear(u)[11] == 15521123422356425748);
    assert(internal_linear(u) =~= seq![7795353057187977054nat, 693758173540099973nat, 2038510881297024355nat, 2173035070576377531nat, 5547361471543245503nat, 3569517863367500618nat, 12249577647420609935nat, 3087759916907627364nat, 17387584496353080947nat, 1845388735196068819nat, 9208894662234219056nat, 15521123422356425748nat]);
}

proof fn lemma_kat_step_27()
    ensures
        full_round(seq![7795353057187977054nat, 693758173540099973nat, 2038510881297024355nat, 2173035070576377531nat, 5547361471543245503nat, 3569517863367500618nat, 12249577647420609935nat, 3087759916907627364nat, 17387584496353080947nat, 1845388735196068819nat, 9208894662234219056nat, 15521123422356425748nat], 4) == seq![6306321267190786274nat, 5917457285201055719nat, 14977752418693817501nat, 4497375102894371983nat, 421984901034302929nat, 1996521791727748228nat, 17481246986217279541nat, 4258925362631735491nat, 4926526098572509279nat, 10808941845230820197nat, 17334409611516300531nat, 13652240003312180870nat],
{
    reveal(full_round);
    let x = seq![7795353057187977054nat, 693758173540099973nat, 2038510881297024355nat, 2173035070576377531nat, 5547361471543245503nat, 3569517863367500618nat, 12249577647420609935nat, 3087759916907627364nat, 17387584496353080947nat, 1845388735196068819nat, 9208894662234219056nat, 15521123422356425748nat];
    let t = Seq::new(12, |i: int| sbox((x[i] + (EXTERNAL_CONSTANTS[4][i] as nat)) % modulus()));
    assert(EXTERNAL_CONSTANTS[4][0] == 13571697342473846203u64);
    lemma_sbox_value(2920306330247238936, 14857033099354531758);
    assert(t[0] == 14857033099354531758nat);
    assert(EXTERNAL_CONSTANTS[4][1] == 17477857865056504753u64);
    lemma_sbox_value(18171616038596604726, 94079616589496818);
    assert(t[1] == 94079616589496818nat);
    assert(EXTERNAL_CONSTANTS[4][2] == 15963032953523553760u64);
    lemma_sbox_value(18001543834820578115, 11009299302410541883);
    assert(t[2] == 11009299302410541883nat);
    assert(EXTERNAL_CONSTANTS[4][3] == 16033593225279635898u64);
    lemma_sbox_value(18206628295856013429, 8503869023139751603);
    assert(t[3] == 8503869023139751603nat);
    assert(EXTERNAL_CONSTANTS[4][4] == 14252634232868282405u64);
    lemma_sbox_value(1353251634996943587, 15344917136377739665);
    assert(t[4] == 15344917136377739665nat);
    assert(EXTERNAL_CONSTANTS[4][5] == 8219748254835277737u64);
    lemma_sbox_value(11789266118202778355, 2717055365715887090);
    assert(t[5] == 2717055365715887090nat);
    assert(EXTERNAL_CONSTANTS[4][6] == 7459165569491914711u64);
    lemma_sbox_value(1261999147497940325, 4323057597119636739);
    assert(t[6] == 4323057597119636739nat);
    assert(EXTERNAL_CONSTANTS[4][7] == 15855939513193752003u64);
    lemma_sbox_value(496955360686795046, 461079040848586772);
    assert(t[7] == 461079040848586772nat);
    assert(EXTERNAL_CONSTANTS[4][8] == 16788866461340278896u64);
    lemma_sbox_value(15729706888278775522, 12288331260446767272);
    assert(t[8] == 12288331260446767272nat);
    assert(EXTERNAL_CONSTANTS[4][9] == 7102224659693946577u64);
    lemma_sbox_value(8947613394890015396, 11474067604597060527);
    assert(t[9] == 11474067604597060527nat);
    assert(EXTERNAL_CONSTANTS[4][10] == 3024718005636976471u64);
    lemma_sbox_value(12233612667871195527, 103838171869877910);
    assert(t[10] == 103838171869877910nat);
    assert(EXTERNAL_CONSTANTS[4][11] == 13695468978618890430u64);
    lemma_sbox_value(10769848331560731857, 7473718768269560747);
    assert(t[11] == 7473718768269560747nat);
    assert(t =~= seq![14857033099354531758nat, 94079616589496818nat, 11009299302410541883nat, 8503869023139751603nat, 15344917136377739665nat, 2717055365715887090nat, 4323057597119636739nat, 461079040848586772nat, 12288331260446767272nat, 11474067604597060527nat, 103838171869877910nat, 7473718768269560747nat]);
    assert(external_linear(t)[0] == 6306321267190786274);
    assert(external_linear(t)[1] == 5917457285201055719);
    assert(external_linear(t)[2] == 14977752418693817501);
    assert(external_linear(t)[3] == 4497375102894371983);
    assert(external_linear(t)[4] == 421984901034302929);
    assert(external_linear(t)[5] == 1996521791727748228);
    assert(external_linear(t)[6] == 17481246986217279541);
    assert(external_linear(t)[7] == 4258925362631735491);
    assert(external_linear(t)[8] == 4926526098572509279);
    assert(external_linear(t)[9] == 10808941845230820197);
    assert(external_linear(t)[10] == 17334409611516300531);
    assert(external_linear(t)[11] == 13652240003312180870);
    assert(external_linear(t) =~= seq![6306321267190786274nat, 5917457285201055719nat, 14977752418693817501nat, 4497375102894371983nat, 421984901034302929nat, 1996521791727748228nat, 17481246986217279541nat, 4258925362631735491nat, 4926526098572509279nat, 10808941845230820197nat, 17334409611516300531nat, 13652240003312180870nat]);
}

proof fn lemma_kat_step_28()
    ensures
        full_round(seq![6306321267190786274nat, 5917457285201055719nat, 14977752418693817501nat, 4497375102894371983nat, 421984901034302929nat, 1996521791727748228nat, 17481246986217279541nat, 4258925362631735491nat, 4926526098572509279nat, 10808941845230820197nat, 17334409611516300531nat, 13652240003312180870nat], 5) == seq![6865639322903789495nat, 14983014734812612625nat, 14035006036206337527nat, 9797545525279701426nat, 5445140828201279833nat, 17277503652586798762nat, 8649574209891361528nat, 17687975730586515520nat, 11276931685272332331nat, 10597459589686871792nat, 1853175861985349639nat, 5178402797914216335nat],
{
    reveal(full_round);
    let x = seq![6306321267190786274nat, 5917457285201055719nat, 14977752418693817501nat, 4497375102894371983nat, 421984901034302929nat, 1996521791727748228nat, 17481246986217279541nat, 4258925362631735491nat, 4926526098572509279nat, 10808941845230820197nat, 17334409611516300531nat, 13652240003312180870nat];
    let t = Seq::new(12, |i: int| sbox((x[i] + (EXTERNAL_CONSTANTS[5][i] as nat)) % modulus()));
    assert(EXTERNAL_CONSTANTS[5][0] == 8214202050877825436u64);
    lemma_sbox_value(14520523318068611710, 4362150275145501446);
    assert(t[0] == 4362150275145501446nat);
    assert(EXTERNAL_CONSTANTS[5][1] == 2670727992739346204u64);
    lemma_sbox_value(8588185277940401923, 7789322646470970617);
    assert(t[1] == 7789322646470970617nat);
    assert(EXTERNAL_CONSTANTS[5][2] == 16259532062589659211u64);
    lemma_sbox_value(12790540411868892391, 16949012933881329567);
    assert(t[2] == 16949012933881329567nat);
    assert(EXTERNAL_CONSTANTS[5][3] == 11869922396257088411u64);
    lemma_sbox_value(16367297499151460394, 2655976131114301653);
    assert(t[3] == 2655976131114301653nat);
    assert(EXTERNAL_CONSTANTS[5][4] == 3179482916972760137u64);
    lemma_sbox_value(3601467818007063066, 17624920026105997250);
    assert(t[4] == 17624920026105997250nat);
    assert(EXTERNAL_CONSTANTS[5][5] == 13525476046633427808u64);
    lemma_sbox_value(15521997838361176036, 206332180634931129);
    assert(t[5] == 206332180634931129nat);
    assert(EXTERNAL_CONSTANTS[5][6] == 3217337278042947412u64);
    lemma_sbox_value(2251840194845642632, 12423024247974613464);
    assert(t[6] == 12423024247974613464nat);
    assert(EXTERNAL_CONSTANTS[5][7] == 14494689598654046340u64);
    lemma_sbox_value(306870891871197510, 1984898217905634950);
    assert(t[7] == 1984898217905634950nat);
    assert(EXTERNAL_CONSTANTS[5][8] == 15837379330312175383u64);
    lemma_sbox_value(2317161359470100341, 3485939945377572115);
    assert(t[8] == 3485939945377572115nat);
    assert(EXTERNAL_CONSTANTS[5][9] == 8029037639801151344u64);
    lemma_sbox_value(391235415617387220, 12948929689236224936);
    assert(t[9] == 12948929689236224936nat);
    assert(EXTERNAL_CONSTANTS[5][10] == 2153456285263517937u64);
    lemma_sbox_value(1041121827365234147, 5468915501925558066);
    assert(t[10] == 5468915501925558066nat);
    assert(EXTERNAL_CONSTANTS[5][11] == 8301106462311849241u64);
    lemma_sbox_value(3506602396209445790, 4820965456678711695);
    assert(t[11] == 4820965456678711695nat);
    assert(t =~= seq![4362150275145501446nat, 7789322646470970617nat, 16949012933881329567nat, 2655976131114301653nat, 17624920026105997250nat, 206332180634931129nat, 12423024247974613464nat, 1984898217905634950nat, 3485939945377572115nat, 12948929689236224936nat, 5468915501925558066nat, 4820965456678711695nat]);
    assert(external_linear(t)[0] == 6865639322903789495);
    assert(external_linear(t)[1] == 14983014734812612625);
    assert(external_linear(t)[2] == 14035006036206337527);
    assert(external_linear(t)[3] == 9797545525279701426);
    assert(external_linear(t)[4] == 5445140828201279833);
    assert(external_linear(t)[5] == 17277503652586798762);
    assert(external_linear(t)[6] == 8649574209891361528);
    assert(external_linear(t)[7] == 17687975730586515520);
    assert(external_linear(t)[8] == 11276931685272332331);
    assert(external_linear(t)[9] == 10597459589686871792);
    assert(external_linear(t)[10] == 1853175861985349639);
    assert(external_linear(t)[11] == 5178402797914216335);
    assert(external_linear(t) =~= seq![6865639322903789495nat, 14983014734812612625nat, 14035006036206337527nat, 9797545525279701426nat, 5445140828201279833nat, 17277503652586798762nat, 8649574209891361528nat, 17687975730586515520nat, 11276931685272332331nat, 10597459589686871792nat, 1853175861985349639nat, 5178402797914216335nat]);
}

proof fn lemma_kat_step_29()
    ensures
        full_round(seq![6865639322903789495nat, 14983014734812612625nat, 14035006036206337527nat, 9797545525279701426nat, 5445140828201279833nat, 17277503652586798762nat, 8649574209891361528nat, 17687975730586515520nat, 11276931685272332331nat, 10597459589686871792nat, 1853175861985349639nat, 5178402797914216335nat], 6) == seq![18368861774065671312nat, 7319881880390162138nat, 15622865624878407916nat, 2016690142255265288nat, 15567788351530672466nat, 8267255035099318147nat, 12544765268544781554nat, 10665056450246941368nat, 4835123852668120043nat, 3907211760409987645nat, 5920319362113099906nat, 36682677317014568nat],
{
    reveal(full_round);
    let x = seq![6865639322903789495nat, 14983014734812612625nat, 14035006036206337527nat, 9797545525279701426nat, 5445140828201279833nat, 17277503652586798762nat, 8649574209891361528nat, 17687975730586515520nat, 11276931685272332331nat, 10597459589686871792nat, 1853175861985349639nat, 5178402797914216335nat];
    let t = Seq::new(12, |i: int| sbox((x[i] + (EXTERNAL_CONSTANTS[6][i] as nat)) % modulus()));
    assert(EXTERNAL_CONSTANTS[6][0] == 13294194396455217955u64);
    lemma_sbox_value(1713089649944423129, 3536771580114705165);
    assert(t[0] == 3536771580114705165nat);
    assert(EXTERNAL_CONSTANTS[6][1] == 17394768489610594315u64);
    lemma_sbox_value(13931039155008622619, 9256736959676557943);
    assert(t[1] == 9256736959676557943nat);
    assert(EXTERNAL_CONSTANTS[6][2] == 12847609130464867455u64);
    lemma_sbox_value(8435871097256620661, 14811157529237616654);
    assert(t[2] == 14811157529237616654nat);
    assert(EXTERNAL_CONSTANTS[6][3] == 14015739446356528640u64);
    lemma_sbox_value(5366540902221645745, 526180867185669266);
    assert(t[3] == 526180867185669266nat);
    assert(EXTERNAL_CONSTANTS[6][4] == 5879251655839607853u64);
    lemma_sbox_value(11324392484040887686, 15430733669908158268);
    assert(t[4] == 15430733669908158268nat);
    assert(EXTERNAL_CONSTANTS[6][5] == 9747000124977436185u64);
    lemma_sbox_value(8577759708149650626, 14819995989963305992);
    assert(t[5] == 14819995989963305992nat);
    assert(EXTERNAL_CONSTANTS[6][6] == 8950393546890284269u64);
    lemma_sbox_value(17599967756781645797, 16190619343192502497);
    assert(t[6] == 16190619343192502497nat);
    assert(EXTERNAL_CONSTANTS[6][7] == 10765765936405694368u64);
    lemma_sbox_value(10006997597577625567, 11208176568492387187);
    assert(t[7] == 11208176568492387187nat);
    assert(EXTERNAL_CONSTANTS[6][8] == 14695323910334139959u64);
    lemma_sbox_value(7525511526191887969, 3189274860863725657);
    assert(t[8] == 3189274860863725657nat);
    assert(EXTERNAL_CONSTANTS[6][9] == 16366254691123000864u64);
    lemma_sbox_value(8516970211395288335, 13931914233959227401);
    assert(t[9] == 13931914233959227401nat);
    assert(EXTERNAL_CONSTANTS[6][10] == 15292774414889043182u64);
    lemma_sbox_value(17145950276874392821, 3588787638047565696);
    assert(t[10] == 3588787638047565696nat);
    assert(EXTERNAL_CONSTANTS[6][11] == 10910394433429313384u64);
    lemma_sbox_value(16088797231343529719, 3331018522046703918);
    assert(t[11] == 3331018522046703918nat);
    assert(t =~= seq![3536771580114705165nat, 9256736959676557943nat, 14811157529237616654nat, 526180867185669266nat, 15430733669908158268nat, 14819995989963305992nat, 16190619343192502497nat, 11208176568492387187nat, 3189274860863725657nat, 13931914233959227401nat, 3588787638047565696nat, 3331018522046703918nat]);
    assert(external_linear(t)[0] == 18368861774065671312);
    assert(external_linear(t)[1] == 7319881880390162138);
    assert(external_linear(t)[2] == 15622865624878407916);
    assert(external_linear(t)[3] == 2016690142255265288);
    assert(external_linear(t)[4] == 15567788351530672466);
    assert(external_linear(t)[5] == 8267255035099318147);
    assert(external_linear(t)[6] == 12544765268544781554);
    assert(external_linear(t)[7] == 10665056450246941368);
    assert(external_linear(t)[8] == 4835123852668120043);
    assert(external_linear(t)[9] == 3907211760409987645);
    assert(external_linear(t)[10] == 5920319362113099906);
    assert(external_linear(t)[11] == 36682677317014568);
    assert(external_linear(t) =~= seq![18368861774065671312nat, 7319881880390162138nat, 15622865624878407916nat, 2016690142255265288nat, 15567788351530672466nat, 8267255035099318147nat, 12544765268544781554nat, 10665056450246941368nat, 4835123852668120043nat, 3907211760409987645nat, 5920319362113099906nat, 36682677317014568nat]);
}

proof fn lemma_kat_step_30()
    ensures
        full_round(seq![18368861774065671312nat, 7319881880390162138nat, 15622865624878407916nat, 2016690142255265288nat, 15567788351530672466nat, 8267255035099318147nat, 12544765268544781554nat, 10665056450246941368nat, 4835123852668120043nat, 3907211760409987645nat, 5920319362113099906nat, 36682677317014568nat], 7) == seq![6725827164060921599nat, 10075478728545485349nat, 8894428833137193595nat, 15003370686510731028nat, 847641297863906789nat, 9913874546466117050nat, 8117199823165767756nat, 17712205085306277640nat, 5480205044171562875nat, 784312555677654277nat, 11917136130137128922nat, 9904214497419462176nat],
{
    reveal(full_round);
    let x = seq![18368861774065671312nat, 7319881880390162138nat, 15622865624878407916nat, 2016690142255265288nat, 15567788351530672466nat, 8267255035099318147nat, 12544765268544781554nat, 10665056450246941368nat, 4835123852668120043nat, 3907211760409987645nat, 5920319362113099906nat, 36682677317014568nat];
    let t = Seq::new(12, |i: int| sbox((x[i] + (EXTERNAL_CONSTANTS[7][i] as nat)) % modulus()));
    assert(EXTERNAL_CONSTANTS[7][0] == 17253424460214596184u64);
    lemma_sbox_value(17175542164865683175, 690095101875006884);
    assert(t[0] == 690095101875006884nat);
    assert(EXTERNAL_CONSTANTS[7][1] == 3442854447664030446u64);
    lemma_sbox_value(10762736328054192584, 16501691345415899780);
    assert(t[1] == 16501691345415899780nat);
    assert(EXTERNAL_CONSTANTS[7][2] == 3005570425335613727u64);
    lemma_sbox_value(181691980799437322, 2388190939283157910);
    assert(t[2] == 2388190939283157910nat);
    assert(EXTERNAL_CONSTANTS[7][3] == 10859158614900201063u64);
    lemma_sbox_value(12875848757155466351, 917499799146059648);
    assert(t[3] == 917499799146059648nat);
    assert(EXTERNAL_CONSTANTS[7][4] == 9763230642109343539u64);
    lemma_sbox_value(6884274924225431684, 12921974305493207829);
    assert(t[4] == 12921974305493207829nat);
    assert(EXTERNAL_CONSTANTS[7][5] == 6647722546511515039u64);
    lemma_sbox_value(14914977581610833186, 11692974301058007281);
    assert(t[5] == 11692974301058007281nat);
    assert(EXTERNAL_CONSTANTS[7][6] == 909012944955815706u64);
    lemma_sbox_value(13453778213500597260, 18181434895679427549);
    assert(t[6] == 18181434895679427549nat);
    assert(EXTERNAL_CONSTANTS[7][7] == 18101204076790399111u64);
    lemma_sbox_value(10319516457622756158, 6101950841219219448);
    assert(t[7] == 6101950841219219448nat);
    assert(EXTERNAL_CONSTANTS[7][8] == 11588128829349125809u64);
    lemma_sbox_value(16423252682017245852, 7677385957220988408);
    assert(t[8] == 7677385957220988408nat);
    assert(EXTERNAL_CONSTANTS[7][9] == 15863878496612806566u64);
    lemma_sbox_value(1324346187608209890, 4062808336294403447);
    assert(t[9] == 4062808336294403447nat);
    assert(EXTERNAL_CONSTANTS[7][10] == 5201119062417750399u64);
    lemma_sbox_value(11121438424530850305, 4862994870613456492);
    assert(t[10] == 4862994870613456492nat);
    assert(EXTERNAL_CONSTANTS[7][11] == 176665553780565743u64);
    lemma_sbox_value(213348231097580311, 2092396995184343972);
    assert(t[11] == 2092396995184343972nat);
    assert(t =~= seq![690095101875006884nat, 16501691345415899780nat, 2388190939283157910nat, 917499799146059648nat, 12921974305493207829nat, 11692974301058007281nat, 18181434895679427549nat, 6101950841219219448nat, 7677385957220988408nat, 4062808336294403447nat, 4862994870613456492nat, 2092396995184343972nat]);
    assert(external_linear(t)[0] == 6725827164060921599);
    assert(external_linear(t)[1] == 10075478728545485349);
    assert(external_linear(t)[2] == 8894428833137193595);
    assert(external_linear(t)[3] == 15003370686510731028);
    assert(external_linear(t)[4] == 847641297863906789);
    assert(external_linear(t)[5] == 9913874546466117050);
    assert(external_linear(t)[6] == 8117199823165767756);
    assert(external_linear(t)[7] == 17712205085306277640);
    assert(external_linear(t)[8] == 5480205044171562875);
    assert(external_linear(t)[9] == 784312555677654277);
    assert(external_linear(t)[10] == 11917136130137128922);
    assert(external_linear(t)[11] == 9904214497419462176);
    assert(external_linear(t) =~= seq![6725827164060921599nat, 10075478728545485349nat, 8894428833137193595nat, 15003370686510731028nat, 847641297863906789nat, 9913874546466117050nat, 8117199823165767756nat, 17712205085306277640nat, 5480205044171562875nat, 784312555677654277nat, 11917136130137128922nat, 9904214497419462176nat]);
}

/// Known answer of the permutation, computed from the reference description
/// (external layer, 4 full rounds, 22 partial rounds, 4 full rounds): the
/// state [0, 1, ..., 7, 0, 0, 0, 0] is sent to the twelve values below.
pub proof fn lemma_permutation_known_answer()
    ensures
        permutation(absorbed_counting_state()) == seq![6725827164060921599nat, 10075478728545485349nat, 8894428833137193595nat, 15003370686510731028nat, 847641297863906789nat, 9913874546466117050nat, 8117199823165767756nat, 17712205085306277640nat, 5480205044171562875nat, 784312555677654277nat, 11917136130137128922nat, 9904214497419462176nat],
{
    reveal(permutation);
    reveal_with_fuel(full_rounds, 5);
    reveal_with_fuel(partial_rounds, 23);
    lemma_kat_step_0();
    lemma_kat_step_1();
    lemma_kat_step_2();
    lemma_kat_step_3();
    lemma_kat_step_4();
    lemma_kat_step_5();
    lemma_kat_step_6();
    lemma_kat_step_7();
    lemma_kat_step_8();
    lemma_kat_step_9();
    lemma_kat_step_10();
    lemma_kat_step_11();
    lemma_kat_step_12();
    lemma_kat_step_13();
    lemma_kat_step_14();
    lemma_kat_step_15();
    lemma_kat_step_16();
    lemma_kat_step_17();
    lemma_kat_step_18();
    lemma_kat_step_19();
    lemma_kat_step_20();
    lemma_kat_step_21();
    lemma_kat_step_22();
    lemma_kat_step_23();
    lemma_kat_step_24();
    lemma_kat_step_25();
    lemma_kat_step_26();
    lemma_kat_step_27();
    lemma_kat_step_28();
    lemma_kat_step_29();
    lemma_kat_step_30();
}

/// Known answer of the sponge: hashing the eight inputs 0, 1, ..., 7 (one
/// absorbed block, then squeezing five outputs) gives the first five values
/// of the permutation above.
pub proof fn lemma_sponge_known_answer()
    ensures
        sponge_hash(seq![0nat, 1nat, 2nat, 3nat, 4nat, 5nat, 6nat, 7nat], 5) == seq![6725827164060921599nat, 10075478728545485349nat, 8894428833137193595nat, 15003370686510731028nat, 847641297863906789nat],
{
    let input = seq![0nat, 1nat, 2nat, 3nat, 4nat, 5nat, 6nat, 7nat];
    lemma_permutation_known_answer();
    let st = Seq::new(12, |i: int| if i < input.len() { input[i] } else { zero_state()[i] });
    assert(st =~= absorbed_counting_state());
    assert(sponge_absorb(zero_state(), input) == permutation(absorbed_counting_state()));
    assert(sponge_hash(input, 5) =~= seq![6725827164060921599nat, 10075478728545485349nat, 8894428833137193595nat, 15003370686510731028nat, 847641297863906789nat]);
}

/// Reduces a value below 2^96 whose high word is small: hi * EPSILON + lo.
fn reduce96(x: u128) -> (r: u64)
    requires
        x < 0x1_0000_0000_0000_0000_0000_0000,
    ensures
        r as int % (modulus() as int) == x as int % (modulus() as int),
{
    let hi = (x >> 64u32) as u64;
    let lo = x as u64;
    proof {
        assert(x == (hi as u128) * 0x1_0000_0000_0000_0000u128 + (lo as u128) && hi < 0x1_0000_0000u64) by (bit_vector)
            requires
                lo == x as u64,
                hi == (x >> 64u32) as u64,
                x < 0x1_0000_0000_0000_0000_0000_0000u128,
        ;
    }
    let t1 = hi * GoldilocksField::EPSILON;
    let s = lo.wrapping_add(t1);
    let carry = s < lo;
    let r = s.wrapping_add(if carry { GoldilocksField::EPSILON } else { 0 });
    proof {
        let p = modulus() as int;
        let j: int = if carry { 1int } else { 0int };
        assert(r as int == lo as int + hi as int * 0xFFFF_FFFF - j * p);
        assert(x as int == (hi as int) * p + (lo as int + hi as int * 0xFFFF_FFFF));
        lemma_mod_p_multiple(hi as int + j, r as int);
    }
    r
}

/// The integer external layer respects a decomposition x = v + p * q.
proof fn lemma_external_linear_congr(x: Seq<int>, v: Seq<int>, q: Seq<int>, i: int)
    requires
        x.len() == 12,
        v.len() == 12,
        q.len() == 12,
        0 <= i < 12,
        forall|j: int| 0 <= j < 12 ==> #[trigger] x[j] == v[j] + modulus() * q[j],
    ensures
        external_linear_int(x, i) == external_linear_int(v, i) + modulus() * external_linear_int(q, i),
{
    let k = i % 4;
    assert(x[0] == v[0] + modulus() * q[0]);
    assert(x[1] == v[1] + modulus() * q[1]);
    assert(x[2] == v[2] + modulus() * q[2]);
    assert(x[3] == v[3] + modulus() * q[3]);
    assert(x[4] == v[4] + modulus() * q[4]);
    assert(x[5] == v[5] + modulus() * q[5]);
    assert(x[6] == v[6] + modulus() * q[6]);
    assert(x[7] == v[7] + modulus() * q[7]);
    assert(x[8] == v[8] + modulus() * q[8]);
    assert(x[9] == v[9] + modulus() * q[9]);
    assert(x[10] == v[10] + modulus() * q[10]);
    assert(x[11] == v[11] + modulus() * q[11]);
}

/// The external linear layer: three 4x4 MDS blocks followed by column-sum
/// mixing, computed on 128-bit intermediates and reduced once at the end.
fn external_linear_layer(s: &mut [GoldilocksField; 12])
    ensures
        state_view(*final(s)) == external_linear(state_view(*old(s))),
{
    let ghost raw = Seq::new(12, |j: int| old(s)[j].0 as int);
    let mut vals: [u128; 12] = [0; 12];
    for i in 0..12
        invariant
            raw == Seq::new(12, |j: int| old(s)[j].0 as int),
            *s == *old(s),
            forall|j: int| 0 <= j < i ==> #[trigger] vals[j] as int == raw[j],
    {
        vals[i] = s[i].0 as u128;
    }
    for wi in 0..3
        invariant
            raw == Seq::new(12, |j: int| old(s)[j].0 as int),
            forall|j: int| 0 <= j < 12 ==> 0 <= #[trigger] raw[j] < 0x1_0000_0000_0000_0000,
            forall|j: int| 0 <= j < 4 * wi ==> #[trigger] vals[j] as int == window_out(raw, j - j % 4, j % 4),
            forall|j: int| 4 * wi <= j < 12 ==> #[trigger] vals[j] as int == raw[j],
    {
        let i = wi * 4;
        let t01 = vals[i] + vals[i + 1];
        let t23 = vals[i + 2] + vals[i + 3];
        let t0123 = t01 + t23;
        let x0 = vals[i];
        let x1 = vals[i + 1];
        let x2 = vals[i + 2];
        let x3 = vals[i + 3];
        vals[i] = t0123 + t01 + x1;
        vals[i + 1] = t0123 + x1 + x2 + x2;
        vals[i + 2] = t0123 + t23 + x3;
        vals[i + 3] = t0123 + x3 + x0 + x0;
    }
    let sum0 = vals[0] + vals[4] + vals[8];
    let sum1 = vals[1] + vals[5] + vals[9];
    let sum2 = vals[2] + vals[6] + vals[10];
    let sum3 = vals[3] + vals[7] + vals[11];
    for i in 0..12
        invariant
            raw == Seq::new(12, |j: int| old(s)[j].0 as int),
            forall|j: int| 0 <= j < 12 ==> 0 <= #[trigger] raw[j] < 0x1_0000_0000_0000_0000,
            sum0 as int == window_out(raw, 0, 0) + window_out(raw, 4, 0) + window_out(raw, 8, 0),
            sum1 as int == window_out(raw, 0, 1) + window_out(raw, 4, 1) + window_out(raw, 8, 1),
            sum2 as int == window_out(raw, 0, 2) + window_out(raw, 4, 2) + window_out(raw, 8, 2),
            sum3 as int == window_out(raw, 0, 3) + window_out(raw, 4, 3) + window_out(raw, 8, 3),
            forall|j: int| 0 <= j < i ==> #[trigger] vals[j] as int == external_linear_int(raw, j),
            forall|j: int| i <= j < 12 ==> #[trigger] vals[j] as int == window_out(raw, j - j % 4, j % 4),
    {
        let add = if i % 4 == 0 {
            sum0
        } else if i % 4 == 1 {
            sum1
        } else if i % 4 == 2 {
            sum2
        } else {
            sum3
        };
        vals[i] = vals[i] + add;
    }
    let ghost view_old = state_view(*old(s)).map_values(|v: nat| v as int);
    let ghost q = Seq::new(12, |j: int| raw[j] / (modulus() as int));
    for i in 0..12
        invariant
            raw == Seq::new(12, |j: int| old(s)[j].0 as int),
            forall|j: int| 0 <= j < 12 ==> 0 <= #[trigger] raw[j] < 0x1_0000_0000_0000_0000,
            view_old == state_view(*old(s)).map_values(|v: nat| v as int),
            q == Seq::new(12, |j: int| raw[j] / (modulus() as int)),
            forall|j: int| 0 <= j < 12 ==> #[trigger] vals[j] as int == external_linear_int(raw, j),
            forall|j: int| 0 <= j < i ==> #[trigger] s[j]@ == external_linear(state_view(*old(s)))[j],
    {
        proof {
            assert forall|j: int| 0 <= j < 12 implies #[trigger] raw[j] == view_old[j] + modulus() * q[j] by {
                lemma_fundamental_div_mod(raw[j], modulus() as int);
            }
            lemma_external_linear_congr(raw, view_old, q, i as int);
            lemma_mod_p_multiple(external_linear_int(q, i as int), external_linear_int(view_old, i as int));
            lemma_mod_bound(external_linear_int(view_old, i as int), modulus() as int);
        }
        s[i] = GoldilocksField(reduce96(vals[i]));
    }
    assert(state_view(*s) =~= external_linear(state_view(*old(s))));
}

/// Every round constant is already reduced below p.
proof fn lemma_round_constants_canonical()
    ensures
        forall|r: int, i: int| 0 <= r < 8 && 0 <= i < 12 ==> #[trigger] EXTERNAL_CONSTANTS[r][i] < modulus(),
        forall|r: int| 0 <= r < 22 ==> #[trigger] INTERNAL_CONSTANTS[r] < modulus(),
{
}

/// The internal linear layer: every element becomes x_i * DIAG_i + sum.
fn internal_linear_layer(state: &mut [GoldilocksField; 12])
    ensures
        state_view(*final(state)) == internal_linear(state_view(*old(state))),
{
    let ghost old_view = state_view(*old(state));
    let sum128: u128 = (state[0].0 as u128) + (state[1].0 as u128) + (state[2].0 as u128) + (state[3].0 as u128)
        + (state[4].0 as u128) + (state[5].0 as u128) + (state[6].0 as u128) + (state[7].0 as u128)
        + (state[8].0 as u128) + (state[9].0 as u128) + (state[10].0 as u128) + (state[11].0 as u128);
    let sum_f = GoldilocksField(reduce96(sum128));
    proof {
        let p = modulus() as int;
        let v = old_view;
        let q = Seq::new(12, |j: int| (state[j].0 as int) / p);
        assert forall|j: int| 0 <= j < 12 implies (state[j].0 as int) == v[j] + p * #[trigger] q[j] by {
            lemma_fundamental_div_mod(state[j].0 as int, p);
        }
        let qs = q[0] + q[1] + q[2] + q[3] + q[4] + q[5] + q[6] + q[7] + q[8] + q[9] + q[10] + q[11];
        assert(sum128 as int == state_sum(v) + p * qs);
        lemma_mod_p_multiple(qs, state_sum(v) as int);
    }
    for i in 0..12
        invariant
            old_view == state_view(*old(state)),
            sum_f@ == state_sum(old_view) % modulus(),
            forall|j: int| i <= j < 12 ==> #[trigger] state[j] == old(state)[j],
            forall|j: int| 0 <= j < i ==> #[trigger] state[j]@ == internal_linear(old_view)[j],
    {
        let diag = GoldilocksField(MATRIX_DIAG_U64[i]);
        proof {
            lemma_mul_upper_bound(state[i as int].0 as int, u64::MAX as int, diag.0 as int, u64::MAX as int);
            assert(u64::MAX as int * u64::MAX as int + u64::MAX as int <= u128::MAX) by (nonlinear_arith);
        }
        let prod = (state[i].0 as u128) * (diag.0 as u128);
        let acc = (sum_f.0 as u128) + prod;
        let r = GoldilocksField(GoldilocksField::reduce128(acc));
        proof {
            let p = modulus() as int;
            let x = state[i as int].0 as int;
            let d = MATRIX_DIAG_U64[i as int] as int;
            lemma_mul_congr(x, d, old_view[i as int], (d % p) as nat);
            lemma_add_congr(sum_f.0 as int, x * d, sum_f@, ((old_view[i as int] * (d % p)) % p) as nat);
            lemma_mul_mod_noop(old_view[i as int] as int, d, p);
            lemma_mod_twice(old_view[i as int] as int, p);
            lemma_mod_twice(state_sum(old_view) as int, p);
            lemma_add_congr(old_view[i as int] * d, state_sum(old_view) as int, ((old_view[i as int] * d) % p) as nat, sum_f@);
            lemma_mul_congr(old_view[i as int] as int, d, old_view[i as int], (d % p) as nat);
        }
        state[i] = r;
    }
    assert(state_view(*state) =~= internal_linear(state_view(*old(state))));
}

/// x^7 computed as ((x^2 * x)^2) * x.
fn sbox_elem(x: GoldilocksField) -> (r: GoldilocksField)
    ensures
        r@ == sbox(x@),
{
    let tmp_sq = x.square();
    let tmp_3 = tmp_sq.mul(&x);
    let tmp_6th = tmp_3.square();
    let r = tmp_6th.mul(&x);
    proof {
        let p = modulus() as int;
        let v = x@ as int;
        lemma_mod_twice(x.0 as int, p);
        lemma_mul_congr(v * v, v, tmp_sq@, x@);
        lemma_mul_congr(v * v * v, v * v * v, tmp_3@, tmp_3@);
        lemma_mul_congr(v * v * v * (v * v * v), v, tmp_6th@, x@);
        reveal_with_fuel(pow, 8);
        assert(pow(v, 7) == v * v * v * (v * v * v) * v) by (nonlinear_arith)
            requires
                pow(v, 7) == v * (v * (v * (v * (v * (v * (v * 1)))))),
        ;
    }
    r
}

/// Applies the S-box to element `idx`.
fn sbox_p(state: &mut [GoldilocksField; 12], idx: usize)
    requires
        idx < 12,
    ensures
        state_view(*final(state)) == state_view(*old(state)).update(idx as int, sbox(old(state)[idx as int]@)),
{
    let t = sbox_elem(state[idx]);
    state[idx] = t;
    assert(state_view(*state) =~= state_view(*old(state)).update(idx as int, sbox(old(state)[idx as int]@)));
}

/// Applies the S-box to every element.
fn sbox_all(state: &mut [GoldilocksField; 12])
    ensures
        state_view(*final(state)) == Seq::new(12, |i: int| sbox(state_view(*old(state))[i])),
{
    for i in 0..12
        invariant
            forall|j: int| 0 <= j < i ==> #[trigger] state[j]@ == sbox(old(state)[j]@),
            forall|j: int| i <= j < 12 ==> #[trigger] state[j]@ == old(state)[j]@,
    {
        let ghost before = *state;
        sbox_p(state, i);
        proof {
            assert forall|j: int| 0 <= j < 12 implies #[trigger] state[j]@ == state_view(*state)[j] by {}
            assert forall|j: int| 0 <= j < 12 implies #[trigger] before[j]@ == state_view(before)[j] by {}
        }
        proof {
            assert forall|j: int| 0 <= j < 12 implies #[trigger] state[j]@ == state_view(*state)[j] by {}
        }
    }
    assert(state_view(*state) =~= Seq::new(12, |i: int| sbox(state_view(*old(state))[i])));
}

/// Applies the S-box to element 0 only.
fn sbox_one(state: &mut [GoldilocksField; 12], idx: usize)
    requires
        idx < 12,
    ensures
        state_view(*final(state)) == state_view(*old(state)).update(idx as int, sbox(old(state)[idx as int]@)),
{
    sbox_p(state, idx);
}

/// Adds the round constants of full round `round` to every element.
fn add_external_rc(state: &mut [GoldilocksField; 12], round: usize)
    requires
        round < 8,
    ensures
        state_view(*final(state)) == Seq::new(12, |i: int| (state_view(*old(state))[i] + (EXTERNAL_CONSTANTS[round as int][i] as nat)) % modulus()),
{
    proof { lemma_round_constants_canonical(); }
    for i in 0..12
        invariant
            round < 8,
            forall|r: int, k: int| 0 <= r < 8 && 0 <= k < 12 ==> #[trigger] EXTERNAL_CONSTANTS[r][k] < modulus(),
            forall|j: int| 0 <= j < i ==> #[trigger] state[j]@ == (old(state)[j]@ + (EXTERNAL_CONSTANTS[round as int][j] as nat)) % modulus(),
            forall|j: int| i <= j < 12 ==> #[trigger] state[j] == old(state)[j],
    {
        let v = state[i].add_canonical_u64(EXTERNAL_CONSTANTS[round][i]);
        state[i] = v;
    }
    assert(state_view(*state) =~= Seq::new(12, |i: int| (state_view(*old(state))[i] + (EXTERNAL_CONSTANTS[round as int][i] as nat)) % modulus()));
}

/// Adds the constant of partial round `round` to element 0.
fn add_internal_rc(state: &mut [GoldilocksField; 12], round: usize)
    requires
        round < 22,
    ensures
        state_view(*final(state)) == state_view(*old(state)).update(0, (old(state)[0]@ + (INTERNAL_CONSTANTS[round as int] as nat)) % modulus()),
{
    proof { lemma_round_constants_canonical(); }
    let v = state[0].add_canonical_u64(INTERNAL_CONSTANTS[round]);
    state[0] = v;
    assert(state_view(*state) =~= state_view(*old(state)).update(0, (old(state)[0]@ + (INTERNAL_CONSTANTS[round as int] as nat)) % modulus()));
}

/// Four full rounds starting at round `start`.
fn full_rounds_exec(state: &mut [GoldilocksField; 12], start: usize)
    requires
        start + 4 <= 8,
    ensures
        state_view(*final(state)) == full_rounds(state_view(*old(state)), start as int, 4),
{
    for r in start..start + 4
        invariant
            start + 4 <= 8,
            start <= r,
            state_view(*state) == full_rounds(state_view(*old(state)), start as int, (r - start) as nat),
    {
        let ghost before = state_view(*state);
        add_external_rc(state, r);
        sbox_all(state);
        external_linear_layer(state);
        proof {
            reveal(full_round);
            assert(state_view(*state) =~= full_round(before, r as int));
        }
    }
}

/// The 22 partial rounds.
fn partial_rounds_exec(state: &mut [GoldilocksField; 12])
    ensures
        state_view(*final(state)) == partial_rounds(state_view(*old(state)), 22),
{
    for r in 0..22
        invariant
            state_view(*state) == partial_rounds(state_view(*old(state)), r as nat),
    {
        let ghost before = state_view(*state);
        add_internal_rc(state, r);
        let ghost mid = *state;
        proof {
            assert(mid[0]@ == state_view(mid)[0]);
            assert(state_view(mid) == before.update(0, (before[0] + (INTERNAL_CONSTANTS[r as int] as nat)) % modulus()));
        }
        sbox_one(state, 0);
        proof {
            assert(state_view(*state) =~= before.update(0, sbox((before[0] + (INTERNAL_CONSTANTS[r as int] as nat)) % modulus())));
        }
        internal_linear_layer(state);
        proof { reveal(partial_round); }
    }
}

/// Applies one Poseidon2 permutation to the 12-element state.
pub fn permute(state: &mut [GoldilocksField; 12])
    ensures
        state_view(*final(state)) == permutation(state_view(*old(state))),
{
    external_linear_layer(state);
    full_rounds_exec(state, 0);
    partial_rounds_exec(state);
    full_rounds_exec(state, 4);
    proof { reveal(permutation); }
}

/// A hash output: four Goldilocks elements (32 bytes).
pub type HashOut = [GoldilocksField; 4];

/// The values (mod p) of a hash output.
pub open spec fn hash_out_view(h: HashOut) -> Seq<nat> {
    seq![h[0]@, h[1]@, h[2]@, h[3]@]
}

/// The values (mod p) of a sequence of field elements.
pub open spec fn elems_view(s: Seq<GoldilocksField>) -> Seq<nat> {
    s.map_values(|g: GoldilocksField| g@)
}

/// The all-zero permutation state.
pub open spec fn zero_state() -> Seq<nat> {
    Seq::new(12, |i: int| 0nat)
}

/// Overwrites the first `chunk.len()` state elements with `chunk`, then permutes.
pub open spec fn absorb_chunk(state: Seq<nat>, chunk: Seq<nat>) -> Seq<nat> {
    permutation(Seq::new(12, |i: int| if i < chunk.len() { chunk[i] } else { state[i] }))
}

/// Absorbs the input in chunks of RATE = 8 elements.
pub open spec fn sponge_absorb(state: Seq<nat>, input: Seq<nat>) -> Seq<nat>
    decreases input.len(),
{
    if input.len() == 0 {
        state
    } else if input.len() <= 8 {
        absorb_chunk(state, input)
    } else {
        sponge_absorb(absorb_chunk(state, input.take(8)), input.skip(8))
    }
}

/// Squeezes `n` outputs, RATE = 8 at a time, permuting between batches.
pub open spec fn sponge_squeeze(state: Seq<nat>, n: nat) -> Seq<nat>
    decreases n,
{
    if n <= 8 {
        state.take(n as int)
    } else {
        state.take(8) + sponge_squeeze(permutation(state), (n - 8) as nat)
    }
}

/// The sponge hash of `input` with `n` outputs, starting from the zero state.
pub open spec fn sponge_hash(input: Seq<nat>, n: nat) -> Seq<nat> {
    sponge_squeeze(sponge_absorb(zero_state(), input), n)
}

/// Combines two hash outputs into one.
pub open spec fn two_to_one(a: Seq<nat>, b: Seq<nat>) -> Seq<nat> {
    sponge_hash(a + b, 4)
}

/// Folds `two_to_one` over `rest`, starting from `acc`.
pub open spec fn fold_two_to_one(acc: Seq<nat>, rest: Seq<Seq<nat>>) -> Seq<nat>
    decreases rest.len(),
{
    if rest.len() == 0 {
        acc
    } else {
        fold_two_to_one(two_to_one(acc, rest[0]), rest.skip(1))
    }
}

/// Combination of a list of hash outputs: zero for none, the output itself
/// for one, otherwise a left fold of `two_to_one`.
pub open spec fn n_to_one(hs: Seq<Seq<nat>>) -> Seq<nat> {
    if hs.len() == 0 {
        seq![0nat, 0nat, 0nat, 0nat]
    } else if hs.len() == 1 {
        hs[0]
    } else {
        fold_two_to_one(two_to_one(hs[0], hs[1]), hs.skip(2))
    }
}

/// Folding one more output in at the end combines it with the fold so far.
proof fn lemma_fold_two_to_one_push(acc: Seq<nat>, rest: Seq<Seq<nat>>, x: Seq<nat>)
    ensures
        fold_two_to_one(acc, rest.push(x)) == two_to_one(fold_two_to_one(acc, rest), x),
    decreases rest.len(),
{
    if rest.len() == 0 {
        assert(rest.push(x).skip(1) =~= Seq::<Seq<nat>>::empty());
        assert(rest.push(x)[0] == x);
        assert(fold_two_to_one(two_to_one(acc, x), Seq::<Seq<nat>>::empty()) == two_to_one(acc, x));
        assert(fold_two_to_one(acc, rest) == acc);
    } else {
        assert(rest.push(x)[0] == rest[0]);
        assert(rest.push(x).skip(1) =~= rest.skip(1).push(x));
        lemma_fold_two_to_one_push(two_to_one(acc, rest[0]), rest.skip(1), x);
    }
}

/// Combining a list of outputs is a left fold: one output is itself, and
/// for two or more the combination of all but the last is combined with the
/// last.
pub proof fn lemma_n_to_one_left_fold(hs: Seq<Seq<nat>>)
    ensures
        hs.len() == 1 ==> n_to_one(hs) == hs[0],
        hs.len() >= 2 ==> n_to_one(hs) == two_to_one(n_to_one(hs.drop_last()), hs.last()),
{
    if hs.len() == 2 {
        assert(hs.skip(2) =~= Seq::<Seq<nat>>::empty());
        assert(hs.drop_last().len() == 1);
    } else if hs.len() > 2 {
        let dl = hs.drop_last();
        assert(dl[0] == hs[0] && dl[1] == hs[1]);
        assert(hs.skip(2) =~= dl.skip(2).push(hs.last()));
        lemma_fold_two_to_one_push(two_to_one(hs[0], hs[1]), dl.skip(2), hs.last());
    }
}

/// The all-zero hash output.
pub fn empty_hash_out() -> (r: HashOut)
    ensures
        forall|i: int| 0 <= i < 4 ==> #[trigger] r[i].0 == 0,
        hash_out_view(r) == seq![0nat, 0nat, 0nat, 0nat],
{
    proof { vstd::arithmetic::div_mod::lemma_small_mod(0, modulus()); }
    let r = [GoldilocksField(0), GoldilocksField(0), GoldilocksField(0), GoldilocksField(0)];
    assert(hash_out_view(r) =~= seq![0nat, 0nat, 0nat, 0nat]);
    r
}

/// Core sponge: absorbs `input` in RATE-size chunks, then squeezes
/// `num_outputs` elements.
fn hash_n_to_m(input: &[GoldilocksField], num_outputs: usize) -> (r: Vec<GoldilocksField>)
    requires
        num_outputs > 0,
    ensures
        r@.len() == num_outputs,
        elems_view(r@) == sponge_hash(elems_view(input@), num_outputs as nat),
{
    let mut perm = [GoldilocksField(0), GoldilocksField(0), GoldilocksField(0), GoldilocksField(0), GoldilocksField(0), GoldilocksField(0),
        GoldilocksField(0), GoldilocksField(0), GoldilocksField(0), GoldilocksField(0), GoldilocksField(0), GoldilocksField(0)];
    let ghost full = elems_view(input@);
    proof {
        lemma_small_mod(0, modulus());
        assert(state_view(perm) =~= zero_state());
        assert(full.skip(0) =~= full);
    }
    let mut start: usize = 0;
    while start < input.len()
        invariant
            start <= input.len(),
            full == elems_view(input@),
            sponge_absorb(zero_state(), full) == sponge_absorb(state_view(perm), full.skip(start as int)),
        decreases input.len() - start,
    {
        let end = if input.len() - start < 8 { input.len() } else { start + 8 };
        let ghost s0 = state_view(perm);
        let ghost rest = full.skip(start as int);
        let ghost chunk = rest.take((end - start) as int);
        for j in 0..(end - start)
            invariant
                start < end <= input.len(),
                end - start <= 8,
                full == elems_view(input@),
                rest == full.skip(start as int),
                chunk == rest.take((end - start) as int),
                forall|k: int| 0 <= k < j ==> #[trigger] perm[k]@ == chunk[k],
                forall|k: int| j <= k < 12 ==> #[trigger] perm[k]@ == s0[k],
        {
            perm[j] = input[start + j];
        }
        proof {
            assert(state_view(perm) =~= Seq::new(12, |i: int| if i < chunk.len() { chunk[i] } else { s0[i] }));
        }
        permute(&mut perm);
        proof {
            if rest.len() <= 8 {
                assert(chunk =~= rest);
                assert(full.skip(end as int).len() == 0);
            } else {
                assert(full.skip(end as int) =~= rest.skip(8));
            }
        }
        start = end;
    }
    let ghost s_abs = state_view(perm);
    proof {
        assert(full.skip(start as int).len() == 0);
    }
    let mut outputs: Vec<GoldilocksField> = Vec::with_capacity(num_outputs);
    loop
        invariant
            num_outputs > 0,
            full == elems_view(input@),
            outputs@.len() < num_outputs,
            sponge_hash(full, num_outputs as nat) == elems_view(outputs@) + sponge_squeeze(state_view(perm), (num_outputs - outputs@.len()) as nat),
        decreases num_outputs - outputs@.len(),
    {
        let ghost out0 = elems_view(outputs@);
        let ghost len0 = outputs@.len();
        let ghost st = state_view(perm);
        for k in 0..8
            invariant
                num_outputs > 0,
                full == elems_view(input@),
                len0 < num_outputs,
                outputs@.len() == len0 + k,
                outputs@.len() < num_outputs,
                st == state_view(perm),
                elems_view(outputs@) == out0 + st.take(k as int),
                sponge_hash(full, num_outputs as nat) == out0 + sponge_squeeze(st, (num_outputs - len0) as nat),
        {
            let ghost prev = outputs@;
            outputs.push(perm[k]);
            proof {
                assert(perm[k as int]@ == st[k as int]);
                assert(elems_view(outputs@) =~= elems_view(prev).push(perm[k as int]@));
                assert(out0 + st.take(k + 1) =~= (out0 + st.take(k as int)).push(st[k as int]));
                assert(elems_view(outputs@) =~= out0 + st.take(k + 1));
            }
            if outputs.len() == num_outputs {
                proof {
                    assert((num_outputs - len0) as nat == (k + 1) as nat);
                    assert(sponge_squeeze(st, (k + 1) as nat) == st.take(k + 1));
                    assert(elems_view(outputs@) =~= sponge_hash(full, num_outputs as nat));
                }
                return outputs;
            }
        }
        proof {
            assert(sponge_squeeze(st, (num_outputs - len0) as nat) == st.take(8) + sponge_squeeze(permutation(st), (num_outputs - len0 - 8) as nat));
        }
        permute(&mut perm);
        proof {
            assert(out0 + st.take(8) + sponge_squeeze(state_view(perm), (num_outputs - outputs@.len()) as nat) =~= out0 + (st.take(8) + sponge_squeeze(state_view(perm), (num_outputs - outputs@.len()) as nat)));
        }
    }
}

/// The little-endian encoding of a hash output: 8 canonical bytes per element.
pub open spec fn hash_out_le_bytes(h: Seq<nat>) -> Seq<u8> {
    u64_le_bytes(h[0] as u64) + u64_le_bytes(h[1] as u64) + u64_le_bytes(h[2] as u64) + u64_le_bytes(h[3] as u64)
}

/// Serializes a hash output as 32 bytes.
pub fn hash_out_to_bytes(h: &HashOut) -> (r: [u8; 32])
    ensures
        r@ == hash_out_le_bytes(hash_out_view(*h)),
{
    let mut out = [0u8; 32];
    for i in 0..4
        invariant
            forall|k: int| 0 <= k < 8 * i ==> #[trigger] out@[k] == hash_out_le_bytes(hash_out_view(*h))[k],
    {
        let b = h[i].to_bytes_le();
        for j in 0..8
            invariant
                0 <= i < 4,
                b@ == u64_le_bytes(h[i as int]@ as u64),
                forall|k: int| 0 <= k < 8 * i + j ==> #[trigger] out@[k] == hash_out_le_bytes(hash_out_view(*h))[k],
        {
            out[i * 8 + j] = b[j];
            proof {
                let v = hash_out_view(*h);
                assert(hash_out_le_bytes(v) =~= u64_le_bytes(v[0] as u64) + u64_le_bytes(v[1] as u64) + u64_le_bytes(v[2] as u64)
                    + u64_le_bytes(v[3] as u64));
                assert(hash_out_le_bytes(v)[8 * i + j] == u64_le_bytes(v[i as int] as u64)[j as int]);
            }
        }
    }
    assert(out@ =~= hash_out_le_bytes(hash_out_view(*h)));
    out
}

/// Deserializes 32 bytes as four canonical little-endian elements.
pub fn hash_out_from_bytes(bytes: &[u8]) -> (r: Result<HashOut, &'static str>)
    ensures
        bytes@.len() != 32 ==> (r matches Err(e) && e@ == "expected 32 bytes"@),
        bytes@.len() == 32 && !(forall|i: int| 0 <= i < 4 ==> le_word(bytes@, i) < modulus())
            ==> (r matches Err(e) && e@ == "non-canonical Goldilocks element"@),
        r is Ok <==> (bytes@.len() == 32 && forall|i: int| 0 <= i < 4 ==> le_word(bytes@, i) < modulus()),
        r matches Ok(h) ==> forall|i: int| 0 <= i < 4 ==> #[trigger] h[i].0 == le_word(bytes@, i),
{
    if bytes.len() != 32 {
        return Err("expected 32 bytes");
    }
    let mut h = [GoldilocksField(0), GoldilocksField(0), GoldilocksField(0), GoldilocksField(0)];
    for i in 0..4
        invariant
            bytes@.len() == 32,
            forall|k: int| 0 <= k < i ==> le_word(bytes@, k) < modulus(),
            forall|k: int| 0 <= k < i ==> #[trigger] h[k].0 == le_word(bytes@, k),
    {
        let chunk = &bytes[i * 8..(i + 1) * 8];
        assert(chunk@ =~= bytes@.subrange(8 * i, 8 * i + 8));
        assert(u64_from_le_bytes(chunk@) == le_word(bytes@, i as int));
        match GoldilocksField::from_bytes_le(chunk) {
            Ok(g) => {
                h[i] = g;
            },
            Err(e) => {
                return Err(e);
            },
        }
    }
    Ok(h)
}

/// Hashes a slice of Goldilocks elements to an Fp5 element (five outputs).
pub fn hash_to_quintic_extension(input: &[GoldilocksField]) -> (r: Fp5)
    ensures
        r@ == sponge_hash(elems_view(input@), 5),
{
    let out = hash_n_to_m(input, 5);
    let r = Fp5::from_array([out[0], out[1], out[2], out[3], out[4]]);
    proof {
        let h = sponge_hash(elems_view(input@), 5);
        assert(elems_view(out@)[0] == out@[0]@);
        assert(elems_view(out@)[1] == out@[1]@);
        assert(elems_view(out@)[2] == out@[2]@);
        assert(elems_view(out@)[3] == out@[3]@);
        assert(elems_view(out@)[4] == out@[4]@);
        assert(r@ =~= h);
    }
    r
}

/// Hashes a slice of Goldilocks elements to exactly four outputs.
pub fn hash_no_pad(input: &[GoldilocksField]) -> (r: HashOut)
    ensures
        hash_out_view(r) == sponge_hash(elems_view(input@), 4),
{
    let out = hash_n_to_m(input, 4);
    let r = [out[0], out[1], out[2], out[3]];
    proof {
        let h = sponge_hash(elems_view(input@), 4);
        assert(elems_view(out@)[0] == out@[0]@);
        assert(elems_view(out@)[1] == out@[1]@);
        assert(elems_view(out@)[2] == out@[2]@);
        assert(elems_view(out@)[3] == out@[3]@);
        assert(hash_out_view(r) =~= h);
    }
    r
}

/// Hashes two hash outputs into one.
pub fn hash_two_to_one(a: HashOut, b: HashOut) -> (r: HashOut)
    ensures
        hash_out_view(r) == two_to_one(hash_out_view(a), hash_out_view(b)),
{
    let input = [a[0], a[1], a[2], a[3], b[0], b[1], b[2], b[3]];
    let r = hash_no_pad(&input);
    assert(elems_view(input@) =~= hash_out_view(a) + hash_out_view(b));
    r
}

/// Combines a list of hash outputs into one: zero for an empty list, the
/// single output itself, or a left fold of the two-to-one hash.
pub fn hash_n_to_one(hashes: &[HashOut]) -> (r: HashOut)
    ensures
        hash_out_view(r) == n_to_one(hashes@.map_values(|h: HashOut| hash_out_view(h))),
{
    let ghost hs = hashes@.map_values(|h: HashOut| hash_out_view(h));
    if hashes.len() == 0 {
        return empty_hash_out();
    }
    if hashes.len() == 1 {
        return hashes[0];
    }
    let mut res = hash_two_to_one(hashes[0], hashes[1]);
    proof {
        assert(hs.skip(2) =~= hs.skip(2));
    }
    for i in 2..hashes.len()
        invariant
            2 <= hashes@.len(),
            hs == hashes@.map_values(|h: HashOut| hash_out_view(h)),
            n_to_one(hs) == fold_two_to_one(hash_out_view(res), hs.skip(i as int)),
    {
        let next = hash_two_to_one(res, hashes[i]);
        proof {
            assert(hs.skip(i as int)[0] == hash_out_view(hashes@[i as int]));
            assert(hs.skip(i as int).skip(1) =~= hs.skip(i + 1));
        }
        res = next;
    }
    proof {
        assert(hs.skip(hashes@.len() as int).len() == 0);
    }
    res
}

/// The permutation keeps twelve elements.
proof fn lemma_permutation_len(s: Seq<nat>)
    ensures
        permutation(s).len() == 12,
{
    reveal(permutation);
    reveal(full_round);
}

/// Absorbing keeps a twelve-element state.
proof fn lemma_absorb_len(state: Seq<nat>, input: Seq<nat>)
    requires
        state.len() == 12,
    ensures
        sponge_absorb(state, input).len() == 12,
    decreases input.len(),
{
    if input.len() == 0 {
    } else if input.len() <= 8 {
        lemma_permutation_len(Seq::new(12, |i: int| if i < input.len() { input[i] } else { state[i] }));
    } else {
        let next = absorb_chunk(state, input.take(8));
        lemma_permutation_len(Seq::new(12, |i: int| if i < input.take(8).len() { input.take(8)[i] } else { state[i] }));
        lemma_absorb_len(next, input.skip(8));
    }
}

/// `hash_no_pad` is the first four outputs of `hash_to_quintic_extension` on
/// the same input: both squeeze the same absorbed state.
pub proof fn lemma_hash_no_pad_prefix(input: Seq<nat>)
    ensures
        sponge_hash(input, 4) == sponge_hash(input, 5).take(4),
{
    lemma_absorb_len(zero_state(), input);
    assert(sponge_hash(input, 5).take(4) =~= sponge_hash(input, 4));
}

/// `hash_out_to_bytes` then `hash_out_from_bytes` gives back a hash whose
/// words are below p.
pub proof fn lemma_hash_out_bytes_roundtrip(h: Seq<nat>)
    requires
        h.len() == 4,
        forall|i: int| 0 <= i < 4 ==> #[trigger] h[i] < modulus(),
    ensures
        hash_out_le_bytes(h).len() == 32,
        forall|i: int| 0 <= i < 4 ==> #[trigger] le_word(hash_out_le_bytes(h), i) == h[i],
{
    let b = hash_out_le_bytes(h);
    assert forall|i: int| 0 <= i < 4 implies #[trigger] le_word(b, i) == h[i] by {
        lemma_u64_le_bytes_roundtrip(h[i] as u64);
        assert(b.subrange(8 * i, 8 * i + 8) =~= u64_le_bytes(h[i] as u64));
    }
}

} // verus!
