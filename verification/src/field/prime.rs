use vstd::prelude::*;
use vstd::arithmetic::div_mod::*;
use vstd::arithmetic::mul::*;
use vstd::arithmetic::power::*;
use vstd::set_lib::*;
use vstd::relations::injective_on;
use crate::field::goldilocks::modulus;

verus! {

/// `n` is prime: above 1 and without a divisor strictly between 1 and n.
pub open spec fn is_prime(n: nat) -> bool {
    n > 1 && forall|d: nat| 1 < d < n ==> #[trigger] (n % d) != 0
}

/// b^e mod m by binary exponentiation.
#[verifier::opaque]
pub open spec fn powmod(b: nat, e: nat, m: nat) -> nat
    decreases e,
{
    if e == 0 {
        1nat % m
    } else {
        let h = powmod(b, e / 2, m);
        let h2 = (h * h) % m;
        if e % 2 == 1 {
            (h2 * b) % m
        } else {
            h2
        }
    }
}

/// Binary exponentiation computes b^e mod m.
pub proof fn lemma_powmod(b: nat, e: nat, m: nat)
    requires
        m > 1,
    ensures
        powmod(b, e, m) == pow(b as int, e) % (m as int),
    decreases e,
{
    reveal(powmod);
    if e == 0 {
        lemma_pow0(b as int);
    } else {
        let k = e / 2;
        lemma_powmod(b, k, m);
        let h = powmod(b, k, m);
        lemma_pow_adds(b as int, k, k);
        lemma_mul_mod_noop(pow(b as int, k), pow(b as int, k), m as int);
        assert((h * h) % m == pow(b as int, k + k) % (m as int));
        if e % 2 == 1 {
            lemma_pow_adds(b as int, k + k, 1);
            lemma_pow1(b as int);
            lemma_mul_mod_noop(pow(b as int, k + k), b as int, m as int);
            lemma_small_mod(b % m, m);
            lemma_mul_mod_noop_right(((h * h) % m) as int, b as int, m as int);
            assert(e == (k + k) + 1);
        } else {
            assert(e == k + k);
        }
    }
}

/// b^0 mod m.
proof fn lemma_powmod_zero(b: nat, m: nat)
    requires
        m > 1,
    ensures
        powmod(b, 0, m) == 1,
{
    reveal(powmod);
    lemma_small_mod(1, m);
}

/// One step of binary exponentiation on known values.
proof fn lemma_powmod_step(b: nat, e: nat, m: nat, h: nat, v: nat)
    requires
        e > 0,
        powmod(b, e / 2, m) == h,
        v == (if e % 2 == 1 { ((h * h) % m * b) % m } else { (h * h) % m }),
    ensures
        powmod(b, e, m) == v,
{
    reveal(powmod);
}

/// 7^(p-1) mod p.
proof fn lemma_cert_full()
    ensures
        powmod(7, 18446744069414584320, 18446744069414584321) == 1,
{
    let m: nat = 18446744069414584321;
    lemma_powmod_zero(7, m);
    lemma_powmod_step(7, 1, m, 1, 7);
    lemma_powmod_step(7, 3, m, 7, 343);
    lemma_powmod_step(7, 7, m, 343, 823543);
    lemma_powmod_step(7, 15, m, 823543, 4747561509943);
    lemma_powmod_step(7, 31, m, 4747561509943, 11074261478625843323);
    lemma_powmod_step(7, 63, m, 11074261478625843323, 12148266161370408270);
    lemma_powmod_step(7, 127, m, 12148266161370408270, 7007601668316978083);
    lemma_powmod_step(7, 255, m, 7007601668316978083, 8125271997680889877);
    lemma_powmod_step(7, 511, m, 8125271997680889877, 2624486902016877951);
    lemma_powmod_step(7, 1023, m, 2624486902016877951, 8253119735826302939);
    lemma_powmod_step(7, 2047, m, 8253119735826302939, 3543566522599720475);
    lemma_powmod_step(7, 4095, m, 3543566522599720475, 11981551684735969599);
    lemma_powmod_step(7, 8191, m, 11981551684735969599, 10062120588441922115);
    lemma_powmod_step(7, 16383, m, 10062120588441922115, 10485806445487905393);
    lemma_powmod_step(7, 32767, m, 10485806445487905393, 4139485063330164956);
    lemma_powmod_step(7, 65535, m, 4139485063330164956, 12134830135347446949);
    lemma_powmod_step(7, 131071, m, 12134830135347446949, 4326791766630348883);
    lemma_powmod_step(7, 262143, m, 4326791766630348883, 206761543466863628);
    lemma_powmod_step(7, 524287, m, 206761543466863628, 10086585273483141421);
    lemma_powmod_step(7, 1048575, m, 10086585273483141421, 1855730417186139594);
    lemma_powmod_step(7, 2097151, m, 1855730417186139594, 7626447102712710903);
    lemma_powmod_step(7, 4194303, m, 7626447102712710903, 7790920094560990216);
    lemma_powmod_step(7, 8388607, m, 7790920094560990216, 5901922255895126089);
    lemma_powmod_step(7, 16777215, m, 5901922255895126089, 8935258787870022506);
    lemma_powmod_step(7, 33554431, m, 8935258787870022506, 13093775858033092690);
    lemma_powmod_step(7, 67108863, m, 13093775858033092690, 11243737384857129666);
    lemma_powmod_step(7, 134217727, m, 11243737384857129666, 2063617152444052883);
    lemma_powmod_step(7, 268435455, m, 2063617152444052883, 13064848991504552222);
    lemma_powmod_step(7, 536870911, m, 13064848991504552222, 16593403251012455084);
    lemma_powmod_step(7, 1073741823, m, 16593403251012455084, 5859133952941131217);
    lemma_powmod_step(7, 2147483647, m, 5859133952941131217, 15659105665374529263);
    lemma_powmod_step(7, 4294967295, m, 15659105665374529263, 1753635133440165772);
    lemma_powmod_step(7, 8589934590, m, 1753635133440165772, 4614640910117430873);
    lemma_powmod_step(7, 17179869180, m, 4614640910117430873, 9123114210336311365);
    lemma_powmod_step(7, 34359738360, m, 9123114210336311365, 16116352524544190054);
    lemma_powmod_step(7, 68719476720, m, 16116352524544190054, 6414415596519834757);
    lemma_powmod_step(7, 137438953440, m, 6414415596519834757, 1213594585890690845);
    lemma_powmod_step(7, 274877906880, m, 1213594585890690845, 17096174751763063430);
    lemma_powmod_step(7, 549755813760, m, 17096174751763063430, 5456943929260765144);
    lemma_powmod_step(7, 1099511627520, m, 5456943929260765144, 9713644485405565297);
    lemma_powmod_step(7, 2199023255040, m, 9713644485405565297, 16905767614792059275);
    lemma_powmod_step(7, 4398046510080, m, 16905767614792059275, 5416168637041100469);
    lemma_powmod_step(7, 8796093020160, m, 5416168637041100469, 17654865857378133588);
    lemma_powmod_step(7, 17592186040320, m, 17654865857378133588, 3511170319078647661);
    lemma_powmod_step(7, 35184372080640, m, 3511170319078647661, 18146160046829613826);
    lemma_powmod_step(7, 70368744161280, m, 18146160046829613826, 9306717745644682924);
    lemma_powmod_step(7, 140737488322560, m, 9306717745644682924, 12380578893860276750);
    lemma_powmod_step(7, 281474976645120, m, 12380578893860276750, 6115771955107415310);
    lemma_powmod_step(7, 562949953290240, m, 6115771955107415310, 17776499369601055404);
    lemma_powmod_step(7, 1125899906580480, m, 17776499369601055404, 16207902636198568418);
    lemma_powmod_step(7, 2251799813160960, m, 16207902636198568418, 1532612707718625687);
    lemma_powmod_step(7, 4503599626321920, m, 1532612707718625687, 17492915097719143606);
    lemma_powmod_step(7, 9007199252643840, m, 17492915097719143606, 455906449640507599);
    lemma_powmod_step(7, 18014398505287680, m, 455906449640507599, 11353340290879379826);
    lemma_powmod_step(7, 36028797010575360, m, 11353340290879379826, 1803076106186727246);
    lemma_powmod_step(7, 72057594021150720, m, 1803076106186727246, 13797081185216407910);
    lemma_powmod_step(7, 144115188042301440, m, 13797081185216407910, 17870292113338400769);
    lemma_powmod_step(7, 288230376084602880, m, 17870292113338400769, 549755813888);
    lemma_powmod_step(7, 576460752169205760, m, 549755813888, 70368744161280);
    lemma_powmod_step(7, 1152921504338411520, m, 70368744161280, 17293822564807737345);
    lemma_powmod_step(7, 2305843008676823040, m, 17293822564807737345, 18446744069397807105);
    lemma_powmod_step(7, 4611686017353646080, m, 18446744069397807105, 281474976710656);
    lemma_powmod_step(7, 9223372034707292160, m, 281474976710656, 18446744069414584320);
    lemma_powmod_step(7, 18446744069414584320, m, 18446744069414584320, 1);
}

/// 7^((p-1)/2) mod p.
proof fn lemma_cert_half()
    ensures
        powmod(7, 9223372034707292160, 18446744069414584321) == 18446744069414584320,
{
    let m: nat = 18446744069414584321;
    lemma_powmod_zero(7, m);
    lemma_powmod_step(7, 1, m, 1, 7);
    lemma_powmod_step(7, 3, m, 7, 343);
    lemma_powmod_step(7, 7, m, 343, 823543);
    lemma_powmod_step(7, 15, m, 823543, 4747561509943);
    lemma_powmod_step(7, 31, m, 4747561509943, 11074261478625843323);
    lemma_powmod_step(7, 63, m, 11074261478625843323, 12148266161370408270);
    lemma_powmod_step(7, 127, m, 12148266161370408270, 7007601668316978083);
    lemma_powmod_step(7, 255, m, 7007601668316978083, 8125271997680889877);
    lemma_powmod_step(7, 511, m, 8125271997680889877, 2624486902016877951);
    lemma_powmod_step(7, 1023, m, 2624486902016877951, 8253119735826302939);
    lemma_powmod_step(7, 2047, m, 8253119735826302939, 3543566522599720475);
    lemma_powmod_step(7, 4095, m, 3543566522599720475, 11981551684735969599);
    lemma_powmod_step(7, 8191, m, 11981551684735969599, 10062120588441922115);
    lemma_powmod_step(7, 16383, m, 10062120588441922115, 10485806445487905393);
    lemma_powmod_step(7, 32767, m, 10485806445487905393, 4139485063330164956);
    lemma_powmod_step(7, 65535, m, 4139485063330164956, 12134830135347446949);
    lemma_powmod_step(7, 131071, m, 12134830135347446949, 4326791766630348883);
    lemma_powmod_step(7, 262143, m, 4326791766630348883, 206761543466863628);
    lemma_powmod_step(7, 524287, m, 206761543466863628, 10086585273483141421);
    lemma_powmod_step(7, 1048575, m, 10086585273483141421, 1855730417186139594);
    lemma_powmod_step(7, 2097151, m, 1855730417186139594, 7626447102712710903);
    lemma_powmod_step(7, 4194303, m, 7626447102712710903, 7790920094560990216);
    lemma_powmod_step(7, 8388607, m, 7790920094560990216, 5901922255895126089);
    lemma_powmod_step(7, 16777215, m, 5901922255895126089, 8935258787870022506);
    lemma_powmod_step(7, 33554431, m, 8935258787870022506, 13093775858033092690);
    lemma_powmod_step(7, 67108863, m, 13093775858033092690, 11243737384857129666);
    lemma_powmod_step(7, 134217727, m, 11243737384857129666, 2063617152444052883);
    lemma_powmod_step(7, 268435455, m, 2063617152444052883, 13064848991504552222);
    lemma_powmod_step(7, 536870911, m, 13064848991504552222, 16593403251012455084);
    lemma_powmod_step(7, 1073741823, m, 16593403251012455084, 5859133952941131217);
    lemma_powmod_step(7, 2147483647, m, 5859133952941131217, 15659105665374529263);
    lemma_powmod_step(7, 4294967295, m, 15659105665374529263, 1753635133440165772);
    lemma_powmod_step(7, 8589934590, m, 1753635133440165772, 4614640910117430873);
    lemma_powmod_step(7, 17179869180, m, 4614640910117430873, 9123114210336311365);
    lemma_powmod_step(7, 34359738360, m, 9123114210336311365, 16116352524544190054);
    lemma_powmod_step(7, 68719476720, m, 16116352524544190054, 6414415596519834757);
    lemma_powmod_step(7, 137438953440, m, 6414415596519834757, 1213594585890690845);
    lemma_powmod_step(7, 274877906880, m, 1213594585890690845, 17096174751763063430);
    lemma_powmod_step(7, 549755813760, m, 17096174751763063430, 5456943929260765144);
    lemma_powmod_step(7, 1099511627520, m, 5456943929260765144, 9713644485405565297);
    lemma_powmod_step(7, 2199023255040, m, 9713644485405565297, 16905767614792059275);
    lemma_powmod_step(7, 4398046510080, m, 16905767614792059275, 5416168637041100469);
    lemma_powmod_step(7, 8796093020160, m, 5416168637041100469, 17654865857378133588);
    lemma_powmod_step(7, 17592186040320, m, 17654865857378133588, 3511170319078647661);
    lemma_powmod_step(7, 35184372080640, m, 3511170319078647661, 18146160046829613826);
    lemma_powmod_step(7, 70368744161280, m, 18146160046829613826, 9306717745644682924);
    lemma_powmod_step(7, 140737488322560, m, 9306717745644682924, 12380578893860276750);
    lemma_powmod_step(7, 281474976645120, m, 12380578893860276750, 6115771955107415310);
    lemma_powmod_step(7, 562949953290240, m, 6115771955107415310, 17776499369601055404);
    lemma_powmod_step(7, 1125899906580480, m, 17776499369601055404, 16207902636198568418);
    lemma_powmod_step(7, 2251799813160960, m, 16207902636198568418, 1532612707718625687);
    lemma_powmod_step(7, 4503599626321920, m, 1532612707718625687, 17492915097719143606);
    lemma_powmod_step(7, 9007199252643840, m, 17492915097719143606, 455906449640507599);
    lemma_powmod_step(7, 18014398505287680, m, 455906449640507599, 11353340290879379826);
    lemma_powmod_step(7, 36028797010575360, m, 11353340290879379826, 1803076106186727246);
    lemma_powmod_step(7, 72057594021150720, m, 1803076106186727246, 13797081185216407910);
    lemma_powmod_step(7, 144115188042301440, m, 13797081185216407910, 17870292113338400769);
    lemma_powmod_step(7, 288230376084602880, m, 17870292113338400769, 549755813888);
    lemma_powmod_step(7, 576460752169205760, m, 549755813888, 70368744161280);
    lemma_powmod_step(7, 1152921504338411520, m, 70368744161280, 17293822564807737345);
    lemma_powmod_step(7, 2305843008676823040, m, 17293822564807737345, 18446744069397807105);
    lemma_powmod_step(7, 4611686017353646080, m, 18446744069397807105, 281474976710656);
    lemma_powmod_step(7, 9223372034707292160, m, 281474976710656, 18446744069414584320);
}

/// 7^((p-1)/3) mod p.
proof fn lemma_cert_third()
    ensures
        powmod(7, 6148914689804861440, 18446744069414584321) == 18446744065119617025,
{
    let m: nat = 18446744069414584321;
    lemma_powmod_zero(7, m);
    lemma_powmod_step(7, 1, m, 1, 7);
    lemma_powmod_step(7, 2, m, 7, 49);
    lemma_powmod_step(7, 5, m, 49, 16807);
    lemma_powmod_step(7, 10, m, 16807, 282475249);
    lemma_powmod_step(7, 21, m, 282475249, 558545864083284007);
    lemma_powmod_step(7, 42, m, 558545864083284007, 8022122801911579307);
    lemma_powmod_step(7, 85, m, 8022122801911579307, 12800950874161730379);
    lemma_powmod_step(7, 170, m, 12800950874161730379, 14271156885488964304);
    lemma_powmod_step(7, 341, m, 14271156885488964304, 9587782661304029968);
    lemma_powmod_step(7, 682, m, 9587782661304029968, 10276868313419320864);
    lemma_powmod_step(7, 1365, m, 10276868313419320864, 15061306595140985043);
    lemma_powmod_step(7, 2730, m, 15061306595140985043, 10087193495066827832);
    lemma_powmod_step(7, 5461, m, 10087193495066827832, 12984983231508602376);
    lemma_powmod_step(7, 10922, m, 12984983231508602376, 1362657970957379548);
    lemma_powmod_step(7, 21845, m, 1362657970957379548, 11834541208736377360);
    lemma_powmod_step(7, 43690, m, 11834541208736377360, 15486580570079272365);
    lemma_powmod_step(7, 87381, m, 15486580570079272365, 2195267778297645936);
    lemma_powmod_step(7, 174762, m, 2195267778297645936, 12545318111885672966);
    lemma_powmod_step(7, 349525, m, 12545318111885672966, 3239519442280833256);
    lemma_powmod_step(7, 699050, m, 3239519442280833256, 11109814195885452171);
    lemma_powmod_step(7, 1398101, m, 11109814195885452171, 4804669246163822745);
    lemma_powmod_step(7, 2796202, m, 4804669246163822745, 438903447396483212);
    lemma_powmod_step(7, 5592405, m, 438903447396483212, 5017700972839514350);
    lemma_powmod_step(7, 11184810, m, 5017700972839514350, 7499557959359525151);
    lemma_powmod_step(7, 22369621, m, 7499557959359525151, 8616883547669016587);
    lemma_powmod_step(7, 44739242, m, 8616883547669016587, 458110968676413213);
    lemma_powmod_step(7, 89478485, m, 458110968676413213, 11751894947584113056);
    lemma_powmod_step(7, 178956970, m, 11751894947584113056, 525895266577965633);
    lemma_powmod_step(7, 357913941, m, 525895266577965633, 3177182820897284811);
    lemma_powmod_step(7, 715827882, m, 3177182820897284811, 7964267603545906836);
    lemma_powmod_step(7, 1431655765, m, 7964267603545906836, 14159254819154955796);
    lemma_powmod_step(7, 2863311530, m, 14159254819154955796, 998724450546658713);
    lemma_powmod_step(7, 5726623060, m, 998724450546658713, 1811047956385014016);
    lemma_powmod_step(7, 11453246120, m, 1811047956385014016, 2957134717709447844);
    lemma_powmod_step(7, 22906492240, m, 2957134717709447844, 8418656202527058970);
    lemma_powmod_step(7, 45812984480, m, 8418656202527058970, 9344165103595421707);
    lemma_powmod_step(7, 91625968960, m, 9344165103595421707, 12398472707942400981);
    lemma_powmod_step(7, 183251937920, m, 12398472707942400981, 10977358340789161543);
    lemma_powmod_step(7, 366503875840, m, 10977358340789161543, 14519574879452399500);
    lemma_powmod_step(7, 733007751680, m, 14519574879452399500, 3056692624244734627);
    lemma_powmod_step(7, 1466015503360, m, 3056692624244734627, 17973258314804772181);
    lemma_powmod_step(7, 2932031006720, m, 17973258314804772181, 15462695660743809749);
    lemma_powmod_step(7, 5864062013440, m, 15462695660743809749, 18046908317468628738);
    lemma_powmod_step(7, 11728124026880, m, 18046908317468628738, 9144605907772536802);
    lemma_powmod_step(7, 23456248053760, m, 9144605907772536802, 8796482344486648840);
    lemma_powmod_step(7, 46912496107520, m, 8796482344486648840, 3596945015050375886);
    lemma_powmod_step(7, 93824992215040, m, 3596945015050375886, 4201997653601256896);
    lemma_powmod_step(7, 187649984430080, m, 4201997653601256896, 6905479200839918232);
    lemma_powmod_step(7, 375299968860160, m, 6905479200839918232, 1725491680989254570);
    lemma_powmod_step(7, 750599937720320, m, 1725491680989254570, 12370230134295797906);
    lemma_powmod_step(7, 1501199875440640, m, 12370230134295797906, 3734230229149707555);
    lemma_powmod_step(7, 3002399750881280, m, 3734230229149707555, 16496341184493220914);
    lemma_powmod_step(7, 6004799501762560, m, 16496341184493220914, 15331777707844533717);
    lemma_powmod_step(7, 12009599003525120, m, 15331777707844533717, 11895029263313522992);
    lemma_powmod_step(7, 24019198007050240, m, 11895029263313522992, 11373273867503537004);
    lemma_powmod_step(7, 48038396014100480, m, 11373273867503537004, 13835058050987180033);
    lemma_powmod_step(7, 96076792028200960, m, 13835058050987180033, 35184372080640);
    lemma_powmod_step(7, 192153584056401920, m, 35184372080640, 18158513693262872577);
    lemma_powmod_step(7, 384307168112803840, m, 18158513693262872577, 18446744069413535745);
    lemma_powmod_step(7, 768614336225607680, m, 18446744069413535745, 1099511627776);
    lemma_powmod_step(7, 1537228672451215360, m, 1099511627776, 281474976645120);
    lemma_powmod_step(7, 3074457344902430720, m, 281474976645120, 18446744065119617026);
    lemma_powmod_step(7, 6148914689804861440, m, 18446744065119617026, 18446744065119617025);
}

/// 11^((p-1)/2) mod p: 11 is not a square.
pub proof fn lemma_eleven_half()
    ensures
        powmod(11, 9223372034707292160, 18446744069414584321) == 18446744069414584320,
{
    let m: nat = 18446744069414584321;
    lemma_powmod_zero(11, m);
    lemma_powmod_step(11, 1, m, 1, 11);
    lemma_powmod_step(11, 3, m, 11, 1331);
    lemma_powmod_step(11, 7, m, 1331, 19487171);
    lemma_powmod_step(11, 15, m, 19487171, 4177248169415651);
    lemma_powmod_step(11, 31, m, 4177248169415651, 13646495886002613674);
    lemma_powmod_step(11, 63, m, 13646495886002613674, 12060476324067729567);
    lemma_powmod_step(11, 127, m, 12060476324067729567, 5181980720190309263);
    lemma_powmod_step(11, 255, m, 5181980720190309263, 7555638675869870337);
    lemma_powmod_step(11, 511, m, 7555638675869870337, 17533743595316088177);
    lemma_powmod_step(11, 1023, m, 17533743595316088177, 5067295485657677834);
    lemma_powmod_step(11, 2047, m, 5067295485657677834, 17623326470747422309);
    lemma_powmod_step(11, 4095, m, 17623326470747422309, 6766705590087198228);
    lemma_powmod_step(11, 8191, m, 6766705590087198228, 9008487760088362609);
    lemma_powmod_step(11, 16383, m, 9008487760088362609, 17000507407111829090);
    lemma_powmod_step(11, 32767, m, 17000507407111829090, 4640513204248575450);
    lemma_powmod_step(11, 65535, m, 4640513204248575450, 9582660051937860062);
    lemma_powmod_step(11, 131071, m, 9582660051937860062, 16314657085455129819);
    lemma_powmod_step(11, 262143, m, 16314657085455129819, 18170566249385746153);
    lemma_powmod_step(11, 524287, m, 18170566249385746153, 16537027189883879905);
    lemma_powmod_step(11, 1048575, m, 16537027189883879905, 9741962103283240484);
    lemma_powmod_step(11, 2097151, m, 9741962103283240484, 17242278283605340265);
    lemma_powmod_step(11, 4194303, m, 17242278283605340265, 13304862706607232839);
    lemma_powmod_step(11, 8388607, m, 13304862706607232839, 10313428537244988054);
    lemma_powmod_step(11, 16777215, m, 10313428537244988054, 3039002198330998599);
    lemma_powmod_step(11, 33554431, m, 3039002198330998599, 13204984403572687577);
    lemma_powmod_step(11, 67108863, m, 13204984403572687577, 14033257867232633381);
    lemma_powmod_step(11, 134217727, m, 14033257867232633381, 349085137091123849);
    lemma_powmod_step(11, 268435455, m, 349085137091123849, 15299030707639896779);
    lemma_powmod_step(11, 536870911, m, 15299030707639896779, 3560944812718694421);
    lemma_powmod_step(11, 1073741823, m, 3560944812718694421, 7930179233696064307);
    lemma_powmod_step(11, 2147483647, m, 7930179233696064307, 12230119787504449643);
    lemma_powmod_step(11, 4294967295, m, 12230119787504449643, 2741030659394132017);
    lemma_powmod_step(11, 8589934590, m, 2741030659394132017, 18005659617446971041);
    lemma_powmod_step(11, 17179869180, m, 18005659617446971041, 8090146725783155868);
    lemma_powmod_step(11, 34359738360, m, 8090146725783155868, 359969643911022317);
    lemma_powmod_step(11, 68719476720, m, 359969643911022317, 2409659110844403285);
    lemma_powmod_step(11, 137438953440, m, 2409659110844403285, 14457198646626852238);
    lemma_powmod_step(11, 274877906880, m, 14457198646626852238, 6296571128086426930);
    lemma_powmod_step(11, 549755813760, m, 6296571128086426930, 12001393755412780704);
    lemma_powmod_step(11, 1099511627520, m, 12001393755412780704, 16465232115590673622);
    lemma_powmod_step(11, 2199023255040, m, 16465232115590673622, 17876759634908243456);
    lemma_powmod_step(11, 4398046510080, m, 17876759634908243456, 13106174567173112601);
    lemma_powmod_step(11, 8796093020160, m, 13106174567173112601, 12296063776514326972);
    lemma_powmod_step(11, 17592186040320, m, 12296063776514326972, 13257928094073943943);
    lemma_powmod_step(11, 35184372080640, m, 13257928094073943943, 609606918342371656);
    lemma_powmod_step(11, 70368744161280, m, 609606918342371656, 7251729737659541681);
    lemma_powmod_step(11, 140737488322560, m, 7251729737659541681, 12181103973748076902);
    lemma_powmod_step(11, 281474976645120, m, 12181103973748076902, 13000449423483084890);
    lemma_powmod_step(11, 562949953290240, m, 13000449423483084890, 9404676918667014671);
    lemma_powmod_step(11, 1125899906580480, m, 9404676918667014671, 564919232188802511);
    lemma_powmod_step(11, 2251799813160960, m, 564919232188802511, 8058760000402131863);
    lemma_powmod_step(11, 4503599626321920, m, 8058760000402131863, 14582002928314338433);
    lemma_powmod_step(11, 9007199252643840, m, 14582002928314338433, 15089811602373348664);
    lemma_powmod_step(11, 18014398505287680, m, 15089811602373348664, 14099721646927849786);
    lemma_powmod_step(11, 36028797010575360, m, 14099721646927849786, 5263632251618544322);
    lemma_powmod_step(11, 72057594021150720, m, 5263632251618544322, 15118306729094611415);
    lemma_powmod_step(11, 144115188042301440, m, 15118306729094611415, 18446726477496979457);
    lemma_powmod_step(11, 288230376084602880, m, 18446726477496979457, 512);
    lemma_powmod_step(11, 576460752169205760, m, 512, 262144);
    lemma_powmod_step(11, 1152921504338411520, m, 262144, 68719476736);
    lemma_powmod_step(11, 2305843008676823040, m, 68719476736, 1099511627520);
    lemma_powmod_step(11, 4611686017353646080, m, 1099511627520, 18446462594437873665);
    lemma_powmod_step(11, 9223372034707292160, m, 18446462594437873665, 18446744069414584320);
}

/// A divisor above 1 gives a least divisor above 1.
proof fn lemma_least_divisor(n: nat, d: nat) -> (r: nat)
    requires
        1 < d,
        n % d == 0,
    ensures
        1 < r <= d,
        n % r == 0,
        forall|e: nat| 1 < e < r ==> #[trigger] (n % e) != 0,
    decreases d,
{
    if exists|e: nat| 1 < e < d && #[trigger] (n % e) == 0 {
        let e = choose|e: nat| 1 < e < d && #[trigger] (n % e) == 0;
        lemma_least_divisor(n, e)
    } else {
        d
    }
}

/// An exponent that gives 1 modulo r gives a least one.
proof fn lemma_least_exponent(r: nat, e: nat) -> (o: nat)
    requires
        r > 1,
        e >= 1,
        pow(7, e) % (r as int) == 1,
    ensures
        1 <= o <= e,
        pow(7, o) % (r as int) == 1,
        forall|f: nat| 1 <= f < o ==> #[trigger] pow(7, f) % (r as int) != 1,
    decreases e,
{
    if exists|f: nat| 1 <= f < e && #[trigger] pow(7, f) % (r as int) == 1 {
        let f = choose|f: nat| 1 <= f < e && #[trigger] pow(7, f) % (r as int) == 1;
        lemma_least_exponent(r, f)
    } else {
        e
    }
}

/// A power of 7 seen modulo a divisor r of p.
proof fn lemma_pow_mod_divisor(e: nat, r: nat)
    requires
        r > 1,
        modulus() % r == 0,
    ensures
        pow(7, e) % (r as int) == powmod(7, e, modulus()) % r,
{
    lemma_powmod(7, e, modulus());
    let k = modulus() / r;
    lemma_fundamental_div_mod(modulus() as int, r as int);
    assert(modulus() == r * k);
    assert(k > 0) by (nonlinear_arith)
        requires
            18446744069414584321 == r * k,
    ;
    lemma_mod_mod(pow(7, e), r as int, k as int);
}

/// If r divides x and y then it divides u x + v y.
proof fn lemma_divides_combination(x: int, y: int, u: int, v: int, r: int)
    requires
        r > 0,
        x % r == 0,
        y % r == 0,
    ensures
        (u * x + v * y) % r == 0,
{
    lemma_fundamental_div_mod(x, r);
    lemma_fundamental_div_mod(y, r);
    let a = x / r;
    let b = y / r;
    assert(u * x + v * y == r * (u * a + v * b)) by (nonlinear_arith)
        requires
            x == r * a,
            y == r * b,
    ;
    lemma_mod_multiples_basic(u * a + v * b, r);
    assert((u * a + v * b) * r == r * (u * a + v * b)) by (nonlinear_arith);
}

/// 7^(o t) is 1 modulo r when 7^o is.
proof fn lemma_pow_multiple_one(o: nat, t: nat, r: nat)
    requires
        r > 1,
        pow(7, o) % (r as int) == 1,
    ensures
        pow(7, o * t) % (r as int) == 1,
{
    lemma_pow_multiplies(7, o, t);
    lemma_pow_mod_noop(pow(7, o), t, r as int);
    lemma1_pow(t);
    lemma_small_mod(1, r);
}

/// Below p, powers of 7 are not divisible by a divisor r of p.
proof fn lemma_pow_nonzero(i: nat, r: nat)
    requires
        r > 1,
        i <= 18446744069414584320,
        pow(7, 18446744069414584320) % (r as int) == 1,
    ensures
        pow(7, i) % (r as int) != 0,
{
    let rest = (18446744069414584320 - i) as nat;
    lemma_pow_adds(7, i, rest);
    assert(i + rest == 18446744069414584320);
    lemma_mul_mod_noop(pow(7, i), pow(7, rest), r as int);
    if pow(7, i) % (r as int) == 0 {
        lemma_small_mod(0, r);
        assert(0 * (pow(7, rest) % (r as int)) == 0);
    }
}

/// Pigeonhole: some exponent from 1 to r - 1 gives 1 modulo r.
proof fn lemma_small_exponent(r: nat) -> (e: nat)
    requires
        1 < r < 18446744069414584320,
        pow(7, 18446744069414584320) % (r as int) == 1,
    ensures
        1 <= e < r,
        pow(7, e) % (r as int) == 1,
{
    let f = |i: int| pow(7, i as nat) % (r as int);
    let dom = set_int_range(0, r as int);
    let img = dom.map(f);
    let target = set_int_range(1, r as int);
    lemma_int_range(0, r as int);
    lemma_int_range(1, r as int);
    assert(img.subset_of(target)) by {
        assert forall|y: int| img.contains(y) implies target.contains(y) by {
            let i = choose|i: int| dom.contains(i) && f(i) == y;
            lemma_pow_nonzero(i as nat, r);
        }
    }
    if injective_on(f, dom) {
        lemma_map_size(dom, img, f);
        lemma_len_subset(img, target);
        assert(false);
    }
    let (i, j) = choose|i: int, j: int| dom.contains(i) && dom.contains(j) && i != j && f(i) == f(j);
    let (lo, hi) = if i < j { (i as nat, j as nat) } else { (j as nat, i as nat) };
    assert(pow(7, lo) % (r as int) == pow(7, hi) % (r as int));
    let d = (hi - lo) as nat;
    let x = pow(7, (18446744069414584320 - hi) as nat);
    lemma_pow_adds(7, (18446744069414584320 - hi) as nat, hi);
    lemma_pow_adds(7, lo, d);
    assert(x * pow(7, hi) == pow(7, 18446744069414584320));
    lemma_mul_mod_noop_right(x, pow(7, lo), r as int);
    lemma_mul_mod_noop_right(x, pow(7, hi), r as int);
    assert((x * pow(7, lo)) % (r as int) == 1);
    assert(x * pow(7, hi) == (x * pow(7, lo)) * pow(7, d)) by (nonlinear_arith)
        requires
            pow(7, hi) == pow(7, lo) * pow(7, d),
    ;
    let y = x * pow(7, lo);
    assert(y * pow(7, d) == pow(7, 18446744069414584320));
    lemma_mul_mod_noop_left(y, pow(7, d), r as int);
    assert(y % (r as int) == 1);
    assert((y % (r as int)) * pow(7, d) == pow(7, d)) by (nonlinear_arith)
        requires
            y % (r as int) == 1,
    ;
    d
}

/// Halving: an odd k with k x = 2^j y leaves 2^j dividing x.
proof fn lemma_odd_times(k: int, x: int, y: int, j: nat)
    requires
        k > 0,
        k % 2 == 1,
        x >= 0,
        y >= 0,
        k * x == pow(2, j) * y,
    ensures
        x % pow(2, j) == 0,
    decreases j,
{
    lemma_pow_positive(2, j);
    if j == 0 {
        lemma_pow0(2);
    } else {
        let j1 = (j - 1) as nat;
        lemma_pow_adds(2, 1, j1);
        lemma_pow1(2);
        assert(pow(2, j) == 2 * pow(2, j1));
        lemma_pow_positive(2, j1);
        assert(k * x == 2 * (pow(2, j1) * y)) by (nonlinear_arith)
            requires
                k * x == pow(2, j) * y,
                pow(2, j) == 2 * pow(2, j1),
        ;
        lemma_mul_mod_noop(k, x, 2);
        lemma_mod_multiples_basic(pow(2, j1) * y, 2);
        assert((pow(2, j1) * y) * 2 == 2 * (pow(2, j1) * y)) by (nonlinear_arith);
        assert((k % 2) * (x % 2) == x % 2);
        lemma_mod_twice(x, 2);
        assert(x % 2 == 0);
        let x1 = x / 2;
        assert(k * x1 == pow(2, j1) * y) by (nonlinear_arith)
            requires
                x == 2 * x1,
                k * x == 2 * (pow(2, j1) * y),
        ;
        lemma_odd_times(k, x1, y, j1);
        lemma_fundamental_div_mod(x1, pow(2, j1));
        let z = x1 / pow(2, j1);
        assert(x == pow(2, j) * z) by (nonlinear_arith)
            requires
                x == 2 * x1,
                x1 == pow(2, j1) * z,
                pow(2, j) == 2 * pow(2, j1),
        ;
        lemma_mod_multiples_basic(z, pow(2, j));
        assert(z * pow(2, j) == pow(2, j) * z) by (nonlinear_arith);
    }
}

/// p = 2^64 - 2^32 + 1 is prime.  The certificate: 7^(p-1) = 1 while
/// 7^((p-1)/2) and 7^((p-1)/3) minus 1 share no factor with p, so the order of
/// 7 modulo any prime factor r of p is a multiple of 3 * 2^32; that order is
/// below r, so r exceeds the square root of p.
pub proof fn lemma_modulus_is_prime()
    ensures
        is_prime(modulus()),
{
    let n = modulus();
    assert forall|d: nat| 1 < d < n implies #[trigger] (n % d) != 0 by {
        lemma_no_divisor(d);
    }
}

/// No number strictly between 1 and p divides p.
proof fn lemma_no_divisor(d: nat)
    requires
        1 < d < modulus(),
    ensures
        modulus() % d != 0,
{
    if modulus() % d == 0 {
        let n = modulus();
        let nm1: nat = 18446744069414584320;
        let r = lemma_least_divisor(n, d);
        // r * r <= n
        lemma_fundamental_div_mod(n as int, r as int);
        let m = n / r;
        assert(n == r * m);
        assert(m > 1) by (nonlinear_arith)
            requires
                n == r * m,
                r < n,
                r > 1,
        ;
        lemma_mod_multiples_basic(r as int, m as int);
        assert(r * m == m * r) by (nonlinear_arith);
        assert(n % m == 0);
        assert(m >= r);
        assert(r * r <= n) by (nonlinear_arith)
            requires
                n == r * m,
                m >= r,
                r > 0,
        ;
        // 7^(p-1) = 1 mod r
        lemma_cert_full();
        lemma_pow_mod_divisor(nm1, r);
        lemma_small_mod(1, r);
        assert(pow(7, nm1) % (r as int) == 1);
        let e = lemma_small_exponent(r);
        let o = lemma_least_exponent(r, e);
        // o divides p - 1
        lemma_fundamental_div_mod(nm1 as int, o as int);
        let k = nm1 / o;
        let rem = nm1 % o;
        assert(nm1 == o * k + rem);
        lemma_pow_adds(7, o * k, rem);
        lemma_pow_multiple_one(o, k, r);
        lemma_mul_mod_noop_left(pow(7, o * k), pow(7, rem), r as int);
        lemma_small_mod((pow(7, rem) % (r as int)) as nat, r);
        if rem > 0 {
            assert(pow(7, rem) % (r as int) == 1);
            assert(false);
        }
        assert(nm1 == o * k);
        // r is odd, so 7^((p-1)/2) = p - 1 = -1 modulo r is not 1
        lemma_cert_half();
        lemma_pow_mod_divisor(9223372034707292160, r);
        if k % 2 == 0 {
            let k2 = k / 2;
            assert(o * k == 2 * (o * k2)) by (nonlinear_arith)
                requires
                    k == 2 * k2,
            ;
            assert(o * k2 == 9223372034707292160);
            lemma_pow_multiple_one(o, k2, r);
            assert((nm1 % r) == 1);
            lemma_mod_sub_multiples_vanish(1, r as int);
            lemma_add_mod_noop(nm1 as int, 1, r as int);
            assert(n % r == 0);
            assert(((1int + 1) % (r as int)) == 0);
            lemma_small_mod(2, r);
            assert(r == 2);
            assert(n % 2 == 1);
            assert(false);
        }
        // 7^((p-1)/3) - 1 and p have the Bezout combination 1
        lemma_cert_third();
        lemma_pow_mod_divisor(6148914689804861440, r);
        if k % 3 == 0 {
            let k3 = k / 3;
            assert(o * k == 3 * (o * k3)) by (nonlinear_arith)
                requires
                    k == 3 * k3,
            ;
            assert(o * k3 == 6148914689804861440);
            lemma_pow_multiple_one(o, k3, r);
            let a3: int = 18446744065119617025;
            assert(a3 % (r as int) == 1);
            lemma_sub_mod_noop(a3, 1, r as int);
            assert((a3 - 1) % (r as int) == 0) by {
                lemma_small_mod(1, r);
                lemma_small_mod(0, r);
            }
            lemma_divides_combination(a3 - 1, n as int, 6148914691236517205, -6148914689804861439, r as int);
            assert(6148914691236517205 * (a3 - 1) + (-6148914689804861439) * (n as int) == 1);
            lemma_small_mod(1, r);
            assert(false);
        }
        // so 3 * 2^32 divides o
        assert(k * o == pow(2, 32) * (3 * 1431655765)) by {
            assert(pow(2, 32) == 4294967296) by {
                vstd::arithmetic::power2::lemma2_to64();
                vstd::arithmetic::power2::lemma_pow2(32);
            }
            assert(k * o == o * k) by (nonlinear_arith);
        }
        lemma_odd_times(k as int, o as int, 4294967295int, 32);
        assert(pow(2, 32) == 4294967296) by {
            vstd::arithmetic::power2::lemma2_to64();
            vstd::arithmetic::power2::lemma_pow2(32);
        }
        let o1 = o / 4294967296;
        lemma_fundamental_div_mod(o as int, 4294967296);
        assert(o == 4294967296 * o1);
        assert(k * o1 == 3 * 1431655765) by (nonlinear_arith)
            requires
                k * o == 4294967296 * (3 * 1431655765),
                o == 4294967296 * o1,
        ;
        lemma_mul_mod_noop(k as int, o1 as int, 3);
    assert((k * o1) % 3 == 0);
    let a = k % 3;
    let b = o1 % 3;
    assert(b == 0) by {
        if b == 1 {
            assert(a * b == a) by (nonlinear_arith)
                requires
                    b == 1,
            ;
        } else if b == 2 {
            assert(a * b == a + a) by (nonlinear_arith)
                requires
                    b == 2,
            ;
        }
    }
    assert(o1 >= 3) by (nonlinear_arith)
            requires
                o1 % 3 == 0,
                o == 4294967296 * o1,
                o >= 1,
        ;
        assert(o >= 12884901888);
        assert(r * r > n) by (nonlinear_arith)
            requires
                r > o,
                o >= 12884901888,
                n == 18446744069414584321,
        ;

    }
}

/// Euclid's lemma for p: p divides x y with 0 < x < p only if it divides y.
pub proof fn lemma_euclid(x: nat, y: nat)
    requires
        0 < x < modulus(),
        (x * y) % modulus() == 0,
    ensures
        y % modulus() == 0,
    decreases x,
{
    let p = modulus();
    lemma_modulus_is_prime();
    lemma_fundamental_div_mod(p as int, x as int);
    let q = p / x;
    let rem = p % x;
    if rem == 0 {
        assert(!(1 < x < p) || p % x != 0);
        assert(x == 1);
        assert(x * y == y);
    } else {
        lemma_mod_multiples_basic(y as int, p as int);
        assert(y * p == p * y) by (nonlinear_arith);
        lemma_divides_combination((p * y) as int, (x * y) as int, 1, -(q as int), p as int);
        assert(rem * y == 1 * (p * y) + (-(q as int)) * (x * y)) by (nonlinear_arith)
            requires
                p == x * q + rem,
        ;
        lemma_mod_bound(p as int, x as int);
        lemma_euclid(rem, y);
    }
}

/// The only square roots of 1 modulo p are 1 and p - 1.
pub proof fn lemma_square_root_of_one(x: nat)
    requires
        x < modulus(),
        (x * x) % modulus() == 1,
    ensures
        x == 1 || x == modulus() - 1,
{
    let p = modulus();
    if x == 0 {
        lemma_small_mod(0, p);
    } else if x != 1 {
        assert((x - 1) * (x + 1) == x * x - 1) by (nonlinear_arith);
        lemma_sub_mod_noop((x * x) as int, 1, p as int);
        lemma_small_mod(1, p);
        lemma_small_mod(0, p);
        assert(((x - 1) * (x + 1)) % (p as int) == 0);
        lemma_euclid((x - 1) as nat, x + 1);
        if x + 1 < p {
            lemma_small_mod(x + 1, p);
        }
    }
}

/// A value has at most two square roots modulo p, s and p - s.
pub proof fn lemma_two_roots(s1: nat, s2: nat)
    requires
        s1 < modulus(),
        s2 < modulus(),
        (s1 * s1) % modulus() == (s2 * s2) % modulus(),
    ensures
        s1 == s2 || s1 + s2 == modulus(),
{
    let p = modulus();
    if s1 != s2 {
        let (hi, lo) = if s1 > s2 { (s1, s2) } else { (s2, s1) };
        assert((hi * hi) % p == (lo * lo) % p);
        let x = (hi - lo) as nat;
        assert(x * (hi + lo) == hi * hi - lo * lo) by (nonlinear_arith)
            requires
                x == hi - lo,
        ;
        lemma_sub_mod_noop((hi * hi) as int, (lo * lo) as int, p as int);
        lemma_small_mod(0, p);
        assert(((hi * hi) as int - (lo * lo) as int) % (p as int) == 0) by {
            lemma_mod_bound((lo * lo) as int, p as int);
        }
        lemma_euclid(x, hi + lo);
        lemma_fundamental_div_mod((hi + lo) as int, p as int);
        if hi + lo != p {
            assert(hi + lo > 0);
            assert((hi + lo) / p == 1 || (hi + lo) / p == 0) by {
                lemma_div_is_ordered((hi + lo) as int, (2 * p) as int, p as int);
                lemma_div_multiples_vanish(2, p as int);
            }
        }
    }
}

/// Binomial coefficients by Pascal's rule.
pub open spec fn binom(n: nat, k: nat) -> nat
    decreases n,
{
    if k == 0 {
        1
    } else if n == 0 {
        0
    } else {
        binom((n - 1) as nat, (k - 1) as nat) + binom((n - 1) as nat, k)
    }
}

/// The first k terms of the binomial expansion of (x + 1)^n.
pub open spec fn binom_sum(n: nat, x: int, k: nat) -> int
    decreases k,
{
    if k == 0 {
        0
    } else {
        binom_sum(n, x, (k - 1) as nat) + binom(n, (k - 1) as nat) * pow(x, (k - 1) as nat)
    }
}

proof fn lemma_binom_above(n: nat, k: nat)
    requires
        k > n,
    ensures
        binom(n, k) == 0,
    decreases n,
{
    if n > 0 {
        lemma_binom_above((n - 1) as nat, (k - 1) as nat);
        lemma_binom_above((n - 1) as nat, k);
    }
}

proof fn lemma_binom_diag(n: nat)
    ensures
        binom(n, n) == 1,
    decreases n,
{
    if n > 0 {
        lemma_binom_diag((n - 1) as nat);
        lemma_binom_above((n - 1) as nat, n);
    }
}

proof fn lemma_pow_succ(x: int, k: nat)
    ensures
        pow(x, k + 1) == x * pow(x, k),
{
    lemma_pow_adds(x, 1, k);
    lemma_pow1(x);
}

/// Pascal's rule lifted to the partial sums.
proof fn lemma_binom_sum_step(n: nat, x: int, k: nat)
    ensures
        binom_sum(n + 1, x, k + 1) == x * binom_sum(n, x, k) + binom_sum(n, x, k + 1),
    decreases k,
{
    if k == 0 {
        lemma_pow0(x);
        assert(binom_sum(n + 1, x, 0) == 0);
        assert(binom_sum(n + 1, x, 1) == binom(n + 1, 0) * pow(x, 0));
        assert(binom_sum(n, x, 0) == 0);
        assert(binom_sum(n, x, 1) == binom(n, 0) * pow(x, 0));
    } else {
        let k1 = (k - 1) as nat;
        lemma_binom_sum_step(n, x, k1);
        lemma_pow_succ(x, k1);
        let a = binom_sum(n, x, k1);
        let b1 = binom(n, k1) as int;
        let b2 = binom(n, k) as int;
        let xp = pow(x, k1);
        assert(binom(n + 1, k) == binom(n, k1) + binom(n, k));
        assert(binom_sum(n + 1, x, k + 1) == binom_sum(n + 1, x, k) + binom(n + 1, k) * pow(x, k));
        assert(binom_sum(n, x, k) == a + b1 * xp);
        assert(binom_sum(n, x, k + 1) == binom_sum(n, x, k) + b2 * pow(x, k));
        assert((b1 + b2) * (x * xp) == x * (b1 * xp) + b2 * (x * xp)) by (nonlinear_arith);
        assert(x * (a + b1 * xp) == x * a + x * (b1 * xp)) by (nonlinear_arith);
    }
}

/// The binomial theorem for (x + 1)^n.
pub proof fn lemma_binomial(x: int, n: nat)
    ensures
        pow(x + 1, n) == binom_sum(n, x, n + 1),
    decreases n,
{
    if n == 0 {
        lemma_pow0(x + 1);
        lemma_pow0(x);
        assert(binom_sum(0, x, 0) == 0);
        assert(binom_sum(0, x, 1) == binom(0, 0) * pow(x, 0));
    } else {
        let n1 = (n - 1) as nat;
        lemma_binomial(x, n1);
        lemma_pow_succ(x + 1, n1);
        lemma_binom_sum_step(n1, x, n);
        lemma_binom_above(n1, n);
        assert(binom_sum(n1, x, n + 1) == binom_sum(n1, x, n) + binom(n1, n) * pow(x, n));
        assert(binom(n1, n) * pow(x, n) == 0);
        let b = binom_sum(n1, x, n);
        assert((x + 1) * b == x * b + b) by (nonlinear_arith);
    }
}

/// Absorption: k C(n, k) = n C(n - 1, k - 1).
proof fn lemma_binom_absorb(n: nat, k: nat)
    requires
        n >= 1,
        k >= 1,
    ensures
        k * binom(n, k) == n * binom((n - 1) as nat, (k - 1) as nat),
    decreases n,
{
    let n1 = (n - 1) as nat;
    let k1 = (k - 1) as nat;
    assert(binom(n, k) == binom(n1, k1) + binom(n1, k));
    if n1 == 0 {
        lemma_binom_above(0, k);
        if k > 1 {
            lemma_binom_above(0, k1);
        }
        assert(k * binom(n, k) == k * binom(n1, k1)) by (nonlinear_arith)
            requires
                binom(n, k) == binom(n1, k1) + binom(n1, k),
                binom(n1, k) == 0,
        ;
        assert(k * binom(n1, k1) == 1 * binom(n1, k1)) by (nonlinear_arith)
            requires
                k > 1 ==> binom(n1, k1) == 0,
                k >= 1,
        ;
    } else {
        lemma_binom_absorb(n1, k);
        let c = binom(n1, k1) as int;
        if k == 1 {
            assert(binom(n1, 0) == 1);
            assert(1 * binom(n1, 1) == n1 * binom((n1 - 1) as nat, 0));
            assert(binom((n1 - 1) as nat, 0) == 1);
            assert(binom(n1, 1) == n1) by (nonlinear_arith)
                requires
                    1 * binom(n1, 1) == n1 * binom((n1 - 1) as nat, 0),
                    binom((n1 - 1) as nat, 0) == 1,
            ;
            assert(k * binom(n, k) == n * binom(n1, k1)) by (nonlinear_arith)
                requires
                    k == 1,
                    binom(n, k) == binom(n1, k1) + binom(n1, k),
                    binom(n1, k1) == 1,
                    binom(n1, k) == n1,
                    n == n1 + 1,
            ;
        } else {
            lemma_binom_absorb(n1, k1);
            let n2 = (n1 - 1) as nat;
            let k2 = (k1 - 1) as nat;
            assert(binom(n1, k1) == binom(n2, k2) + binom(n2, k1));
            assert(k * binom(n, k) == n * binom(n1, k1)) by (nonlinear_arith)
                requires
                    binom(n, k) == binom(n1, k1) + binom(n1, k),
                    k * binom(n1, k) == n1 * binom(n2, k1),
                    k1 * binom(n1, k1) == n1 * binom(n2, k2),
                    binom(n1, k1) == binom(n2, k2) + binom(n2, k1),
                    k == k1 + 1,
                    n == n1 + 1,
            ;
        }
    }
}

/// p divides C(p, k) for 0 < k < p.
proof fn lemma_binom_prime(k: nat)
    requires
        0 < k < modulus(),
    ensures
        binom(modulus(), k) % modulus() == 0,
{
    let p = modulus();
    lemma_binom_absorb(p, k);
    lemma_mod_multiples_basic(binom((p - 1) as nat, (k - 1) as nat) as int, p as int);
    assert(p * binom((p - 1) as nat, (k - 1) as nat) == binom((p - 1) as nat, (k - 1) as nat) * p) by (nonlinear_arith);
    lemma_euclid(k, binom(p, k));
}

/// The inner terms of (x + 1)^p vanish modulo p.
proof fn lemma_binom_sum_prime(x: int, k: nat)
    requires
        1 <= k <= modulus(),
    ensures
        (binom_sum(modulus(), x, k) - 1) % (modulus() as int) == 0,
    decreases k,
{
    let p = modulus() as int;
    if k == 1 {
        lemma_pow0(x);
        assert(binom_sum(modulus(), x, 0) == 0);
        assert(binom_sum(modulus(), x, 1) == binom(modulus(), 0) * pow(x, 0));
        lemma_small_mod(0, p as nat);
    } else {
        let k1 = (k - 1) as nat;
        lemma_binom_sum_prime(x, k1);
        lemma_binom_prime(k1);
        let c = binom(modulus(), k1) as int;
        lemma_fundamental_div_mod(c, p);
        let q = c / p;
        assert(c * pow(x, k1) == p * (q * pow(x, k1))) by (nonlinear_arith)
            requires
                c == p * q + c % p,
                c % p == 0,
        ;
        lemma_mod_multiples_vanish(q * pow(x, k1), binom_sum(modulus(), x, k1) - 1, p);
    }
}

/// x^p = x modulo p.
pub proof fn lemma_frobenius_base(x: nat)
    ensures
        pow(x as int, modulus()) % (modulus() as int) == (x as int) % (modulus() as int),
    decreases x,
{
    let p = modulus();
    if x == 0 {
        lemma0_pow(p);
    } else {
        let y = (x - 1) as nat;
        lemma_frobenius_base(y);
        lemma_binomial(y as int, p);
        lemma_binom_sum_prime(y as int, p);
        lemma_binom_diag(p);
        assert(binom_sum(p, y as int, p + 1) == binom_sum(p, y as int, p) + binom(p, p) * pow(y as int, p));
        let b = binom_sum(p, y as int, p);
        let t = pow(y as int, p);
        // (x)^p = b + t with b = 1 (mod p) and t = y (mod p)
        lemma_add_mod_noop(b, t, p as int);
        lemma_sub_mod_noop(b, 1, p as int);
        lemma_small_mod(1, p);
        lemma_small_mod(0, p);
        assert(b % (p as int) == 1) by {
            lemma_mod_bound(b, p as int);
        }
        lemma_add_mod_noop(1, y as int, p as int);
    }
}

/// Fermat's little theorem for p: a^(p-1) = 1 modulo p when p does not
/// divide a.
pub proof fn lemma_fermat(a: nat)
    requires
        a % modulus() != 0,
    ensures
        pow(a as int, (modulus() - 1) as nat) % (modulus() as int) == 1,
{
    let p = modulus();
    let am = a % p;
    lemma_frobenius_base(a);
    lemma_pow_succ(a as int, (p - 1) as nat);
    let y = pow(a as int, (p - 1) as nat) % (p as int);
    lemma_mod_bound(pow(a as int, (p - 1) as nat), p as int);
    lemma_mul_mod_noop_right(a as int, pow(a as int, (p - 1) as nat), p as int);
    lemma_mul_mod_noop_left(a as int, y, p as int);
    lemma_mod_bound(a as int, p as int);
    // am * y = am (mod p)
    assert((am * y) % (p as int) == am);
    if y == 0 {
        lemma_small_mod(0, p);
        assert(am * y == 0);
    } else {
        assert(am * (y - 1) == am * y - am) by (nonlinear_arith);
        lemma_sub_mod_noop(am * y, am as int, p as int);
        lemma_small_mod(am, p);
        lemma_small_mod(0, p);
        lemma_euclid(am, (y - 1) as nat);
        lemma_small_mod((y - 1) as nat, p);
    }
}

} // verus!
