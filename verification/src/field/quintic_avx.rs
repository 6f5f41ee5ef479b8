use vstd::prelude::*;
use crate::field::quintic::{Fp5, fp5_add, fp5_sub};
use crate::field::goldilocks_avx2::GoldilocksFieldx4;

verus! {

/// Fp5 addition with the first four coefficients handled as one 4-lane
/// vector and the fifth on its own.
pub fn add(a: &Fp5, b: &Fp5) -> (r: Fp5)
    ensures
        r@ == fp5_add(a@, b@),
{
    let ax4 = GoldilocksFieldx4([a.0[0], a.0[1], a.0[2], a.0[3]]);
    let bx4 = GoldilocksFieldx4([b.0[0], b.0[1], b.0[2], b.0[3]]);
    let rx4 = ax4.add(&bx4).to_scalars();
    let r = Fp5([rx4[0], rx4[1], rx4[2], rx4[3], a.0[4].add(&b.0[4])]);
    assert(r@ =~= fp5_add(a@, b@));
    r
}

/// Fp5 subtraction with the first four coefficients handled as one 4-lane
/// vector and the fifth on its own.
pub fn sub(a: &Fp5, b: &Fp5) -> (r: Fp5)
    ensures
        r@ == fp5_sub(a@, b@),
{
    let ax4 = GoldilocksFieldx4([a.0[0], a.0[1], a.0[2], a.0[3]]);
    let bx4 = GoldilocksFieldx4([b.0[0], b.0[1], b.0[2], b.0[3]]);
    let rx4 = ax4.sub(&bx4).to_scalars();
    let r = Fp5([rx4[0], rx4[1], rx4[2], rx4[3], a.0[4].sub(&b.0[4])]);
    assert(r@ =~= fp5_sub(a@, b@));
    r
}

} // verus!
