use vstd::prelude::*;
use crate::field::goldilocks::{GoldilocksField, modulus, field_sub};

verus! {

/// Four Goldilocks elements processed lane by lane.
#[derive(Debug, Clone, Copy)]
pub struct GoldilocksFieldx4(pub [GoldilocksField; 4]);

impl GoldilocksFieldx4 {
    pub fn from_scalars(a: [GoldilocksField; 4]) -> (r: Self)
        ensures
            r.0 == a,
    {
        GoldilocksFieldx4(a)
    }

    pub fn to_scalars(&self) -> (r: [GoldilocksField; 4])
        ensures
            r == self.0,
    {
        self.0
    }

    /// Lane-wise field addition.
    pub fn add(&self, other: &Self) -> (r: Self)
        ensures
            forall|i: int| 0 <= i < 4 ==> #[trigger] r.0[i]@ == (self.0[i]@ + other.0[i]@) % modulus(),
    {
        GoldilocksFieldx4([
            self.0[0].add(&other.0[0]),
            self.0[1].add(&other.0[1]),
            self.0[2].add(&other.0[2]),
            self.0[3].add(&other.0[3]),
        ])
    }

    /// Lane-wise field subtraction.
    pub fn sub(&self, other: &Self) -> (r: Self)
        ensures
            forall|i: int| 0 <= i < 4 ==> #[trigger] r.0[i]@ == field_sub(self.0[i]@, other.0[i]@),
    {
        GoldilocksFieldx4([
            self.0[0].sub(&other.0[0]),
            self.0[1].sub(&other.0[1]),
            self.0[2].sub(&other.0[2]),
            self.0[3].sub(&other.0[3]),
        ])
    }

    /// Lane-wise field multiplication.
    pub fn mul(&self, other: &Self) -> (r: Self)
        ensures
            forall|i: int| 0 <= i < 4 ==> #[trigger] r.0[i]@ == (self.0[i]@ * other.0[i]@) % modulus(),
    {
        GoldilocksFieldx4([
            self.0[0].mul(&other.0[0]),
            self.0[1].mul(&other.0[1]),
            self.0[2].mul(&other.0[2]),
            self.0[3].mul(&other.0[3]),
        ])
    }
}

} // verus!
