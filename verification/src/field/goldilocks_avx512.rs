use vstd::prelude::*;
use crate::field::goldilocks::{GoldilocksField, modulus, field_sub};

verus! {

/// Eight Goldilocks elements processed lane by lane.
#[derive(Debug, Clone, Copy)]
pub struct GoldilocksFieldx8(pub [GoldilocksField; 8]);

impl GoldilocksFieldx8 {
    pub fn from_scalars(a: [GoldilocksField; 8]) -> (r: Self)
        ensures
            r.0 == a,
    {
        GoldilocksFieldx8(a)
    }

    pub fn to_scalars(&self) -> (r: [GoldilocksField; 8])
        ensures
            r == self.0,
    {
        self.0
    }

    /// Lane-wise field addition.
    pub fn add(&self, o: &Self) -> (r: Self)
        ensures
            forall|i: int| 0 <= i < 8 ==> #[trigger] r.0[i]@ == (self.0[i]@ + o.0[i]@) % modulus(),
    {
        let mut out = self.0;
        for i in 0..8
            invariant
                forall|j: int| 0 <= j < i ==> #[trigger] out[j]@ == (self.0[j]@ + o.0[j]@) % modulus(),
        {
            out[i] = self.0[i].add(&o.0[i]);
        }
        GoldilocksFieldx8(out)
    }

    /// Lane-wise field subtraction.
    pub fn sub(&self, o: &Self) -> (r: Self)
        ensures
            forall|i: int| 0 <= i < 8 ==> #[trigger] r.0[i]@ == field_sub(self.0[i]@, o.0[i]@),
    {
        let mut out = self.0;
        for i in 0..8
            invariant
                forall|j: int| 0 <= j < i ==> #[trigger] out[j]@ == field_sub(self.0[j]@, o.0[j]@),
        {
            out[i] = self.0[i].sub(&o.0[i]);
        }
        GoldilocksFieldx8(out)
    }

    /// Lane-wise field multiplication.
    pub fn mul(&self, o: &Self) -> (r: Self)
        ensures
            forall|i: int| 0 <= i < 8 ==> #[trigger] r.0[i]@ == (self.0[i]@ * o.0[i]@) % modulus(),
    {
        let mut out = self.0;
        for i in 0..8
            invariant
                forall|j: int| 0 <= j < i ==> #[trigger] out[j]@ == (self.0[j]@ * o.0[j]@) % modulus(),
        {
            out[i] = self.0[i].mul(&o.0[i]);
        }
        GoldilocksFieldx8(out)
    }
}

} // verus!
