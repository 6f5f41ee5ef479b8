pub mod scalar;
pub mod affine;
pub mod point;
pub mod weierstrass;
