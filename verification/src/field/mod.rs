pub mod goldilocks;
pub mod quintic;
pub mod goldilocks_avx2;
pub mod goldilocks_avx512;
pub mod quintic_avx;
pub mod prime;
