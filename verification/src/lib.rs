pub mod field;
pub mod hash;
pub mod curve;
pub mod signature;
pub mod signer;
pub mod codec;
pub mod types;
pub mod client;
pub mod batch;

pub use field::goldilocks::GoldilocksField;
