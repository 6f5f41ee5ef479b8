pub mod poseidon2;
