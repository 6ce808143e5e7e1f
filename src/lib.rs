//! A non-interactive zero-knowledge proof of knowledge of a discrete
//! logarithm: a prover shows that it knows `x` with `y = g^x mod p`
//! without revealing `x`, and a verifier checks the proof.
pub mod challenge;
pub mod modular;
pub mod protocol;
pub mod uint;

pub use challenge::{bit_of_digest, derive_bit};
pub use protocol::{prove, prove_with_nonces, verify, verify_round, Proof, Proofs, ROUND_COUNT};
pub use uint::{U256, UInt};
