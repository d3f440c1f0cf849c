//! Pedersen vector commitments over the Ristretto group, with openings of one
//! coordinate and of several coordinates at once.
//!
//! A scheme of dimension `n` fixes generators `G_0, .., G_(n - 1)` and a
//! blinding generator `H`. The commitment to a vector `x` under a blinding
//! scalar `r` is the one group element `r * H + x_0 * G_0 + .. + x_(n - 1) *
//! G_(n - 1)`. An opening discloses values and the whole blinding scalar, and
//! is accepted when the commitment less the disclosed terms is `r * H`.
//!
//! This is not a zero-knowledge proof: whoever sees an opening sees the values
//! and the blinding scalar. A batch opening combines its terms with the fixed
//! weight one, not with weights drawn from a challenge.
//!
//! The group arithmetic is `curve25519-dalek`'s and is taken on trust (module
//! `group`). Everything built on it is verified: the executable functions
//! against the mathematical model of module `model`, and the laws of module
//! `laws` from that model.

pub mod batch;
pub mod commitment;
pub mod error;
pub mod group;
pub mod laws;
pub mod model;
pub mod modular;
pub mod opening;

pub use batch::BatchProof;
pub use commitment::PedersenVectorCommitment;
pub use error::PedersenError;
pub use opening::Proof;
