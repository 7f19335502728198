//! Client-side protocol engine for a Chaumian blind-signature e-cash scheme.
//!
//! A wallet requests a minting quote, polls it until it is paid, sends blinded
//! secrets to the mint, unblinds the returned signatures into spendable
//! proofs, and swaps proofs for freshly blinded outputs. Amount accounting is
//! exact and overflow-aware on the ordinary path; a separate builder
//! deliberately assembles output sets whose summed denominations wrap the
//! 64-bit width, to probe whether a mint checks conservation of value with
//! checked arithmetic.

pub mod amount;
pub mod crypto;
pub mod errors;
pub mod keys;
pub mod overflow;
pub mod premint;
pub mod proofs;
pub mod quote;
pub mod swap;
