//! Confidential asset transfers: ElGamal-style ciphertexts over the Ristretto group,
//! Σ-protocol proofs made non-interactive with a Fiat–Shamir transcript, and the
//! scenario harness that drives account, issuance and transfer steps.

pub mod account;
pub mod account_cli;
pub mod asset;
pub mod ciphertext_refreshment_proof;
pub mod claim_data;
pub mod claim_proofs;
pub mod codec;
pub mod conf_tx;
pub mod config;
pub mod correctness_proof;
pub mod elgamal;
pub mod encrypting_same_value_proof;
pub mod errors;
pub mod group;
pub mod harness;
pub mod mediator_cli;
pub mod membership_proof;
pub mod mercat;
pub mod one_out_of_many;
pub mod range_proof;
pub mod rng;
pub mod signing;
pub mod text;
pub mod transcript;
pub mod wellformedness_proof;
