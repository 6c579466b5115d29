//! Turns a proof over the 64-bit prime field, and the circuit it belongs to,
//! into the text and data that a verifier written as an arithmetic circuit
//! needs.

pub mod artifact;
pub mod bridge;
pub mod canonical;
pub mod circom_proof;
pub mod circuit;
pub mod codec;
pub mod composer;
pub mod config;
pub mod data;
pub mod decoder;
pub mod field;
pub mod gates;
pub mod generator;
pub mod layout;
pub mod marks;
pub mod numbers;
pub mod numerals;
pub mod placeholders;
pub mod roundtrip;
pub mod sections;
pub mod shape;
pub mod template;
pub mod text;

pub use crate::circom_proof::{generate_proof_base64, ProofForCircom};
pub use crate::generator::generate_circom_verifier;
pub use crate::shape::{generate_verifier_config, VerifierConfig};
pub use crate::text::encode_hex;
