//! Arithmetization of PLONK-style gate constraints: a list of gates becomes
//! eight polynomials over an evaluation domain of a finite field.

pub mod bls12_381;
pub mod constraint;
pub mod domain;
pub mod error;
pub mod field;
pub mod gates;
pub mod polynomial;
pub mod system;
