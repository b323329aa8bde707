//! A Groth16 proving service over BN254, with a direct prover and a
//! collaborative one whose parties hold packed shares of the witness.
//!
//! The library holds what the service decides and computes on plain values:
//!
//! - `field`, `curve`: scalars and group elements, with the arithmetic of
//!   `ark-ff` and `ark-ec` behind stated contracts;
//! - `algebra`, `pss`: finite sums, and packed secret sharing with its
//!   round-trip and linearity laws;
//! - `r1cs`, `qap`, `domain`: constraint systems, their quadratic arithmetic
//!   programs, and the transforms of `ark-poly`;
//! - `groth16`, `verify`, `keys`: the direct prover and the verifier, around
//!   `ark-groth16`, and the frame that an encoded key must have before it is
//!   decoded;
//! - `prover`: a party's round and a proving session as state machines, and
//!   the completion of a proof;
//! - `service`: the operations of the service, each as a function of the
//!   values that come from outside;
//! - `dto`, `inputs`, `json`, `store`, `text`: requests and responses, input
//!   mappings, and the naming rules of the artifact store.
//!
//! Reading files, serving HTTP and running the witness generator are left
//! to the program that uses the library.

pub mod algebra;
pub mod curve;
pub mod domain;
pub mod dto;
pub mod field;
pub mod groth16;
pub mod inputs;
pub mod json;
pub mod keys;
pub mod prover;
pub mod pss;
pub mod qap;
pub mod r1cs;
pub mod service;
pub mod store;
pub mod text;
pub mod verify;
