//! Conversions between native values and a binary tree of atoms and pairs.
//!
//! A tree is either an atom (a byte string) or a pair of two trees. A backend
//! stores the nodes and hands out handles; this crate maps integers, text,
//! tuples, options, arrays, sequences, keys and signatures to such trees and
//! back, and states each mapping as a contract over the mathematical [`Tree`].
//!
//! - [`klvm_encoder`] and [`klvm_decoder`] say what a backend must offer, and
//!   [`arena`] is a backend that meets both.
//! - [`to_klvm`] writes values, [`from_klvm`] reads them, and [`bls`] does both
//!   for keys and signatures.
//! - [`int_codec`] holds the canonical form of integers that both directions
//!   share.
//! - [`laws`] proves that what is written is read back.
//! - [`greedy_tokenizer`] holds the settings of a greedy tokenizer and the
//!   rules that they must meet.

pub mod arena;
pub mod bls;
pub mod error;
pub mod from_klvm;
pub mod greedy_tokenizer;
pub mod int_codec;
pub mod klvm_decoder;
pub mod klvm_encoder;
pub mod laws;
pub mod to_klvm;
pub mod tree;

pub use arena::{NodePtr, TreeArena};
pub use bls::{PublicKey, Signature};
pub use error::{DecodeFailure, FromKlvmError, ToKlvmError};
pub use from_klvm::FromKlvm;
pub use int_codec::simplify_int_bytes;
pub use klvm_decoder::KlvmDecoder;
pub use klvm_encoder::{keeps, reported, KlvmEncoder};
pub use to_klvm::ToKlvm;
pub use tree::Tree;
