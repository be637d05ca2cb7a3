//! Keys and signatures as atoms of fixed length.
//!
//! To this crate they are byte strings of a fixed length. Whether the bytes
//! are a point of the curve is for chik_bls to say.

use vstd::prelude::*;
use vstd::slice::slice_to_vec;
use crate::error::{DecodeFailure, FromKlvmError, ToKlvmError};
use crate::from_klvm::{array_from_vec, FromKlvm};
use crate::klvm_decoder::KlvmDecoder;
use crate::klvm_encoder::KlvmEncoder;
use crate::to_klvm::ToKlvm;
use crate::tree::Tree;

verus! {

/// What chik_bls finds wrong with `bytes` as a public key, in its own words, or
/// `None` where it accepts them.
pub uninterp spec fn public_key_defect(bytes: Seq<u8>) -> Option<Seq<char>>;

/// `PublicKey::from_bytes` of chik_bls, and `to_string` on its error: the
/// complaint about `bytes`, or `None` where they are a public key that it takes.
#[verifier::external_body]
fn check_public_key(bytes: &[u8; 48]) -> (defect: Option<String>)
    ensures
        match defect {
            Some(message) => public_key_defect(bytes@) == Some(message@),
            None => public_key_defect(bytes@) is None,
        },
{
    match chik_bls::PublicKey::from_bytes(bytes) {
        Ok(_) => None,
        Err(e) => Some(e.to_string()),
    }
}

/// The 48 bytes of a public key in its compressed form.
#[derive(Clone, Copy, Debug, PartialEq, Eq)]
pub struct PublicKey {
    bytes: [u8; 48],
}

impl View for PublicKey {
    type V = Seq<u8>;

    closed spec fn view(&self) -> Seq<u8> {
        self.bytes@
    }
}

impl DeepView for PublicKey {
    type V = Seq<u8>;

    open spec fn deep_view(&self) -> Seq<u8> {
        self@
    }
}

/// The failure of reading `tree` as a public key.
pub open spec fn public_key_failure(tree: Tree) -> Option<DecodeFailure> {
    match tree {
        Tree::Pair(_, _) => Some(DecodeFailure::ExpectedAtom),
        Tree::Atom(bytes) => if bytes.len() != 48 {
            Some(DecodeFailure::WrongAtomLength { expected: 48, found: bytes.len() })
        } else {
            match public_key_defect(bytes) {
                Some(message) => Some(DecodeFailure::Custom(message)),
                None => None,
            }
        },
    }
}

impl PublicKey {
    /// The bytes of this value are always 48.
    pub proof fn lemma_len(&self)
        ensures
            self@.len() == 48,
    {
    }

    /// Wraps `bytes` where `defect` is `None`, and reports `defect` otherwise.
    pub fn from_verdict(bytes: &[u8; 48], defect: Option<String>) -> (r: Result<
        PublicKey,
        FromKlvmError,
    >)
        ensures
            match defect {
                None => r matches Ok(value) && value@ == bytes@,
                Some(message) => r matches Err(e) && e@ == DecodeFailure::Custom(message@),
            },
    {
        match defect {
            None => Ok(PublicKey { bytes: *bytes }),
            Some(message) => Err(FromKlvmError::Custom(message)),
        }
    }

    /// Takes `bytes` as a public key where chik_bls accepts them.
    pub fn from_bytes(bytes: &[u8; 48]) -> (r: Result<PublicKey, FromKlvmError>)
        ensures
            match r {
                Ok(value) => public_key_defect(bytes@) is None && value@ == bytes@,
                Err(e) => public_key_defect(bytes@) matches Some(message) && e@
                    == DecodeFailure::Custom(message),
            },
    {
        PublicKey::from_verdict(bytes, check_public_key(bytes))
    }

    /// The compressed form.
    pub fn to_bytes(&self) -> (bytes: [u8; 48])
        ensures
            bytes@ == self@,
    {
        self.bytes
    }

    /// Reads the bytes of an atom as a public key.
    pub fn from_atom(bytes: &[u8]) -> (r: Result<PublicKey, FromKlvmError>)
        ensures
            match r {
                Ok(value) => public_key_failure(Tree::Atom(bytes@)) is None && value@ == bytes@,
                Err(e) => public_key_failure(Tree::Atom(bytes@)) == Some(e@),
            },
    {
        match array_from_vec::<u8, 48>(slice_to_vec(bytes)) {
            None => Err(FromKlvmError::WrongAtomLength { expected: 48, found: bytes.len() }),
            Some(array) => PublicKey::from_bytes(&array),
        }
    }
}

impl<N> ToKlvm<N> for PublicKey {
    open spec fn shape(&self) -> Tree {
        Tree::Atom(self@)
    }

    fn to_klvm<E: KlvmEncoder<Node = N>>(&self, encoder: &mut E) -> (r: Result<N, ToKlvmError>) {
        let bytes = self.to_bytes();
        encoder.encode_atom(bytes.as_slice())
    }
}

impl<N> FromKlvm<N> for PublicKey {
    open spec fn failure(tree: Tree) -> Option<DecodeFailure> {
        public_key_failure(tree)
    }

    open spec fn decodes(tree: Tree, value: PublicKey) -> bool {
        tree matches Tree::Atom(bytes) && value@ == bytes
    }

    fn from_klvm<D: KlvmDecoder<Node = N>>(decoder: &D, node: N) -> (r: Result<
        PublicKey,
        FromKlvmError,
    >) {
        let bytes = decoder.decode_atom(&node)?;
        PublicKey::from_atom(bytes)
    }
}

/// What chik_bls finds wrong with `bytes` as a signature, in its own words, or
/// `None` where it accepts them.
pub uninterp spec fn signature_defect(bytes: Seq<u8>) -> Option<Seq<char>>;

/// `Signature::from_bytes` of chik_bls, and `to_string` on its error: the
/// complaint about `bytes`, or `None` where they are a signature that it takes.
#[verifier::external_body]
fn check_signature(bytes: &[u8; 96]) -> (defect: Option<String>)
    ensures
        match defect {
            Some(message) => signature_defect(bytes@) == Some(message@),
            None => signature_defect(bytes@) is None,
        },
{
    match chik_bls::Signature::from_bytes(bytes) {
        Ok(_) => None,
        Err(e) => Some(e.to_string()),
    }
}

/// The 96 bytes of a signature in its compressed form.
#[derive(Clone, Copy, Debug, PartialEq, Eq)]
pub struct Signature {
    bytes: [u8; 96],
}

impl View for Signature {
    type V = Seq<u8>;

    closed spec fn view(&self) -> Seq<u8> {
        self.bytes@
    }
}

impl DeepView for Signature {
    type V = Seq<u8>;

    open spec fn deep_view(&self) -> Seq<u8> {
        self@
    }
}

/// The failure of reading `tree` as a signature.
pub open spec fn signature_failure(tree: Tree) -> Option<DecodeFailure> {
    match tree {
        Tree::Pair(_, _) => Some(DecodeFailure::ExpectedAtom),
        Tree::Atom(bytes) => if bytes.len() != 96 {
            Some(DecodeFailure::WrongAtomLength { expected: 96, found: bytes.len() })
        } else {
            match signature_defect(bytes) {
                Some(message) => Some(DecodeFailure::Custom(message)),
                None => None,
            }
        },
    }
}

impl Signature {
    /// The bytes of this value are always 96.
    pub proof fn lemma_len(&self)
        ensures
            self@.len() == 96,
    {
    }

    /// Wraps `bytes` where `defect` is `None`, and reports `defect` otherwise.
    pub fn from_verdict(bytes: &[u8; 96], defect: Option<String>) -> (r: Result<
        Signature,
        FromKlvmError,
    >)
        ensures
            match defect {
                None => r matches Ok(value) && value@ == bytes@,
                Some(message) => r matches Err(e) && e@ == DecodeFailure::Custom(message@),
            },
    {
        match defect {
            None => Ok(Signature { bytes: *bytes }),
            Some(message) => Err(FromKlvmError::Custom(message)),
        }
    }

    /// Takes `bytes` as a signature where chik_bls accepts them.
    pub fn from_bytes(bytes: &[u8; 96]) -> (r: Result<Signature, FromKlvmError>)
        ensures
            match r {
                Ok(value) => signature_defect(bytes@) is None && value@ == bytes@,
                Err(e) => signature_defect(bytes@) matches Some(message) && e@
                    == DecodeFailure::Custom(message),
            },
    {
        Signature::from_verdict(bytes, check_signature(bytes))
    }

    /// The compressed form.
    pub fn to_bytes(&self) -> (bytes: [u8; 96])
        ensures
            bytes@ == self@,
    {
        self.bytes
    }

    /// Reads the bytes of an atom as a signature.
    pub fn from_atom(bytes: &[u8]) -> (r: Result<Signature, FromKlvmError>)
        ensures
            match r {
                Ok(value) => signature_failure(Tree::Atom(bytes@)) is None && value@ == bytes@,
                Err(e) => signature_failure(Tree::Atom(bytes@)) == Some(e@),
            },
    {
        match array_from_vec::<u8, 96>(slice_to_vec(bytes)) {
            None => Err(FromKlvmError::WrongAtomLength { expected: 96, found: bytes.len() }),
            Some(array) => Signature::from_bytes(&array),
        }
    }
}

impl<N> ToKlvm<N> for Signature {
    open spec fn shape(&self) -> Tree {
        Tree::Atom(self@)
    }

    fn to_klvm<E: KlvmEncoder<Node = N>>(&self, encoder: &mut E) -> (r: Result<N, ToKlvmError>) {
        let bytes = self.to_bytes();
        encoder.encode_atom(bytes.as_slice())
    }
}

impl<N> FromKlvm<N> for Signature {
    open spec fn failure(tree: Tree) -> Option<DecodeFailure> {
        signature_failure(tree)
    }

    open spec fn decodes(tree: Tree, value: Signature) -> bool {
        tree matches Tree::Atom(bytes) && value@ == bytes
    }

    fn from_klvm<D: KlvmDecoder<Node = N>>(decoder: &D, node: N) -> (r: Result<
        Signature,
        FromKlvmError,
    >) {
        let bytes = decoder.decode_atom(&node)?;
        Signature::from_atom(bytes)
    }
}

} // verus!
