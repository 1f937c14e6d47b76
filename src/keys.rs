//! Wallet identities and their signatures, held as plain bytes.

use vstd::prelude::*;

verus! {

/// The canonical (base58) text of a 32-byte public key.
pub uninterp spec fn pubkey_text(key: Seq<u8>) -> Seq<char>;

/// Whether an ed25519 signature over a message verifies, strictly, against a
/// public key.
pub uninterp spec fn ed25519_accepts(key: Seq<u8>, message: Seq<u8>, signature: Seq<u8>) -> bool;

/// Relies on the `Display` of `solana_sdk::pubkey::Pubkey`: base58 of the
/// 32 bytes.
#[verifier::external_body]
fn base58_of_key(key: &[u8; 32]) -> (r: String)
    ensures
        r@ == pubkey_text(key@),
{
    solana_sdk::pubkey::Pubkey::new_from_array(*key).to_string()
}

/// Relies on `solana_sdk::signature::Signature::verify`: strict ed25519
/// verification, a function of key, message and signature alone.
#[verifier::external_body]
fn ed25519_verify(signature: &[u8; 64], key: &[u8; 32], message: &[u8]) -> (r: bool)
    ensures
        r == ed25519_accepts(key@, message@, signature@),
{
    solana_sdk::signature::Signature::from(*signature).verify(key, message)
}

/// The public half of a wallet keypair.
#[derive(Debug, Clone, Copy, PartialEq, Eq, Hash)]
pub struct PublicKey(pub [u8; 32]);

/// A signature made by a wallet's private key.
#[derive(Debug, Clone, Copy, PartialEq, Eq, Hash)]
pub struct Signature(pub [u8; 64]);

impl View for PublicKey {
    type V = Seq<u8>;

    open spec fn view(&self) -> Seq<u8> {
        self.0@
    }
}

impl View for Signature {
    type V = Seq<u8>;

    open spec fn view(&self) -> Seq<u8> {
        self.0@
    }
}

impl PublicKey {
    /// A key from its 32 bytes.
    pub fn new(bytes: [u8; 32]) -> (r: PublicKey)
        ensures
            r@ == bytes@,
    {
        PublicKey(bytes)
    }

    /// The key's bytes.
    pub fn as_bytes(&self) -> (r: &[u8; 32])
        ensures
            r@ == self@,
    {
        &self.0
    }

    /// The key's canonical text, used as the subject of sessions.
    pub fn to_string(&self) -> (r: String)
        ensures
            r@ == pubkey_text(self@),
    {
        base58_of_key(&self.0)
    }
}

impl Signature {
    /// A signature from its 64 bytes.
    pub fn new(bytes: [u8; 64]) -> (r: Signature)
        ensures
            r@ == bytes@,
    {
        Signature(bytes)
    }

    /// Whether this signature was made over `message` by the private half of `key`.
    pub fn verify(&self, key: &PublicKey, message: &[u8]) -> (r: bool)
        ensures
            r == ed25519_accepts(key@, message@, self@),
    {
        ed25519_verify(&self.0, &key.0, message)
    }
}

} // verus!
