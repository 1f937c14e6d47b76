//! Request and response shapes of the challenge-response exchange, and the
//! message that a wallet signs.

use vstd::prelude::*;
use crate::keys::{ed25519_accepts, PublicKey, Signature};
use crate::utils::Base64;

verus! {

/// The eight big-endian bytes of a 64-bit integer.
pub open spec fn be_bytes(n: u64) -> Seq<u8> {
    seq![
        (n >> 56u64) as u8,
        (n >> 48u64) as u8,
        (n >> 40u64) as u8,
        (n >> 32u64) as u8,
        (n >> 24u64) as u8,
        (n >> 16u64) as u8,
        (n >> 8u64) as u8,
        n as u8,
    ]
}

/// The message that a client signs to answer a challenge: the raw code bytes
/// followed by the timestamp as eight big-endian bytes.
pub open spec fn signed_message(code: Seq<u8>, timestamp: usize) -> Seq<u8> {
    code + be_bytes(timestamp as u64)
}

/// Appends the eight big-endian bytes of `n`.
pub fn push_be_bytes(out: &mut Vec<u8>, n: u64)
    ensures
        final(out)@ == old(out)@ + be_bytes(n),
{
    out.push((n >> 56u64) as u8);
    out.push((n >> 48u64) as u8);
    out.push((n >> 40u64) as u8);
    out.push((n >> 32u64) as u8);
    out.push((n >> 24u64) as u8);
    out.push((n >> 16u64) as u8);
    out.push((n >> 8u64) as u8);
    out.push(n as u8);
    assert(final(out)@ =~= old(out)@ + be_bytes(n));
}

/// Builds the message signed for a challenge `(code, timestamp)`.
pub fn build_message(code: &Base64, timestamp: usize) -> (r: Vec<u8>)
    ensures
        r@ == signed_message(code@, timestamp),
{
    let mut message: Vec<u8> = Vec::new();
    message.extend_from_slice(code.as_slice());
    push_be_bytes(&mut message, timestamp as u64);
    message
}

/// A client's request for a challenge.
#[derive(Debug, Clone, Copy, PartialEq, Eq)]
pub struct ChallengeRequest {
    /// The key the client claims to own.
    pub pub_key: PublicKey,
}

/// A challenge issued to a client.
#[derive(Debug, Clone, PartialEq, Eq)]
pub struct ChallengeResponse {
    /// The challenge code.
    pub hmac: Base64,
    /// Server time, in seconds, at which the challenge was issued.
    pub timestamp: usize,
}

impl ChallengeResponse {
    /// Builds the message the client signs to answer this challenge.
    pub fn build_message(&self) -> (r: Vec<u8>)
        ensures
            r@ == signed_message(self.hmac@, self.timestamp),
    {
        build_message(&self.hmac, self.timestamp)
    }
}

/// A completed challenge, submitted to obtain a session token.
#[derive(Debug, Clone, PartialEq, Eq)]
pub struct AuthRequest {
    /// The key the client claims to own.
    pub pub_key: PublicKey,
    /// The client's signature over the challenge message.
    pub signature: Signature,
    /// The challenge code that was issued.
    pub hmac: Base64,
    /// The timestamp that was issued with the code.
    pub timestamp: usize,
    /// Requested session length, in seconds.
    pub duration: usize,
}

impl AuthRequest {
    /// Builds the message the signature is checked against.
    pub fn build_message(&self) -> (r: Vec<u8>)
        ensures
            r@ == signed_message(self.hmac@, self.timestamp),
    {
        build_message(&self.hmac, self.timestamp)
    }

    /// Whether the signature is the key holder's over the challenge message.
    pub fn verify(&self) -> (r: bool)
        ensures
            r == ed25519_accepts(
                self.pub_key@,
                signed_message(self.hmac@, self.timestamp),
                self.signature@,
            ),
    {
        let message = self.build_message();
        self.signature.verify(&self.pub_key, message.as_slice())
    }
}

/// A granted session.
#[derive(Debug, Clone, PartialEq, Eq)]
pub struct AuthResponse {
    /// The authenticated key.
    pub pub_key: PublicKey,
    /// The session token.
    pub jwt: String,
    /// Expiration of the session, in seconds since the epoch.
    pub exp: usize,
}

/// A challenge whose code is carried as text.
#[derive(Debug, Clone, PartialEq, Eq)]
pub struct HmacResponse {
    /// The challenge code, as text.
    pub hmac: String,
    /// Server time, in seconds, at which the challenge was issued.
    pub timestamp: usize,
}

} // verus!
