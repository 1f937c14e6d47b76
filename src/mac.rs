//! Keyed challenge codes: an HMAC-SHA256 over the client's key and the time
//! of issue, so that a challenge needs no server-side storage.

use vstd::prelude::*;
use crate::clock::current_timestamp;
use crate::keys::PublicKey;
use crate::param::{be_bytes, push_be_bytes};
use crate::utils::Base64;

verus! {

/// HMAC-SHA256 of a message under a key.
pub uninterp spec fn hmac_sha256(key: Seq<u8>, message: Seq<u8>) -> Seq<u8>;

/// The error `hmac` reports for a key length it cannot take.
#[verifier::external_type_specification]
#[verifier::external_body]
pub struct ExInvalidLength(::hmac::digest::InvalidLength);

/// Relies on `hmac::Mac` for `Hmac<Sha256>` (`new_from_slice`, `update`,
/// `finalize`): HMAC takes keys of every length, so the keying never fails,
/// and the tag is SHA-256 sized.
#[verifier::external_body]
fn mac_sha256(key: &[u8], message: &[u8]) -> (r: core::result::Result<Vec<u8>, ::hmac::digest::InvalidLength>)
    ensures
        r is Ok,
        r matches Ok(tag) ==> tag@ == hmac_sha256(key@, message@) && tag@.len() == 32,
{
    let mut mac = <::hmac::Hmac<sha2::Sha256> as ::hmac::Mac>::new_from_slice(key)?;
    ::hmac::Mac::update(&mut mac, message);
    Ok(::hmac::Mac::finalize(mac).into_bytes().to_vec())
}

/// The message a challenge code is computed over: the key's 32 bytes, then
/// the timestamp as eight big-endian bytes.
pub open spec fn challenge_message(key: Seq<u8>, timestamp: usize) -> Seq<u8> {
    key + be_bytes(timestamp as u64)
}

/// The challenge code for a key at a time, under a server secret.
pub open spec fn challenge_code(secret: Seq<u8>, key: Seq<u8>, timestamp: usize) -> Seq<u8> {
    hmac_sha256(secret, challenge_message(key, timestamp))
}

/// Whether the check accepts `code` for `key` at `timestamp`: exactly the
/// issued code, of the same length, byte for byte.
pub open spec fn code_accepted(secret: Seq<u8>, key: Seq<u8>, code: Seq<u8>, timestamp: usize) -> bool {
    code == challenge_code(secret, key, timestamp)
}

/// Distinct timestamps have distinct big-endian encodings.
proof fn lemma_be_bytes_injective(a: usize, b: usize)
    requires
        be_bytes(a as u64) == be_bytes(b as u64),
    ensures
        a == b,
{
    let x = a as u64;
    let y = b as u64;
    assert(be_bytes(x)[0] == be_bytes(y)[0]);
    assert(be_bytes(x)[1] == be_bytes(y)[1]);
    assert(be_bytes(x)[2] == be_bytes(y)[2]);
    assert(be_bytes(x)[3] == be_bytes(y)[3]);
    assert(be_bytes(x)[4] == be_bytes(y)[4]);
    assert(be_bytes(x)[5] == be_bytes(y)[5]);
    assert(be_bytes(x)[6] == be_bytes(y)[6]);
    assert(be_bytes(x)[7] == be_bytes(y)[7]);
    assert(x == y) by (bit_vector)
        requires
            (x >> 56u64) as u8 == (y >> 56u64) as u8,
            (x >> 48u64) as u8 == (y >> 48u64) as u8,
            (x >> 40u64) as u8 == (y >> 40u64) as u8,
            (x >> 32u64) as u8 == (y >> 32u64) as u8,
            (x >> 24u64) as u8 == (y >> 24u64) as u8,
            (x >> 16u64) as u8 == (y >> 16u64) as u8,
            (x >> 8u64) as u8 == (y >> 8u64) as u8,
            x as u8 == y as u8,
    ;
}

/// A code is bound to the key and time it was issued for: the check accepts
/// the issued code; it refuses any code that differs from it, even in one
/// byte; and for another key or another time the code is computed over a
/// different message, so the two agree only through a collision of the keyed
/// hash.
pub proof fn lemma_challenge_binding(
    secret: Seq<u8>,
    key: Seq<u8>,
    timestamp: usize,
    other_key: Seq<u8>,
    other_timestamp: usize,
    code: Seq<u8>,
)
    requires
        key.len() == 32,
        other_key.len() == 32,
    ensures
        code_accepted(secret, key, challenge_code(secret, key, timestamp), timestamp),
        code != challenge_code(secret, key, timestamp) ==> !code_accepted(secret, key, code, timestamp),
        (key != other_key || timestamp != other_timestamp) ==> challenge_message(key, timestamp)
            != challenge_message(other_key, other_timestamp),
{
    let m1 = challenge_message(key, timestamp);
    let m2 = challenge_message(other_key, other_timestamp);
    if m1 == m2 {
        assert(m1.subrange(0, 32) =~= key);
        assert(m2.subrange(0, 32) =~= other_key);
        assert(m1.subrange(32, 40) =~= be_bytes(timestamp as u64));
        assert(m2.subrange(32, 40) =~= be_bytes(other_timestamp as u64));
        lemma_be_bytes_injective(timestamp, other_timestamp);
    }
}

/// Whether two byte strings have the same length and the same bytes.
pub fn bytes_equal(a: &[u8], b: &[u8]) -> (r: bool)
    ensures
        r == (a@ == b@),
{
    if a.len() != b.len() {
        return false;
    }
    let mut i: usize = 0;
    while i < a.len()
        invariant
            a@.len() == b@.len(),
            i <= a@.len(),
            forall|j: int| 0 <= j < i ==> a@[j] == b@[j],
        decreases a@.len() - i,
    {
        if a[i] != b[i] {
            return false;
        }
        i = i + 1;
    }
    assert(a@ =~= b@);
    true
}

/// The keyed challenge generator and verifier.
pub struct Hmac {
    secret: Vec<u8>,
}

impl Hmac {
    /// The server secret that keys the codes.
    pub closed spec fn secret(&self) -> Seq<u8> {
        self.secret@
    }

    /// A generator keyed with `secret` (of any length).
    pub fn new(secret: &[u8]) -> (r: Hmac)
        ensures
            r.secret() == secret@,
    {
        Hmac { secret: vstd::slice::slice_to_vec(secret) }
    }

    /// A second generator with the same secret.
    pub fn duplicate(&self) -> (r: Hmac)
        ensures
            r.secret() == self.secret(),
    {
        Hmac { secret: vstd::slice::slice_to_vec(self.secret.as_slice()) }
    }

    /// The code for `pub_key` at `timestamp`.
    pub fn code(&self, pub_key: &PublicKey, timestamp: usize) -> (r: Base64)
        ensures
            r@ == challenge_code(self.secret(), pub_key@, timestamp),
            r@.len() == 32,
    {
        let mut message: Vec<u8> = Vec::new();
        message.extend_from_slice(pub_key.as_bytes());
        push_be_bytes(&mut message, timestamp as u64);
        assert(message@ =~= challenge_message(pub_key@, timestamp));
        match mac_sha256(self.secret.as_slice(), message.as_slice()) {
            Ok(tag) => Base64::from_vec(tag),
            Err(_) => Base64::from_vec(Vec::new()),
        }
    }

    /// Issues a code for `pub_key` at the current server time; returns the
    /// code and the time it was made for.
    pub fn generate(&self, pub_key: &PublicKey) -> (r: (Base64, usize))
        ensures
            r.0@ == challenge_code(self.secret(), pub_key@, r.1),
            r.0@.len() == 32,
    {
        let timestamp = current_timestamp() as usize;
        (self.code(pub_key, timestamp), timestamp)
    }

    /// Whether `code` is exactly the code for `pub_key` at `timestamp`.
    pub fn verify(&self, pub_key: &PublicKey, code: &Base64, timestamp: usize) -> (r: bool)
        ensures
            r == code_accepted(self.secret(), pub_key@, code@, timestamp),
    {
        let expected = self.code(pub_key, timestamp);
        bytes_equal(code.as_slice(), expected.as_slice())
    }
}

} // verus!
