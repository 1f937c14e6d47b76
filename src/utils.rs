//! Byte strings that travel as standard, padded base64 text.

use vstd::prelude::*;

verus! {

/// The standard padded base64 text of a byte string.
pub uninterp spec fn base64_text(bytes: Seq<u8>) -> Seq<char>;

/// The reason a text is not the standard base64 form of any byte string.
#[verifier::external_type_specification]
#[verifier::external_body]
pub struct ExDecodeError(base64::DecodeError);

/// Relies on `base64::Engine::encode` with the standard padded engine: the
/// text is determined by the bytes, and holds four characters for every
/// started group of three bytes.
#[verifier::external_body]
fn encode_standard(bytes: &[u8]) -> (r: String)
    ensures
        r@ == base64_text(bytes@),
        r@.len() == 4 * ((bytes@.len() + 2) / 3),
{
    base64::Engine::encode(&base64::engine::general_purpose::STANDARD, bytes)
}

/// Relies on `base64::Engine::decode` with the standard padded engine, which
/// requires canonical padding and no stray trailing bits: whatever it accepts
/// is exactly the encoding of the bytes it returns, and it accepts the
/// encoding of every byte string.
#[verifier::external_body]
fn decode_standard(text: &str) -> (r: core::result::Result<Vec<u8>, base64::DecodeError>)
    ensures
        r matches Ok(bytes) ==> base64_text(bytes@) == text@,
        r is Err ==> forall|bytes: Seq<u8>| #[trigger] base64_text(bytes) != text@,
{
    base64::Engine::decode(&base64::engine::general_purpose::STANDARD, text.as_bytes())
}

/// A byte string whose text form is base64.
#[derive(Debug, Clone, PartialEq, Eq, Hash)]
pub struct Base64(pub Vec<u8>);

impl View for Base64 {
    type V = Seq<u8>;

    open spec fn view(&self) -> Seq<u8> {
        self.0@
    }
}

impl Base64 {
    /// Wraps a byte vector.
    pub fn from_vec(bytes: Vec<u8>) -> (r: Base64)
        ensures
            r@ == bytes@,
    {
        Base64(bytes)
    }

    /// Wraps a copy of a byte slice.
    pub fn from_slice(bytes: &[u8]) -> (r: Base64)
        ensures
            r@ == bytes@,
    {
        Base64(vstd::slice::slice_to_vec(bytes))
    }

    /// Gets the inner `Vec<u8>`.
    pub fn into_inner(self) -> (r: Vec<u8>)
        ensures
            r@ == self@,
    {
        self.0
    }

    /// The bytes, borrowed.
    pub fn as_slice(&self) -> (r: &[u8])
        ensures
            r@ == self@,
    {
        self.0.as_slice()
    }

    /// Number of bytes held.
    pub fn len(&self) -> (r: usize)
        ensures
            r == self@.len(),
    {
        self.0.len()
    }

    /// The base64 text of the bytes.
    pub fn to_string(&self) -> (r: String)
        ensures
            r@ == base64_text(self@),
    {
        encode_standard(self.0.as_slice())
    }

    /// Reads base64 text back into bytes; fails exactly on text that is not
    /// the canonical padded encoding of some byte string.
    pub fn from_str(text: &str) -> (r: core::result::Result<Base64, base64::DecodeError>)
        ensures
            r matches Ok(b) ==> base64_text(b@) == text@,
            r is Err ==> forall|bytes: Seq<u8>| #[trigger] base64_text(bytes) != text@,
    {
        match decode_standard(text) {
            Ok(bytes) => Ok(Base64(bytes)),
            Err(e) => Err(e),
        }
    }
}

/// The text form of a base64 value, as it is written into documents.
pub fn serialize(value: &Base64) -> (r: String)
    ensures
        r@ == base64_text(value@),
{
    value.to_string()
}

/// Reads a base64 value from its text form in a document.
pub fn deserialize(text: &str) -> (r: core::result::Result<Base64, base64::DecodeError>)
    ensures
        r matches Ok(b) ==> base64_text(b@) == text@,
        r is Err ==> forall|bytes: Seq<u8>| #[trigger] base64_text(bytes) != text@,
{
    Base64::from_str(text)
}

} // verus!
