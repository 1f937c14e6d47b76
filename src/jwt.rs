//! Session tokens: a claim and the service's audience, signed with a
//! symmetric secret (HS256) into a compact token.

use vstd::prelude::*;
use vstd::string::StringSliceAdditionalSpecFns;
use crate::claim::{
    chars_of, claim_payload, is_claim_payload, is_some_payload, read_payload, render_payload,
    string_of, Claim,
};
use crate::clock::current_timestamp;
use crate::error::{Error, Result};
use crate::utils::Base64;

verus! {

/// The HS256 token for a payload text under a secret, with the default header.
pub uninterp spec fn jwt_hs256(payload: Seq<char>, secret: Seq<u8>) -> Seq<char>;

/// The JSON text that a token's payload part holds (base64url-decoded,
/// without surrounding whitespace).
pub uninterp spec fn jwt_payload_text(token: Seq<char>) -> Seq<char>;

/// Relies on `jsonwebtoken::encode` with the default header (HS256) and an
/// `EncodingKey::from_secret`, given the payload as a
/// `serde_json::value::RawValue` (`RawValue::from_string`), which writes the
/// text as it is: the token is determined by payload and secret. Encoding
/// fails only on a key of another algorithm family (not so for HS256) or on
/// text that is not JSON, which a claim payload always is; the token's payload
/// part is then that text. An error becomes `None`.
#[verifier::external_body]
fn encode_hs256(payload: &str, secret: &[u8]) -> (r: Option<String>)
    ensures
        r matches Some(token) ==> token@ == jwt_hs256(payload@, secret@),
        is_some_payload(payload@) ==> r is Some,
        is_some_payload(payload@) ==> (r matches Some(token) ==> jwt_payload_text(token@)
            == payload@),
{
    let claims = serde_json::value::RawValue::from_string(payload.to_string()).ok()?;
    jsonwebtoken::encode(
        &jsonwebtoken::Header::default(),
        &claims,
        &jsonwebtoken::EncodingKey::from_secret(secret),
    ).ok()
}

/// Relies on `jsonwebtoken::decode` into a `serde_json::value::RawValue`, with
/// the default validation (HS256 signature, `exp` present) but without its
/// clock-based expiry check, and with `audience` required. On success it hands
/// back the token's payload text. A token that `encode_hs256` made under this
/// secret from the payload of a claim for this audience has a valid signature
/// and header, a numeric `exp` and a matching `aud`, so it is accepted, and
/// its payload text comes back unchanged. Errors become `None`.
#[verifier::external_body]
fn decode_hs256(token: &str, secret: &[u8], audience: &str) -> (r: Option<String>)
    ensures
        r matches Some(payload) ==> payload@ == jwt_payload_text(token@),
        forall|exp: nat, sub: Seq<char>|
            exp <= usize::MAX && #[trigger] jwt_hs256(claim_payload(audience@, exp, sub), secret@)
                == token@ ==> r is Some && r->Some_0@ == claim_payload(audience@, exp, sub),
{
    let mut validation = jsonwebtoken::Validation::default();
    validation.validate_exp = false;
    validation.set_audience(&[audience]);
    jsonwebtoken::decode::<Box<serde_json::value::RawValue>>(
        token,
        &jsonwebtoken::DecodingKey::from_secret(secret),
        &validation,
    ).ok().map(|data| data.claims.get().to_string())
}

/// Token settings, as configured.
#[derive(Debug, Clone, PartialEq, Eq)]
pub struct JwtConfig {
    /// Audience written into and required of every token.
    pub audience: String,
    /// Signing secret.
    pub secret: Base64,
    /// Longest session that may be granted, in seconds.
    pub max_duration_sec: usize,
    /// How old a challenge may be and still be answered, in seconds.
    pub timestamp_timeout_sec: usize,
}

impl Default for JwtConfig {
    fn default() -> (r: JwtConfig)
        ensures
            r.audience@ == "music3"@,
            r.secret@ == "music3-jwt-secret".spec_bytes(),
            r.max_duration_sec == 86400,
            r.timestamp_timeout_sec == 120,
    {
        JwtConfig {
            audience: String::from_str("music3"),
            secret: Base64::from_slice("music3-jwt-secret".as_bytes()),
            max_duration_sec: 86400,
            timestamp_timeout_sec: 120,
        }
    }
}

/// The token signer and verifier with its settings.
pub struct JwtInner {
    audience: String,
    max_duration_sec: usize,
    timestamp_timeout_sec: usize,
    secret: Vec<u8>,
}

impl JwtInner {
    /// The audience tokens are bound to.
    pub closed spec fn audience(&self) -> Seq<char> {
        self.audience@
    }

    /// The signing secret.
    pub closed spec fn secret(&self) -> Seq<u8> {
        self.secret@
    }

    /// The longest session that may be granted.
    pub closed spec fn max_duration(&self) -> usize {
        self.max_duration_sec
    }

    /// The freshness window for challenges.
    pub closed spec fn timeout(&self) -> usize {
        self.timestamp_timeout_sec
    }

    /// Settings from their parts.
    pub fn from_secret(
        aud: &str,
        max_duration_sec: usize,
        timestamp_timeout_sec: usize,
        secret: &[u8],
    ) -> (r: JwtInner)
        ensures
            r.audience() == aud@,
            r.max_duration() == max_duration_sec,
            r.timeout() == timestamp_timeout_sec,
            r.secret() == secret@,
    {
        JwtInner {
            audience: String::from_str(aud),
            max_duration_sec,
            timestamp_timeout_sec,
            secret: vstd::slice::slice_to_vec(secret),
        }
    }

    /// Settings from a configuration.
    pub fn from_config(config: &JwtConfig) -> (r: JwtInner)
        ensures
            r.audience() == config.audience@,
            r.max_duration() == config.max_duration_sec,
            r.timeout() == config.timestamp_timeout_sec,
            r.secret() == config.secret@,
    {
        JwtInner::from_secret(
            config.audience.as_str(),
            config.max_duration_sec,
            config.timestamp_timeout_sec,
            config.secret.as_slice(),
        )
    }

    /// Signs `claims`, with this audience, into a token.
    pub fn sign(&self, claims: &Claim) -> (r: Result<String>)
        ensures
            r is Ok,
            r matches Ok(token) ==> token@ == jwt_hs256(
                claim_payload(self.audience(), claims.exp as nat, claims.sub@),
                self.secret(),
            ) && jwt_payload_text(token@) == claim_payload(
                self.audience(),
                claims.exp as nat,
                claims.sub@,
            ),
    {
        let aud = chars_of(self.audience.as_str());
        let sub = chars_of(claims.sub.as_str());
        let payload = string_of(&render_payload(&aud, claims.exp, &sub));
        assert(is_claim_payload(payload@, aud@, claims.exp as nat, sub@));
        match encode_hs256(payload.as_str(), self.secret.as_slice()) {
            Some(token) => Ok(token),
            None => Err(Error::FailedToSerializeClaim),
        }
    }

    /// Reads the claim out of a token's payload text: it must be a payload
    /// written for this audience, with an expiration not before `now`.
    pub fn claim_from_payload(&self, payload: &str, now: usize) -> (r: Result<Claim>)
        ensures
            r matches Ok(c) ==> is_claim_payload(payload@, self.audience(), c.exp as nat, c.sub@)
                && c.exp >= now,
            r is Err <==> !(exists|exp: nat, sub: Seq<char>|
                now <= exp <= usize::MAX && #[trigger] is_claim_payload(
                    payload@,
                    self.audience(),
                    exp,
                    sub,
                )),
            r matches Err(e) ==> e == Error::JwtVerificationFailed,
    {
        let text = chars_of(payload);
        let aud = chars_of(self.audience.as_str());
        match read_payload(&text) {
            Some((found_aud, exp, sub)) => {
                proof {
                    assert forall|e: nat, s: Seq<char>|
                        #[trigger] is_claim_payload(payload@, aud@, e, s) implies e == exp && s
                        == sub@ && aud@ == found_aud@ by {
                        crate::claim::lemma_payload_unique(
                            payload@,
                            found_aud@,
                            exp as nat,
                            sub@,
                            aud@,
                            e,
                            s,
                        );
                    }
                }
                if crate::claim::chars_equal(&found_aud, &aud) && exp >= now {
                    let claim = Claim { sub: string_of(&sub), exp };
                    assert(is_claim_payload(payload@, self.audience(), claim.exp as nat, claim.sub@));
                    Ok(claim)
                } else {
                    Err(Error::JwtVerificationFailed)
                }
            },
            None => {
                assert(!is_some_payload(payload@));
                Err(Error::JwtVerificationFailed)
            },
        }
    }

    /// Verifies a token's signature and audience, and that it has not expired
    /// at `now`, and returns its claim.
    pub fn verify_at(&self, token: &str, now: usize) -> (r: Result<Claim>)
        ensures
            r matches Ok(c) ==> is_claim_payload(
                jwt_payload_text(token@),
                self.audience(),
                c.exp as nat,
                c.sub@,
            ) && c.exp >= now,
            forall|exp: nat, sub: Seq<char>|
                exp <= usize::MAX && #[trigger] jwt_hs256(
                    claim_payload(self.audience(), exp, sub),
                    self.secret(),
                ) == token@ ==> (r is Ok <==> exp >= now) && (r matches Ok(c) ==> c.exp == exp
                    && c.sub@ == sub),
            r matches Err(e) ==> e == Error::JwtVerificationFailed,
    {
        match decode_hs256(token, self.secret.as_slice(), self.audience.as_str()) {
            Some(payload) => {
                let r = self.claim_from_payload(payload.as_str(), now);
                proof {
                    assert forall|exp: nat, sub: Seq<char>|
                        exp <= usize::MAX && #[trigger] jwt_hs256(
                            claim_payload(self.audience(), exp, sub),
                            self.secret(),
                        ) == token@ implies (r is Ok <==> exp >= now) && (r matches Ok(c) ==> c.exp
                        == exp && c.sub@ == sub) by {
                        assert(is_claim_payload(payload@, self.audience(), exp, sub));
                        if r is Ok {
                            let c = r->Ok_0;
                            crate::claim::lemma_payload_unique(
                                payload@,
                                self.audience(),
                                exp,
                                sub,
                                self.audience(),
                                c.exp as nat,
                                c.sub@,
                            );
                        }
                    }
                }
                r
            },
            None => Err(Error::JwtVerificationFailed),
        }
    }

    /// Verifies a token at the current time; see [`JwtInner::verify_at`].
    pub fn verify(&self, token: &str) -> (r: Result<Claim>)
        ensures
            r matches Ok(c) ==> is_claim_payload(
                jwt_payload_text(token@),
                self.audience(),
                c.exp as nat,
                c.sub@,
            ),
            forall|exp: nat, sub: Seq<char>|
                exp <= usize::MAX && #[trigger] jwt_hs256(
                    claim_payload(self.audience(), exp, sub),
                    self.secret(),
                ) == token@ ==> (r matches Ok(c) ==> c.exp == exp && c.sub@ == sub),
            r matches Err(e) ==> e == Error::JwtVerificationFailed,
    {
        let now = current_timestamp() as usize;
        self.verify_at(token, now)
    }

    /// The longest session that may be granted, in seconds.
    pub fn max_duration_sec(&self) -> (r: usize)
        ensures
            r == self.max_duration(),
    {
        self.max_duration_sec
    }

    /// The freshness window for challenges, in seconds.
    pub fn timestamp_timeout_sec(&self) -> (r: usize)
        ensures
            r == self.timeout(),
    {
        self.timestamp_timeout_sec
    }
}

/// A shareable handle on the token settings.
pub struct Jwt {
    inner: JwtInner,
}

impl Jwt {
    /// The settings behind the handle.
    pub closed spec fn settings(&self) -> JwtInner {
        self.inner
    }

    /// A handle on `inner`.
    pub fn from_inner(inner: JwtInner) -> (r: Jwt)
        ensures
            r.settings() == inner,
    {
        Jwt { inner }
    }

    /// A handle on the settings of a configuration.
    pub fn from_config(config: &JwtConfig) -> (r: Jwt)
        ensures
            r.settings().audience() == config.audience@,
            r.settings().max_duration() == config.max_duration_sec,
            r.settings().timeout() == config.timestamp_timeout_sec,
            r.settings().secret() == config.secret@,
    {
        Jwt { inner: JwtInner::from_config(config) }
    }

    /// Signs a claim into a token; see [`JwtInner::sign`].
    pub fn sign(&self, claims: &Claim) -> (r: Result<String>)
        ensures
            r is Ok,
            r matches Ok(token) ==> token@ == jwt_hs256(
                claim_payload(self.settings().audience(), claims.exp as nat, claims.sub@),
                self.settings().secret(),
            ) && jwt_payload_text(token@) == claim_payload(
                self.settings().audience(),
                claims.exp as nat,
                claims.sub@,
            ),
    {
        self.inner.sign(claims)
    }

    /// Verifies a token at `now`; see [`JwtInner::verify_at`].
    pub fn verify_at(&self, token: &str, now: usize) -> (r: Result<Claim>)
        ensures
            r matches Ok(c) ==> is_claim_payload(
                jwt_payload_text(token@),
                self.settings().audience(),
                c.exp as nat,
                c.sub@,
            ) && c.exp >= now,
            forall|exp: nat, sub: Seq<char>|
                exp <= usize::MAX && #[trigger] jwt_hs256(
                    claim_payload(self.settings().audience(), exp, sub),
                    self.settings().secret(),
                ) == token@ ==> (r is Ok <==> exp >= now) && (r matches Ok(c) ==> c.exp == exp
                    && c.sub@ == sub),
            r matches Err(e) ==> e == Error::JwtVerificationFailed,
    {
        self.inner.verify_at(token, now)
    }

    /// Verifies a token at the current time; see [`JwtInner::verify`].
    pub fn verify(&self, token: &str) -> (r: Result<Claim>)
        ensures
            r matches Ok(c) ==> is_claim_payload(
                jwt_payload_text(token@),
                self.settings().audience(),
                c.exp as nat,
                c.sub@,
            ),
            forall|exp: nat, sub: Seq<char>|
                exp <= usize::MAX && #[trigger] jwt_hs256(
                    claim_payload(self.settings().audience(), exp, sub),
                    self.settings().secret(),
                ) == token@ ==> (r matches Ok(c) ==> c.exp == exp && c.sub@ == sub),
            r matches Err(e) ==> e == Error::JwtVerificationFailed,
    {
        self.inner.verify(token)
    }

    /// The longest session that may be granted, in seconds.
    pub fn max_duration_sec(&self) -> (r: usize)
        ensures
            r == self.settings().max_duration(),
    {
        self.inner.max_duration_sec()
    }

    /// The freshness window for challenges, in seconds.
    pub fn timestamp_timeout_sec(&self) -> (r: usize)
        ensures
            r == self.settings().timeout(),
    {
        self.inner.timestamp_timeout_sec()
    }
}

} // verus!
