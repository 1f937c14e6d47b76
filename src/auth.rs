//! The authorizer: issues challenges, and turns answered challenges into
//! session tokens after checking duration, freshness and authenticity.

use vstd::prelude::*;
use crate::claim::{claim_payload, Claim};
use crate::clock::current_timestamp;
use crate::conf::AuthConfig;
use crate::error::{Error, Result};
use crate::jwt::{jwt_hs256, Jwt, JwtInner};
use crate::keys::{ed25519_accepts, pubkey_text, PublicKey};
use crate::mac::{challenge_code, Hmac};
use crate::param::{signed_message, AuthRequest, AuthResponse, ChallengeResponse};

verus! {

/// A challenge issued at `timestamp` may still be answered at `now`.
pub open spec fn is_fresh(timestamp: usize, window: usize, now: usize) -> bool {
    timestamp + window >= now
}

/// The request's code is the one issued for its key and timestamp, and its
/// signature over the challenge message is the key holder's.
pub open spec fn is_authentic(secret: Seq<u8>, request: AuthRequest) -> bool {
    &&& request.hmac@ == challenge_code(secret, request.pub_key@, request.timestamp)
    &&& ed25519_accepts(
        request.pub_key@,
        signed_message(request.hmac@, request.timestamp),
        request.signature@,
    )
}

/// Why a request is refused at `now`, checked in this order, or `None` when
/// a session may be granted. A session whose end would not fit a `usize` is
/// refused as too long.
pub open spec fn refusal(
    secret: Seq<u8>,
    max_duration: usize,
    window: usize,
    request: AuthRequest,
    now: usize,
) -> Option<Error> {
    if request.duration > max_duration {
        Some(Error::InvalidDuration(request.duration, max_duration))
    } else if !is_fresh(request.timestamp, window, now) {
        Some(Error::InvalidTimestamp)
    } else if !is_authentic(secret, request) {
        Some(Error::InvalidSignature)
    } else if now + request.duration > usize::MAX {
        Some(Error::InvalidDuration(request.duration, max_duration))
    } else {
        None
    }
}

/// Text of a granted session's token payload.
pub open spec fn session_payload(audience: Seq<char>, key: Seq<u8>, exp: nat) -> Seq<char> {
    claim_payload(audience, exp, pubkey_text(key))
}

/// A challenge issued for a key at `t0`, answered within the freshness window
/// (from `t0` on) with the key holder's signature over its message and a
/// duration the policy allows, is granted; the session then ends at
/// `now + duration`, no earlier than `t0 + duration`.
pub proof fn lemma_answered_challenge_granted(
    secret: Seq<u8>,
    max_duration: usize,
    window: usize,
    request: AuthRequest,
    t0: usize,
    now: usize,
)
    requires
        request.timestamp == t0,
        request.hmac@ == challenge_code(secret, request.pub_key@, t0),
        ed25519_accepts(request.pub_key@, signed_message(request.hmac@, t0), request.signature@),
        t0 <= now <= t0 + window,
        request.duration <= max_duration,
        now + request.duration <= usize::MAX,
    ensures
        refusal(secret, max_duration, window, request, now) is None,
        now + request.duration >= t0 + request.duration,
{
}

/// A request for more than the longest allowed session is refused as such,
/// however valid the rest of it is.
pub proof fn lemma_overlong_refused(
    secret: Seq<u8>,
    max_duration: usize,
    window: usize,
    request: AuthRequest,
    now: usize,
)
    requires
        request.duration > max_duration,
    ensures
        refusal(secret, max_duration, window, request, now) == Some(
            Error::InvalidDuration(request.duration, max_duration),
        ),
{
}

/// A request with an allowed duration whose challenge is older than the
/// freshness window is refused as stale.
pub proof fn lemma_stale_refused(
    secret: Seq<u8>,
    max_duration: usize,
    window: usize,
    request: AuthRequest,
    now: usize,
)
    requires
        request.duration <= max_duration,
        request.timestamp + window < now,
    ensures
        refusal(secret, max_duration, window, request, now) == Some(Error::InvalidTimestamp),
{
}

/// A fresh request with an allowed duration is refused as unauthentic when its
/// signature does not verify against its key (as one made by another keypair
/// does not), or when its code differs from the issued one in a byte.
pub proof fn lemma_forgery_refused(
    secret: Seq<u8>,
    max_duration: usize,
    window: usize,
    request: AuthRequest,
    now: usize,
    altered_at: int,
)
    requires
        request.duration <= max_duration,
        is_fresh(request.timestamp, window, now),
        !ed25519_accepts(
            request.pub_key@,
            signed_message(request.hmac@, request.timestamp),
            request.signature@,
        ) || (0 <= altered_at < request.hmac@.len() && request.hmac@[altered_at] != challenge_code(
            secret,
            request.pub_key@,
            request.timestamp,
        )[altered_at]),
    ensures
        refusal(secret, max_duration, window, request, now) == Some(Error::InvalidSignature),
{
}

/// Issues challenges and grants sessions.
pub struct Authorizer {
    jwt: Jwt,
    hmac: Hmac,
}

impl Authorizer {
    /// The secret that keys challenge codes.
    pub closed spec fn challenge_secret(&self) -> Seq<u8> {
        self.hmac.secret()
    }

    /// The token settings.
    pub closed spec fn tokens(&self) -> JwtInner {
        self.jwt.settings()
    }

    /// Why `request` is refused at `now`, if it is.
    pub open spec fn refusal_at(&self, request: AuthRequest, now: usize) -> Option<Error> {
        refusal(
            self.challenge_secret(),
            self.tokens().max_duration(),
            self.tokens().timeout(),
            request,
            now,
        )
    }

    /// The token handle, for verifying the tokens this authorizer grants.
    pub fn jwt(&self) -> (r: &Jwt)
        ensures
            r.settings() == self.tokens(),
    {
        &self.jwt
    }

    /// A second challenge generator with this authorizer's secret.
    pub fn hmac_cloned(&self) -> (r: Hmac)
        ensures
            r.secret() == self.challenge_secret(),
    {
        self.hmac.duplicate()
    }

    /// An authorizer with the given settings.
    pub fn new(config: AuthConfig) -> (r: Authorizer)
        ensures
            r.challenge_secret() == vstd::utf8::encode_utf8(config.hmac_secret@),
            r.tokens().audience() == config.jwt.audience@,
            r.tokens().max_duration() == config.jwt.max_duration_sec,
            r.tokens().timeout() == config.jwt.timestamp_timeout_sec,
            r.tokens().secret() == config.jwt.secret@,
    {
        let jwt = Jwt::from_config(&config.jwt);
        let hmac = Hmac::new(config.hmac_secret.as_str().as_bytes());
        Authorizer { jwt, hmac }
    }

    /// Issues a challenge for `pub_key` at the current time.
    pub fn generate_challenge(&self, pub_key: &PublicKey) -> (r: ChallengeResponse)
        ensures
            r.hmac@ == challenge_code(self.challenge_secret(), pub_key@, r.timestamp),
            r.hmac@.len() == 32,
    {
        let (hmac, timestamp) = self.hmac.generate(pub_key);
        ChallengeResponse { hmac, timestamp }
    }

    /// Whether a challenge issued at `timestamp` may still be answered at `now`.
    pub fn is_valid_timestamp(&self, timestamp: usize, now: usize) -> (r: bool)
        ensures
            r == is_fresh(timestamp, self.tokens().timeout(), now),
    {
        let window = self.jwt.timestamp_timeout_sec();
        timestamp >= now || now - timestamp <= window
    }

    /// Whether the request answers a challenge this authorizer issued, signed
    /// by the key's holder.
    pub fn verify_auth_request(&self, request: &AuthRequest) -> (r: bool)
        ensures
            r == is_authentic(self.challenge_secret(), *request),
    {
        if !self.hmac.verify(&request.pub_key, &request.hmac, request.timestamp) {
            return false;
        }
        request.verify()
    }

    /// Grants a session for `request` at time `now`, or says why not.
    pub fn authorize_at(&self, request: &AuthRequest, now: usize) -> (r: Result<AuthResponse>)
        ensures
            self.refusal_at(*request, now) matches Some(e) ==> r == Err::<AuthResponse, Error>(e),
            self.refusal_at(*request, now) is None ==> r is Ok,
            r matches Ok(resp) ==> {
                &&& self.refusal_at(*request, now) is None
                &&& resp.pub_key == request.pub_key
                &&& resp.exp == now + request.duration
                &&& resp.jwt@ == jwt_hs256(
                    session_payload(self.tokens().audience(), request.pub_key@, resp.exp as nat),
                    self.tokens().secret(),
                )
            },
            r matches Err(e) ==> self.refusal_at(*request, now) == Some(e),
    {
        let max = self.jwt.max_duration_sec();
        if request.duration > max {
            return Err(Error::InvalidDuration(request.duration, max));
        }
        if !self.is_valid_timestamp(request.timestamp, now) {
            return Err(Error::InvalidTimestamp);
        }
        if !self.verify_auth_request(request) {
            return Err(Error::InvalidSignature);
        }
        if now > usize::MAX - request.duration {
            return Err(Error::InvalidDuration(request.duration, max));
        }
        let subject = request.pub_key.to_string();
        let claim = Claim::create(subject, request.duration, now);
        let jwt = self.jwt.sign(&claim)?;
        Ok(AuthResponse { pub_key: request.pub_key, jwt, exp: claim.exp })
    }

    /// Grants a session for `request` at the current time, or says why not.
    pub fn authorize(&self, request: &AuthRequest) -> (r: Result<AuthResponse>)
        ensures
            request.duration > self.tokens().max_duration() ==> r == Err::<AuthResponse, Error>(
                Error::InvalidDuration(request.duration, self.tokens().max_duration()),
            ),
            !is_authentic(self.challenge_secret(), *request) && request.duration
                <= self.tokens().max_duration() ==> r is Err,
            r matches Ok(resp) ==> exists|now: usize|
                {
                    &&& #[trigger] self.refusal_at(*request, now) is None
                    &&& resp.pub_key == request.pub_key
                    &&& resp.exp == now + request.duration
                    &&& resp.jwt@ == jwt_hs256(
                        session_payload(self.tokens().audience(), request.pub_key@, resp.exp as nat),
                        self.tokens().secret(),
                    )
                },
            r matches Err(e) ==> exists|now: usize| #[trigger] self.refusal_at(*request, now) == Some(e),
    {
        let now = current_timestamp() as usize;
        self.authorize_at(request, now)
    }
}

} // verus!
