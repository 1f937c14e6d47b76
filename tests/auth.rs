use hmac::Mac;
use jsonwebtoken::{get_current_timestamp, Validation};
use music3_server::auth::Authorizer;
use music3_server::claim::{read_payload, render_payload, Claim};
use music3_server::conf::{AuthConfig, Config};
use music3_server::error::Error;
use music3_server::jwt::{Jwt, JwtConfig, JwtInner};
use music3_server::keys::{PublicKey, Signature};
use music3_server::mac::Hmac;
use music3_server::param::{build_message, AuthRequest, ChallengeResponse};
use music3_server::utils::{deserialize, serialize, Base64};
use solana_sdk::pubkey::Pubkey;
use solana_sdk::signature::Keypair;
use solana_sdk::signer::Signer;

fn key_of(keypair: &Keypair) -> PublicKey {
    PublicKey::new(keypair.pubkey().to_bytes())
}

fn sign(keypair: &Keypair, message: &[u8]) -> Signature {
    let signature: [u8; 64] = keypair.sign_message(message).into();
    Signature::new(signature)
}

fn chars(s: &str) -> Vec<char> {
    s.chars().collect()
}

fn answer(authorizer: &Authorizer, keypair: &Keypair, duration: usize) -> (ChallengeResponse, AuthRequest) {
    let challenge = authorizer.generate_challenge(&key_of(keypair));
    let signature = sign(keypair, &challenge.build_message());
    let request = AuthRequest {
        pub_key: key_of(keypair),
        signature,
        hmac: challenge.hmac.clone(),
        timestamp: challenge.timestamp,
        duration,
    };
    (challenge, request)
}

#[test]
fn generate_hmac_and_verify() {
    let secret = b"music3-hmac-secret";
    let hmac = Hmac::new(secret);
    let pub_key = PublicKey::new(Pubkey::new_unique().to_bytes());
    let (hmac_code, ts) = hmac.duplicate().generate(&pub_key);
    assert!(hmac.verify(&pub_key, &hmac_code, ts));
}

#[test]
fn sign_and_verify_jwt() {
    let keypair = Keypair::new();
    let jwt = JwtInner::from_secret("music3", 86400, 120, b"secret");
    let claim = Claim {
        sub: keypair.pubkey().to_string(),
        exp: (get_current_timestamp() + Validation::default().leeway) as usize,
    };
    println!("claim: {:?}", claim);
    let token = jwt.sign(&claim).unwrap();
    println!("token: {token}");
    let claim_: Claim = jwt.verify(&token).unwrap();
    assert_eq!(claim, claim_);
}

#[test]
fn verify_user_signature() {
    let hmac = Hmac::new(b"secret");
    let keypair = Keypair::new();
    let (hm, ts) = hmac.generate(&key_of(&keypair));
    let message = build_message(&hm, ts);
    let signature = sign(&keypair, &message);
    let request = AuthRequest {
        pub_key: key_of(&keypair),
        signature,
        hmac: hm.clone(),
        timestamp: ts,
        duration: 30,
    };
    assert!(request.verify());
}

#[test]
fn challenge_and_authorize() {
    let config = AuthConfig {
        jwt: JwtConfig::default(),
        hmac_secret: "music3-hmac-secret".to_string(),
    };
    let max_duration_sec = config.jwt.max_duration_sec;
    let authorizer = Authorizer::new(config);
    let keypair = Keypair::new();
    let duration = max_duration_sec / 2;
    let (challenge, request) = answer(&authorizer, &keypair, duration);
    let response = authorizer.authorize(&request).unwrap();
    assert_eq!(response.pub_key, key_of(&keypair));
    assert!(response.exp >= challenge.timestamp + duration);
    let claim = authorizer.jwt().verify(&response.jwt).unwrap();
    assert_eq!(claim.sub, keypair.pubkey().to_string());
}

#[test]
fn scenario_fresh_answer_is_granted_from_authorization_time() {
    let authorizer = Authorizer::new(AuthConfig::default());
    let keypair = Keypair::new();
    let (challenge, request) = answer(&authorizer, &keypair, 3600);
    let t0 = challenge.timestamp;
    let response = authorizer.authorize_at(&request, t0 + 5).unwrap();
    assert_eq!(response.pub_key, key_of(&keypair));
    assert_eq!(response.exp, t0 + 5 + 3600);
    assert!(response.exp >= t0 + 3600);
    let claim = authorizer.jwt().verify(&response.jwt).unwrap();
    assert_eq!(claim.sub, keypair.pubkey().to_string());
    assert_eq!(claim.exp, t0 + 5 + 3600);
}

#[test]
fn overlong_duration_is_refused() {
    let authorizer = Authorizer::new(AuthConfig::default());
    let keypair = Keypair::new();
    let (challenge, request) = answer(&authorizer, &keypair, 86401);
    let result = authorizer.authorize_at(&request, challenge.timestamp + 1);
    assert_eq!(result, Err(Error::InvalidDuration(86401, 86400)));
}

#[test]
fn longest_allowed_duration_is_granted() {
    let authorizer = Authorizer::new(AuthConfig::default());
    let keypair = Keypair::new();
    let (challenge, request) = answer(&authorizer, &keypair, 86400);
    let response = authorizer.authorize_at(&request, challenge.timestamp).unwrap();
    assert_eq!(response.exp, challenge.timestamp + 86400);
}

#[test]
fn zero_duration_is_granted() {
    let authorizer = Authorizer::new(AuthConfig::default());
    let keypair = Keypair::new();
    let (challenge, request) = answer(&authorizer, &keypair, 0);
    let response = authorizer.authorize_at(&request, challenge.timestamp + 7).unwrap();
    assert_eq!(response.exp, challenge.timestamp + 7);
}

#[test]
fn stale_challenge_is_refused() {
    let authorizer = Authorizer::new(AuthConfig::default());
    let keypair = Keypair::new();
    let (challenge, request) = answer(&authorizer, &keypair, 60);
    assert_eq!(
        authorizer.authorize_at(&request, challenge.timestamp + 121),
        Err(Error::InvalidTimestamp)
    );
    assert!(authorizer.authorize_at(&request, challenge.timestamp + 120).is_ok());
    assert!(!authorizer.is_valid_timestamp(challenge.timestamp, challenge.timestamp + 121));
    assert!(authorizer.is_valid_timestamp(challenge.timestamp, challenge.timestamp + 120));
}

#[test]
fn future_timestamp_is_not_refused_as_stale() {
    let authorizer = Authorizer::new(AuthConfig::default());
    assert!(authorizer.is_valid_timestamp(1000, 10));
    assert!(authorizer.is_valid_timestamp(usize::MAX, 0));
}

#[test]
fn signature_of_another_keypair_is_refused() {
    let authorizer = Authorizer::new(AuthConfig::default());
    let keypair = Keypair::new();
    let intruder = Keypair::new();
    let (challenge, mut request) = answer(&authorizer, &keypair, 60);
    request.signature = sign(&intruder, &challenge.build_message());
    assert_eq!(
        authorizer.authorize_at(&request, challenge.timestamp),
        Err(Error::InvalidSignature)
    );
}

#[test]
fn altered_code_is_refused() {
    let authorizer = Authorizer::new(AuthConfig::default());
    let keypair = Keypair::new();
    let (challenge, request) = answer(&authorizer, &keypair, 60);
    let mut code = challenge.hmac.clone().into_inner();
    code[3] ^= 1;
    let altered = Base64::from_vec(code);
    let signature = sign(&keypair, &build_message(&altered, challenge.timestamp));
    let request = AuthRequest { hmac: altered, signature, ..request };
    assert!(request.verify());
    assert!(!authorizer.verify_auth_request(&request));
    assert_eq!(
        authorizer.authorize_at(&request, challenge.timestamp),
        Err(Error::InvalidSignature)
    );
}

#[test]
fn end_of_session_past_usize_is_refused() {
    let authorizer = Authorizer::new(AuthConfig::default());
    let keypair = Keypair::new();
    let (challenge, request) = answer(&authorizer, &keypair, 10);
    let _ = challenge;
    let hmac = authorizer.hmac_cloned();
    let late = usize::MAX - 5;
    let code = hmac.code(&request.pub_key, late);
    let signature = sign(&keypair, &build_message(&code, late));
    let request = AuthRequest { hmac: code, signature, timestamp: late, ..request };
    assert_eq!(
        authorizer.authorize_at(&request, late),
        Err(Error::InvalidDuration(10, 86400))
    );
}

#[test]
fn code_is_bound_to_key_time_and_bytes() {
    let hmac = Hmac::new(b"music3-hmac-secret");
    let key = PublicKey::new(Pubkey::new_unique().to_bytes());
    let other = PublicKey::new(Pubkey::new_unique().to_bytes());
    let (code, ts) = hmac.generate(&key);
    assert_eq!(code.len(), 32);
    assert!(hmac.verify(&key, &code, ts));
    assert!(!hmac.verify(&key, &code, ts + 1));
    assert!(!hmac.verify(&other, &code, ts));
    let mut bytes = code.clone().into_inner();
    bytes[0] ^= 0x80;
    assert!(!hmac.verify(&key, &Base64::from_vec(bytes), ts));
    let mut longer = code.clone().into_inner();
    longer.push(0);
    assert!(!hmac.verify(&key, &Base64::from_vec(longer), ts));
    assert!(!Hmac::new(b"another-secret").verify(&key, &code, ts));
}

#[test]
fn code_is_hmac_sha256_of_key_and_big_endian_time() {
    let secret = b"music3-hmac-secret";
    let key = PublicKey::new([7u8; 32]);
    let ts: usize = 0x0102_0304_0506_0708;
    let mut message = vec![7u8; 32];
    message.extend_from_slice(&[1, 2, 3, 4, 5, 6, 7, 8]);
    let mut mac = hmac::Hmac::<sha2::Sha256>::new_from_slice(secret).unwrap();
    mac.update(&message);
    let expected = mac.finalize().into_bytes().to_vec();
    assert_eq!(Hmac::new(secret).code(&key, ts).into_inner(), expected);
}

#[test]
fn message_is_code_then_big_endian_timestamp() {
    let code = Base64::from_vec(vec![0xaa, 0xbb, 0xcc]);
    let message = build_message(&code, 0x0102_0304_0506_0708);
    assert_eq!(message, vec![0xaa, 0xbb, 0xcc, 1, 2, 3, 4, 5, 6, 7, 8]);
    let challenge = ChallengeResponse { hmac: code.clone(), timestamp: 1 };
    assert_eq!(challenge.build_message(), vec![0xaa, 0xbb, 0xcc, 0, 0, 0, 0, 0, 0, 0, 1]);
}

#[test]
fn token_round_trip_keeps_the_claim() {
    let jwt = Jwt::from_inner(JwtInner::from_secret("music3", 86400, 120, b"secret"));
    let claim = Claim::create("subject-1".to_string(), 600, get_current_timestamp() as usize);
    let token = jwt.sign(&claim).unwrap();
    assert_eq!(jwt.verify(&token), Ok(claim));
}

#[test]
fn token_for_another_audience_is_refused() {
    let signer = JwtInner::from_secret("music3", 86400, 120, b"secret");
    let other = JwtInner::from_secret("other", 86400, 120, b"secret");
    let claim = Claim::create("subject-1".to_string(), 600, get_current_timestamp() as usize);
    let token = signer.sign(&claim).unwrap();
    assert_eq!(other.verify(&token), Err(Error::JwtVerificationFailed));
}

#[test]
fn token_under_another_secret_is_refused() {
    let signer = JwtInner::from_secret("music3", 86400, 120, b"secret");
    let other = JwtInner::from_secret("music3", 86400, 120, b"other-secret");
    let claim = Claim::create("subject-1".to_string(), 600, get_current_timestamp() as usize);
    let token = signer.sign(&claim).unwrap();
    assert_eq!(other.verify(&token), Err(Error::JwtVerificationFailed));
}

#[test]
fn expired_token_is_refused() {
    let jwt = JwtInner::from_secret("music3", 86400, 120, b"secret");
    let claim = Claim { sub: "subject-1".to_string(), exp: get_current_timestamp() as usize - 3600 };
    let token = jwt.sign(&claim).unwrap();
    assert_eq!(jwt.verify(&token), Err(Error::JwtVerificationFailed));
}

#[test]
fn malformed_token_is_refused() {
    let jwt = JwtInner::from_secret("music3", 86400, 120, b"secret");
    assert_eq!(jwt.verify("not-a-token"), Err(Error::JwtVerificationFailed));
}

#[test]
fn token_is_the_hs256_encoding_of_the_payload() {
    let jwt = JwtInner::from_secret("music3", 86400, 120, b"secret");
    let claim = Claim { sub: "abc".to_string(), exp: 4102444800 };
    let token = jwt.sign(&claim).unwrap();
    let data = jsonwebtoken::decode::<serde_json::Value>(
        &token,
        &jsonwebtoken::DecodingKey::from_secret(b"secret"),
        &{
            let mut v = Validation::default();
            v.set_audience(&["music3"]);
            v
        },
    )
    .unwrap();
    assert_eq!(data.claims["aud"], "music3");
    assert_eq!(data.claims["sub"], "abc");
    assert_eq!(data.claims["exp"], 4102444800u64);
}

#[test]
fn claims_with_quotes_backslashes_and_controls_round_trip() {
    let jwt = JwtInner::from_secret("mu\\sic\"3", 86400, 120, b"secret");
    let claim = Claim::create("a\"b\\c\nd\u{1}e".to_string(), 600, get_current_timestamp() as usize);
    let token = jwt.sign(&claim).unwrap();
    assert_eq!(jwt.verify(&token), Ok(claim));
}

#[test]
fn audience_with_escapes_still_authorizes() {
    let mut config = AuthConfig::default();
    config.jwt.audience = "line\nbreak \"q\"".to_string();
    let authorizer = Authorizer::new(config);
    let keypair = Keypair::new();
    let (challenge, request) = answer(&authorizer, &keypair, 60);
    let response = authorizer.authorize_at(&request, challenge.timestamp).unwrap();
    let claim = authorizer.jwt().verify_at(&response.jwt, challenge.timestamp).unwrap();
    assert_eq!(claim.sub, keypair.pubkey().to_string());
}

#[test]
fn payload_escapes_are_json_escapes() {
    let text = render_payload(&chars("a\"b"), 1, &chars("c\\d\ne\u{1f}"));
    let s: String = text.iter().collect();
    assert_eq!(s, "{\"aud\":\"a\\\"b\",\"exp\":1,\"sub\":\"c\\\\d\\u000ae\\u001f\"}");
    let value: serde_json::Value = serde_json::from_str(&s).unwrap();
    assert_eq!(value["aud"], "a\"b");
    assert_eq!(value["sub"], "c\\d\ne\u{1f}");
    assert_eq!(read_payload(&text), Some((chars("a\"b"), 1, chars("c\\d\ne\u{1f}"))));
    assert_eq!(read_payload(&chars("{\"aud\":\"a\\u000A\",\"exp\":1,\"sub\":\"b\"}")), None);
    assert_eq!(read_payload(&chars("{\"aud\":\"a\\n\",\"exp\":1,\"sub\":\"b\"}")), None);
    assert_eq!(read_payload(&chars("{\"aud\":\"a\nb\",\"exp\":1,\"sub\":\"b\"}")), None);
}

#[test]
fn token_expiry_is_checked_at_the_given_time() {
    let jwt = JwtInner::from_secret("music3", 86400, 120, b"secret");
    let claim = Claim { sub: "k".to_string(), exp: 1000 };
    let token = jwt.sign(&claim).unwrap();
    assert_eq!(jwt.verify_at(&token, 1000), Ok(claim.clone()));
    assert_eq!(jwt.verify_at(&token, 999), Ok(claim));
    assert_eq!(jwt.verify_at(&token, 1001), Err(Error::JwtVerificationFailed));
}

#[test]
fn token_just_past_expiry_is_refused() {
    let jwt = JwtInner::from_secret("music3", 86400, 120, b"secret");
    let claim = Claim {
        sub: "k".to_string(),
        exp: (get_current_timestamp() - Validation::default().leeway) as usize,
    };
    let token = jwt.sign(&claim).unwrap();
    assert_eq!(jwt.verify(&token), Err(Error::JwtVerificationFailed));
}

#[test]
fn non_ascii_claims_are_signed() {
    let jwt = JwtInner::from_secret("caf\u{e9}", 86400, 120, b"secret");
    let claim = Claim::create("\u{1f3b5} listener".to_string(), 600, get_current_timestamp() as usize);
    let token = jwt.sign(&claim).unwrap();
    assert_eq!(jwt.verify(&token), Ok(claim));
}

#[test]
fn payload_text_is_compact_json() {
    let text = render_payload(&chars("music3"), 42, &chars("abc"));
    let s: String = text.iter().collect();
    assert_eq!(s, "{\"aud\":\"music3\",\"exp\":42,\"sub\":\"abc\"}");
    assert_eq!(read_payload(&text), Some((chars("music3"), 42, chars("abc"))));
    let zero: String = render_payload(&chars(""), 0, &chars("")).iter().collect();
    assert_eq!(zero, "{\"aud\":\"\",\"exp\":0,\"sub\":\"\"}");
}

#[test]
fn payload_reader_takes_only_the_written_form() {
    assert_eq!(read_payload(&chars("{\"aud\":\"a\",\"exp\":042,\"sub\":\"b\"}")), None);
    assert_eq!(read_payload(&chars("{\"aud\":\"a\", \"exp\":42,\"sub\":\"b\"}")), None);
    assert_eq!(read_payload(&chars("{\"aud\":\"a\",\"exp\":42,\"sub\":\"b\"} ")), None);
    assert_eq!(read_payload(&chars("{\"aud\":\"a\",\"exp\":,\"sub\":\"b\"}")), None);
    assert_eq!(read_payload(&chars("{\"exp\":42,\"aud\":\"a\",\"sub\":\"b\"}")), None);
    assert_eq!(read_payload(&chars("")), None);
    let too_big = format!("{{\"aud\":\"a\",\"exp\":{}0,\"sub\":\"b\"}}", usize::MAX);
    assert_eq!(read_payload(&chars(&too_big)), None);
    let largest = format!("{{\"aud\":\"a\",\"exp\":{},\"sub\":\"b\"}}", usize::MAX);
    assert_eq!(read_payload(&chars(&largest)), Some((chars("a"), usize::MAX, chars("b"))));
}

#[test]
fn payload_of_another_audience_gives_no_claim() {
    let jwt = JwtInner::from_secret("music3", 86400, 120, b"secret");
    assert_eq!(
        jwt.claim_from_payload("{\"aud\":\"music3\",\"exp\":5,\"sub\":\"k\"}", 5),
        Ok(Claim { sub: "k".to_string(), exp: 5 })
    );
    assert_eq!(
        jwt.claim_from_payload("{\"aud\":\"music4\",\"exp\":5,\"sub\":\"k\"}", 5),
        Err(Error::JwtVerificationFailed)
    );
    assert_eq!(
        jwt.claim_from_payload("{\"aud\":\"music3\",\"exp\":5,\"sub\":\"k\"}", 6),
        Err(Error::JwtVerificationFailed)
    );
}

#[test]
fn claim_create_and_expiry() {
    let claim = Claim::create("k".to_string(), 30, 100);
    assert_eq!(claim.exp, 130);
    assert!(!claim.expired(130));
    assert!(claim.expired(131));
}

#[test]
fn public_key_text_is_base58() {
    let key = Pubkey::new_unique();
    assert_eq!(PublicKey::new(key.to_bytes()).to_string(), key.to_string());
    assert_eq!(PublicKey::new([0u8; 32]).to_string(), "11111111111111111111111111111111");
}

#[test]
fn base64_text_form() {
    let value = Base64::from_slice(b"hello");
    assert_eq!(value.to_string(), "aGVsbG8=");
    assert_eq!(serialize(&value), "aGVsbG8=");
    assert_eq!(deserialize("aGVsbG8=").unwrap(), value);
    assert_eq!(Base64::from_str("aGVsbG8=").unwrap().into_inner(), b"hello".to_vec());
    assert!(Base64::from_str("aGVsbG8").is_err());
    assert!(Base64::from_str("aGVsbG9=").is_err());
    assert_eq!(Base64::from_vec(vec![]).to_string(), "");
}

#[test]
fn default_settings() {
    let config = Config::default();
    assert_eq!(config.auth.hmac_secret, "music3-hmac-secret");
    assert_eq!(config.auth.jwt.audience, "music3");
    assert_eq!(config.auth.jwt.secret, Base64::from_slice(b"music3-jwt-secret"));
    assert_eq!(config.auth.jwt.max_duration_sec, 86400);
    assert_eq!(config.auth.jwt.timestamp_timeout_sec, 120);
    let jwt = Jwt::from_config(&config.auth.jwt);
    assert_eq!(jwt.max_duration_sec(), 86400);
    assert_eq!(jwt.timestamp_timeout_sec(), 120);
}
