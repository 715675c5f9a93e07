//! Stateless session tokens.
//!
//! A token is a signed, self-contained claim set `{subject, expiry}`.  There
//! is no server-side session table: verification is a pure function of the
//! token, the server-held secret, and the current time.  Signing and
//! signature checking are outside calls (HMAC-signed JWTs); what they return
//! is named by `claims_of` below, and the expiry check is done here, in
//! verified code, against a caller-supplied clock reading.

use vstd::prelude::*;

verus! {

/// How long a freshly issued token stays valid, in seconds.
pub const TOKEN_TTL_SECONDS: u64 = 86400;

/// The decoded payload of a session token: the authenticated subject and
/// the expiry as seconds since the epoch.
pub struct Claims {
    pub sub: String,
    pub exp: u64,
}

impl Claims {
    pub open spec fn view(&self) -> (Seq<char>, u64) {
        (self.sub@, self.exp)
    }
}

impl Clone for Claims {
    fn clone(&self) -> (r: Self)
        ensures
            r@ == self@,
    {
        Claims { sub: self.sub.clone(), exp: self.exp }
    }
}

/// What decoding a token under a given secret yields: the claims if the
/// signature verifies and the payload carries a subject and an expiry,
/// nothing otherwise.  Decoding validates the signature only — no clock is
/// involved — so the outcome is a pure function of token and secret.
pub uninterp spec fn claims_of(token: Seq<char>, secret: Seq<u8>) -> Option<(Seq<char>, u64)>;

/// Relies on `jsonwebtoken::encode` with an HS256 header: the result is a
/// JWT whose payload holds exactly `{sub, exp}` and whose signature
/// verifies under the same secret, so decoding it yields these claims back.
/// The call cannot fail on this path: a key from `from_secret` always has
/// the HMAC family the header asks for, HMAC-SHA256 accepts a key of any
/// length, and the two-field payload always serializes.  This assumes the
/// crate's built-in RustCrypto provider is the process-wide default, as it
/// is in this build; a process that installs another provider before first
/// use is outside this contract.
#[verifier::external_body]
fn sign_claims(sub: &str, exp: u64, secret: &[u8]) -> (r: Option<String>)
    ensures
        r is Some,
        r matches Some(t) ==> claims_of(t@, secret@) == Some((sub@, exp)),
{
    let mut payload = serde_json::Map::new();
    payload.insert("sub".to_string(), serde_json::Value::String(sub.to_string()));
    payload.insert("exp".to_string(), serde_json::Value::Number(serde_json::Number::from(exp)));
    let header = jsonwebtoken::Header::new(jsonwebtoken::Algorithm::HS256);
    let key = jsonwebtoken::EncodingKey::from_secret(secret);
    match jsonwebtoken::encode(&header, &serde_json::Value::Object(payload), &key) {
        Ok(t) => Some(t),
        Err(_) => None,
    }
}

/// Relies on `jsonwebtoken::decode` with expiry validation turned off: it
/// checks the HS256 signature under the secret and hands the payload back,
/// a pure function of token and secret — no clock is read.  As with
/// signing, this assumes the built-in RustCrypto provider is the
/// process-wide default.  Note that this configuration rejects a token
/// carrying an `aud` claim even when its signature is good; `claims_of`
/// names exactly what this configuration returns.
#[verifier::external_body]
fn decode_token(token: &str, secret: &[u8]) -> (r: Option<Claims>)
    ensures
        r matches Some(c) ==> claims_of(token@, secret@) == Some((c.sub@, c.exp)),
        r is None ==> claims_of(token@, secret@) is None,
{
    let mut validation = jsonwebtoken::Validation::new(jsonwebtoken::Algorithm::HS256);
    validation.validate_exp = false;
    validation.required_spec_claims = std::collections::HashSet::new();
    let key = jsonwebtoken::DecodingKey::from_secret(secret);
    match jsonwebtoken::decode::<serde_json::Value>(token, &key, &validation) {
        Ok(data) => {
            let sub = data.claims.get("sub")?.as_str()?.to_string();
            let exp = data.claims.get("exp")?.as_u64()?;
            Some(Claims { sub, exp })
        },
        Err(_) => None,
    }
}

/// What token verification at clock reading `now` yields: the claims when
/// the signature is good and the token has not expired, nothing otherwise.
pub open spec fn spec_verify_token(token: Seq<char>, secret: Seq<u8>, now: u64) -> Option<
    (Seq<char>, u64),
> {
    match claims_of(token, secret) {
        Some((sub, exp)) => if now < exp {
            Some((sub, exp))
        } else {
            None
        },
        None => None,
    }
}

/// Issue a token for `subject`, expiring `TOKEN_TTL_SECONDS` after `now`.
/// Issuance always succeeds: signing a two-field claim set under an HMAC
/// secret has no failure case.
pub fn issue_token(subject: &str, secret: &[u8], now: u64) -> (r: Option<String>)
    requires
        now + TOKEN_TTL_SECONDS <= u64::MAX,
    ensures
        r is Some,
        r matches Some(t) ==> claims_of(t@, secret@) == Some((
            subject@,
            (now + TOKEN_TTL_SECONDS) as u64,
        )),
{
    sign_claims(subject, now + TOKEN_TTL_SECONDS, secret)
}

/// Verify a bearer token at clock reading `now`: the signature must check
/// out under `secret` and the expiry must lie strictly in the future.  A bad
/// signature and an expired token are indistinguishable to the caller.
pub fn verify_token(token: &str, secret: &[u8], now: u64) -> (r: Option<Claims>)
    ensures
        match r {
            Some(c) => spec_verify_token(token@, secret@, now) == Some((c.sub@, c.exp)),
            None => spec_verify_token(token@, secret@, now) is None,
        },
{
    match decode_token(token, secret) {
        Some(c) => if now < c.exp {
            Some(c)
        } else {
            None
        },
        None => None,
    }
}

/// What extracting the bearer token from an `Authorization` header value
/// yields: the part after the `Bearer ` scheme prefix, or nothing when the
/// value does not start with that prefix.
pub open spec fn spec_bearer_token(header: Seq<char>) -> Option<Seq<char>> {
    if header.len() >= 7 && header.subrange(0, 7) == "Bearer "@ {
        Some(header.skip(7))
    } else {
        None
    }
}

/// Extract the bearer token from an `Authorization` header value: the part
/// after the `Bearer ` scheme prefix.
pub fn bearer_token<'a>(header: &'a str) -> (r: Option<&'a str>)
    ensures
        match r {
            Some(t) => spec_bearer_token(header@) == Some(t@),
            None => spec_bearer_token(header@) is None,
        },
{
    proof {
        reveal_strlit("Bearer ");
    }
    let scheme = "Bearer ";
    let n = header.unicode_len();
    if n < 7 {
        return None;
    }
    let mut i: usize = 0;
    while i < 7
        invariant
            i <= 7,
            n == header@.len(),
            n >= 7,
            scheme@ =~= "Bearer "@,
            forall|k: int| 0 <= k < i ==> header@[k] == scheme@[k],
        decreases 7 - i,
    {
        proof {
            reveal_strlit("Bearer ");
        }
        if header.get_char(i) != scheme.get_char(i) {
            proof {
                assert(header@.subrange(0, 7) != "Bearer "@) by {
                    assert(header@.subrange(0, 7)[i as int] == header@[i as int]);
                }
            }
            return None;
        }
        i += 1;
    }
    let rest = header.substring_char(7, n);
    proof {
        assert(header@.subrange(0, 7) =~= "Bearer "@);
        assert(rest@ =~= header@.skip(7));
    }
    Some(rest)
}

/// Token lifecycle: a token carrying an expiry validates at every clock
/// reading before that expiry — in particular right after issuance — and is
/// rejected at every reading at or past it.
pub proof fn lemma_token_lifecycle(
    token: Seq<char>,
    secret: Seq<u8>,
    sub: Seq<char>,
    exp: u64,
    now_early: u64,
    now_late: u64,
)
    requires
        claims_of(token, secret) == Some((sub, exp)),
        now_early < exp,
        now_late >= exp,
    ensures
        spec_verify_token(token, secret, now_early) == Some((sub, exp)),
        spec_verify_token(token, secret, now_late) is None,
{
}

} // verus!
