//! Credential checks: none, a shared secret, or a signed token whose
//! verification is the work of the token library.

use crate::text::text_eq;
use vstd::prelude::*;
use vstd::string::StringExecFns;

verus! {

#[verifier::external_type_specification]
#[verifier::external_body]
pub struct ExValidation(jsonwebtoken::Validation);

#[verifier::external_type_specification]
#[verifier::external_body]
pub struct ExJwtError(jsonwebtoken::errors::Error);

/// How signed tokens are verified: the shared secret of the HS256
/// signature and, where set, the issuer and the audience that a token must
/// name.
#[derive(Debug, Clone, PartialEq, Eq)]
pub struct JwtConfig {
    pub secret: String,
    pub issuer: Option<String>,
    pub audience: Option<String>,
}

/// How the gateway checks credentials. Chosen once at startup and only read
/// afterwards.
#[derive(Debug, Clone)]
pub enum AuthMode {
    /// Everyone is authorized.
    Open,
    /// Authorized is who presents this very token.
    SharedToken(String),
    /// Authorized is who presents a signed token that verifies.
    Jwt(JwtConfig),
}

/// The issuers that a validation accepts; none where it does not look at
/// the issuer.
pub uninterp spec fn accepted_issuers(validation: jsonwebtoken::Validation) -> Option<
    Set<Seq<char>>,
>;

/// The audiences that a validation accepts; none where it accepts any.
pub uninterp spec fn accepted_audiences(validation: jsonwebtoken::Validation) -> Option<
    Set<Seq<char>>,
>;

/// Whether a validation refuses a token whose expiry time has passed.
pub uninterp spec fn checks_expiry(validation: jsonwebtoken::Validation) -> bool;

/// `Validation::new` of jsonwebtoken for HS256, with the check of the expiry
/// time switched on: a validation that names no issuers and no audiences.
#[verifier::external_body]
fn hs256_validation() -> (validation: jsonwebtoken::Validation)
    ensures
        accepted_issuers(validation) is None,
        accepted_audiences(validation) is None,
        checks_expiry(validation),
{
    let mut validation = jsonwebtoken::Validation::new(jsonwebtoken::Algorithm::HS256);
    validation.validate_exp = true;
    validation
}

/// `Validation::set_issuer` of jsonwebtoken with one issuer: it becomes the
/// only accepted issuer, and nothing else changes.
#[verifier::external_body]
fn require_issuer(validation: &mut jsonwebtoken::Validation, issuer: &str)
    ensures
        accepted_issuers(*final(validation)) == Some(set![issuer@]),
        accepted_audiences(*final(validation)) == accepted_audiences(*old(validation)),
        checks_expiry(*final(validation)) == checks_expiry(*old(validation)),
{
    validation.set_issuer(&[issuer]);
}

/// `Validation::set_audience` of jsonwebtoken with one audience: it becomes
/// the only accepted audience, and nothing else changes.
#[verifier::external_body]
fn require_audience(validation: &mut jsonwebtoken::Validation, audience: &str)
    ensures
        accepted_audiences(*final(validation)) == Some(set![audience@]),
        accepted_issuers(*final(validation)) == accepted_issuers(*old(validation)),
        checks_expiry(*final(validation)) == checks_expiry(*old(validation)),
{
    validation.set_audience(&[audience]);
}

/// `jsonwebtoken::decode` with a key made by `DecodingKey::from_secret`: it
/// verifies the token's signature and claims and tells whether they hold.
/// The outcome depends on the time of the call, so nothing is claimed of it.
#[verifier::external_body]
fn decode_with_secret(token: &str, secret: &str, validation: &jsonwebtoken::Validation) -> (verdict:
    Result<(), jsonwebtoken::errors::Error>) {
    let key = jsonwebtoken::DecodingKey::from_secret(secret.as_bytes());
    jsonwebtoken::decode::<serde_json::Value>(token, &key, validation).map(|_| ())
}

/// `Display` of `jsonwebtoken::errors::Error`: the words with which the
/// error describes itself. Nothing is claimed of them.
#[verifier::external_body]
fn jwt_error_text(error: &jsonwebtoken::errors::Error) -> (text: String) {
    error.to_string()
}

/// The text of an optional string.
pub open spec fn optional_text(value: Option<String>) -> Option<Seq<char>> {
    match value {
        Some(text) => Some(text@),
        None => None,
    }
}

/// The set that holds just the given text, if there is one.
pub open spec fn only(value: Option<Seq<char>>) -> Option<Set<Seq<char>>> {
    match value {
        Some(text) => Some(set![text]),
        None => None,
    }
}

/// The validation that a configuration asks for: HS256, expiry enforced,
/// and the issuer and the audience required where they are configured.
pub fn jwt_validation(cfg: &JwtConfig) -> (validation: jsonwebtoken::Validation)
    ensures
        checks_expiry(validation),
        accepted_issuers(validation) == only(optional_text(cfg.issuer)),
        accepted_audiences(validation) == only(optional_text(cfg.audience)),
{
    let mut validation = hs256_validation();
    match &cfg.issuer {
        Some(issuer) => require_issuer(&mut validation, issuer.as_str()),
        None => {},
    }
    match &cfg.audience {
        Some(audience) => require_audience(&mut validation, audience.as_str()),
        None => {},
    }
    validation
}

/// Turns the outcome of a token verification into the gateway's result: a
/// refusal carries the verifier's words after "jwt validation failed: ".
pub fn jwt_verdict(verdict: Result<(), jsonwebtoken::errors::Error>) -> (result: Result<(), String>)
    ensures
        verdict is Ok <==> result is Ok,
        result matches Err(reason) ==> "jwt validation failed: "@.is_prefix_of(reason@),
{
    match verdict {
        Ok(()) => Ok(()),
        Err(error) => {
            let mut reason = "jwt validation failed: ".to_owned();
            reason.append(jwt_error_text(&error).as_str());
            Err(reason)
        },
    }
}

/// Verifies a signed token under HS256 with the configured secret, expiry
/// enforced, issuer and audience matched where configured.
pub fn validate_jwt_hs256(token: &str, cfg: &JwtConfig) -> (result: Result<(), String>)
    ensures
        result matches Err(reason) ==> "jwt validation failed: "@.is_prefix_of(reason@),
{
    let validation = jwt_validation(cfg);
    jwt_verdict(decode_with_secret(token, cfg.secret.as_str(), &validation))
}

/// The text of an optional string slice.
pub open spec fn presented(token: Option<&str>) -> Option<Seq<char>> {
    match token {
        Some(text) => Some(text@),
        None => None,
    }
}

impl AuthMode {
    /// What the mode decides by itself for a presented token: authorized or
    /// refused with a reason; nothing where the token library decides.
    pub open spec fn decided(self, token: Option<Seq<char>>) -> Option<Result<(), Seq<char>>> {
        match self {
            AuthMode::Open => Some(Ok(())),
            AuthMode::SharedToken(expected) => if token == Some(expected@) {
                Some(Ok(()))
            } else {
                Some(Err("missing or invalid token"@))
            },
            AuthMode::Jwt(_) => if token is None {
                Some(Err("missing jwt token"@))
            } else {
                None
            },
        }
    }

    /// Checks a presented credential.
    ///
    /// Without a mode everyone is authorized. With a shared token,
    /// authorized is who presents exactly that token. With signed tokens, a
    /// missing token is refused and a presented one is handed to the token
    /// library, whose verdict stands.
    pub fn validate(&self, token: Option<&str>) -> (result: Result<(), String>)
        ensures
            match self.decided(presented(token)) {
                Some(Ok(())) => result is Ok,
                Some(Err(expected)) => result matches Err(reason) && reason@ == expected,
                None => result matches Err(reason) ==> "jwt validation failed: "@.is_prefix_of(
                    reason@,
                ),
            },
    {
        match self {
            AuthMode::Open => Ok(()),
            AuthMode::SharedToken(expected) => {
                let matched = match token {
                    Some(value) => text_eq(value, expected.as_str()),
                    None => false,
                };
                if matched {
                    Ok(())
                } else {
                    Err("missing or invalid token".to_owned())
                }
            },
            AuthMode::Jwt(cfg) => {
                match token {
                    Some(value) => validate_jwt_hs256(value, cfg),
                    None => Err("missing jwt token".to_owned()),
                }
            },
        }
    }
}

} // verus!
