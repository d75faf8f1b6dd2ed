//! What a provider of service principals takes and returns.

use crate::ids::Uuid;
use vstd::prelude::*;

verus! {

/// A tenant.
#[derive(Clone, Copy, Debug, PartialEq, Eq, Structural)]
pub struct TenantId(pub Uuid);

/// What a principal is created from.
#[derive(Clone, Debug, PartialEq, Eq)]
pub struct CreateServicePrincipalRequest {
    /// The tenant that will own the principal.
    pub tenant_id: TenantId,
    /// The name that the caller picked.
    pub name: String,
    /// The client scopes to attach.
    pub scopes: Vec<String>,
}

/// A client secret. It is wiped from memory when dropped and cannot be printed.
#[verifier::external_body]
pub struct ClientSecret {
    inner: secrecy::SecretString,
}

/// The text that a secret holds.
pub uninterp spec fn secret_text(secret: ClientSecret) -> Seq<char>;

/// Calls `secrecy::SecretString::from`: the secret holds the given text.
#[verifier::external_body]
fn seal(text: String) -> (secret: ClientSecret)
    ensures
        secret_text(secret) == text@,
{
    ClientSecret { inner: secrecy::SecretString::from(text) }
}

/// Calls `expose_secret` of `secrecy::SecretString`: the text that the secret holds.
#[verifier::external_body]
fn unseal(secret: &ClientSecret) -> (text: String)
    ensures
        text@ == secret_text(*secret),
{
    secrecy::ExposeSecret::expose_secret(&secret.inner).to_owned()
}

impl ClientSecret {
    /// A secret that holds `text`.
    pub fn new(text: String) -> (secret: ClientSecret)
        ensures
            secret_text(secret) == text@,
    {
        seal(text)
    }

    /// The text that the secret holds.
    pub fn expose(&self) -> (text: String)
        ensures
            text@ == secret_text(*self),
    {
        unseal(self)
    }
}

/// Live credentials of a principal.
pub struct ServicePrincipalCredentials {
    pub client_id: String,
    pub client_secret: ClientSecret,
    /// The token endpoint for the `client_credentials` grant.
    pub token_url: String,
    /// The subject of issued tokens.
    pub subject_id: Uuid,
}

/// A listing entry, without secrets.
#[derive(Clone, Debug, PartialEq, Eq)]
pub struct ServicePrincipalSummary {
    pub client_id: String,
    /// The name that the principal was created with, verbatim.
    pub name: String,
    /// Whether the client can authenticate at present.
    pub enabled: bool,
    /// The attached client scopes.
    pub scopes: Vec<String>,
}

} // verus!
