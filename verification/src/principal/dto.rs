//! The wire shapes of the facade.

use crate::ids::{hyphenated, Uuid};
use crate::principal::models::{secret_text, ServicePrincipalCredentials, ServicePrincipalSummary};
use crate::text::{debug_quote, debug_quoted};
use vstd::prelude::*;
use vstd::string::*;

verus! {

/// The body of a create request. The tenant comes from the path.
#[derive(Clone, Debug, PartialEq, Eq)]
pub struct CreateServicePrincipalRequestDto {
    /// A short suffix that the caller picks. The listing echoes it, so that callers
    /// need not parse client ids.
    pub name: String,
    /// The client scopes to attach. Empty when the body does not name any.
    pub scopes: Vec<String>,
}

/// Live credentials, returned by create and rotate only. There is no `Debug` for them:
/// see [`ServicePrincipalCredentialsDto::to_debug_string`].
#[derive(Clone, PartialEq, Eq)]
pub struct ServicePrincipalCredentialsDto {
    /// The client id. Opaque to callers.
    pub client_id: String,
    /// The secret. Returned once; a lost one is replaced by rotating it.
    pub client_secret: String,
    /// The token endpoint for the `client_credentials` grant.
    pub token_url: String,
    /// The subject of issued tokens.
    pub subject_id: Uuid,
}

/// A listing entry, without secrets.
#[derive(Clone, Debug, PartialEq, Eq)]
pub struct ServicePrincipalSummaryDto {
    /// The client id, by which rotating and revoking address the principal.
    pub client_id: String,
    /// The name that the principal was created with, verbatim. By it a caller
    /// finds what became of a create with an ambiguous outcome.
    pub name: String,
    /// Whether the client can authenticate at present.
    pub enabled: bool,
    /// The attached client scopes.
    pub scopes: Vec<String>,
}

/// The body of a listing.
#[derive(Clone, Debug, PartialEq, Eq)]
pub struct ListServicePrincipalsResponseDto {
    /// The principals of the tenant, in the order of the provider.
    pub service_principals: Vec<ServicePrincipalSummaryDto>,
}

/// The text of credentials in logs. The secret has no part in it.
pub open spec fn redacted_text(
    client_id: Seq<char>,
    token_url: Seq<char>,
    subject_id: Uuid,
) -> Seq<char> {
    "ServicePrincipalCredentialsDto { client_id: "@ + debug_quoted(client_id)
        + ", client_secret: \"[REDACTED]\", token_url: "@ + debug_quoted(token_url)
        + ", subject_id: "@ + hyphenated(subject_id) + " }"@
}

impl ServicePrincipalCredentialsDto {
    /// The text for logs.
    pub open spec fn debug_text(self) -> Seq<char> {
        redacted_text(self.client_id@, self.token_url@, self.subject_id)
    }

    /// The text for logs, with a placeholder in place of the secret.
    pub fn to_debug_string(&self) -> (text: String)
        ensures
            text@ == self.debug_text(),
    {
        let mut text = "ServicePrincipalCredentialsDto { client_id: ".to_owned();
        text.append(debug_quote(self.client_id.as_str()).as_str());
        text.append(", client_secret: \"[REDACTED]\", token_url: ");
        text.append(debug_quote(self.token_url.as_str()).as_str());
        text.append(", subject_id: ");
        text.append(self.subject_id.to_string().as_str());
        text.append(" }");
        text
    }
}

/// The text for logs is the same whatever the secret is.
pub proof fn law_secret_is_not_logged(dto: ServicePrincipalCredentialsDto, secret: String)
    ensures
        (ServicePrincipalCredentialsDto { client_secret: secret, ..dto }).debug_text()
            == dto.debug_text(),
{
}

/// The text for logs shows all but the secret: the client id and the token endpoint quoted,
/// and the subject.
pub proof fn law_the_rest_is_logged(dto: ServicePrincipalCredentialsDto)
    ensures
        dto.debug_text() == "ServicePrincipalCredentialsDto { client_id: "@ + debug_quoted(
            dto.client_id@,
        ) + ", client_secret: \"[REDACTED]\", token_url: "@ + debug_quoted(dto.token_url@)
            + ", subject_id: "@ + hyphenated(dto.subject_id) + " }"@,
{
}

impl vstd::std_specs::convert::FromSpecImpl<ServicePrincipalCredentials> for ServicePrincipalCredentialsDto {
    /// The result is fixed up to the identity of the exposed string, so it is stated
    /// by the `ensures` of `from`.
    open spec fn obeys_from_spec() -> bool {
        false
    }

    open spec fn from_spec(
        credentials: ServicePrincipalCredentials,
    ) -> ServicePrincipalCredentialsDto {
        arbitrary()
    }
}

impl From<ServicePrincipalCredentials> for ServicePrincipalCredentialsDto {
    fn from(credentials: ServicePrincipalCredentials) -> (dto: ServicePrincipalCredentialsDto)
        ensures
            dto.client_id == credentials.client_id,
            dto.client_secret@ == secret_text(credentials.client_secret),
            dto.token_url == credentials.token_url,
            dto.subject_id == credentials.subject_id,
    {
        ServicePrincipalCredentialsDto {
            client_id: credentials.client_id,
            client_secret: credentials.client_secret.expose(),
            token_url: credentials.token_url,
            subject_id: credentials.subject_id,
        }
    }
}

impl vstd::std_specs::convert::FromSpecImpl<ServicePrincipalSummary> for ServicePrincipalSummaryDto {
    open spec fn obeys_from_spec() -> bool {
        true
    }

    open spec fn from_spec(summary: ServicePrincipalSummary) -> ServicePrincipalSummaryDto {
        ServicePrincipalSummaryDto {
            client_id: summary.client_id,
            name: summary.name,
            enabled: summary.enabled,
            scopes: summary.scopes,
        }
    }
}

impl From<ServicePrincipalSummary> for ServicePrincipalSummaryDto {
    fn from(summary: ServicePrincipalSummary) -> (dto: ServicePrincipalSummaryDto)
        ensures
            dto.client_id == summary.client_id,
            dto.name == summary.name,
            dto.enabled == summary.enabled,
            dto.scopes == summary.scopes,
    {
        ServicePrincipalSummaryDto {
            client_id: summary.client_id,
            name: summary.name,
            enabled: summary.enabled,
            scopes: summary.scopes,
        }
    }
}

} // verus!
