//! The error model of the facade. It fails closed: provider text only gets in after
//! sanitizing.

use crate::principal::failure::{ServicePrincipalFailure, ServicePrincipalFailureView};
use crate::principal::sanitize::{
    is_single_spaced, law_clean_text_passes, law_sanitized_text_is_bounded,
    law_sanitized_text_is_single_spaced, sanitize_provider_detail, sanitized,
    MAX_PROVIDER_DETAIL_LEN, TRUNCATION_MARKER,
};
use vstd::prelude::*;
use vstd::string::*;

verus! {

/// Why the facade could not perform a request.
#[derive(Debug)]
pub enum DomainError {
    /// The provider rejected the input, with no state retained.
    InvalidInput {
        detail: String,
        /// The field at fault, when the provider names one.
        field: Option<String>,
    },
    /// The principal does not exist within the tenant.
    NotFound,
    /// The request was denied, or its constraints failed to compile.
    AccessDenied,
    /// No provider is registered.
    ProviderUnavailable,
    /// A clean upstream failure, with no state retained: a retry is harmless.
    Upstream { detail: String },
    /// Transport uncertainty: the provider may have retained state, so that a plain
    /// retry may meet its own leftovers.
    Ambiguous { detail: String },
}

/// What a [`DomainError`] stands for.
pub enum DomainErrorView {
    InvalidInput { detail: Seq<char>, field: Option<Seq<char>> },
    NotFound,
    AccessDenied,
    ProviderUnavailable,
    Upstream { detail: Seq<char> },
    Ambiguous { detail: Seq<char> },
}

impl DeepView for DomainError {
    type V = DomainErrorView;

    open spec fn deep_view(&self) -> DomainErrorView {
        match self {
            DomainError::InvalidInput { detail, field } => DomainErrorView::InvalidInput {
                detail: detail@,
                field: field.deep_view(),
            },
            DomainError::NotFound => DomainErrorView::NotFound,
            DomainError::AccessDenied => DomainErrorView::AccessDenied,
            DomainError::ProviderUnavailable => DomainErrorView::ProviderUnavailable,
            DomainError::Upstream { detail } => DomainErrorView::Upstream { detail: detail@ },
            DomainError::Ambiguous { detail } => DomainErrorView::Ambiguous { detail: detail@ },
        }
    }
}

/// What the facade makes of a failure of the provider.
pub open spec fn domain_error(failure: ServicePrincipalFailureView) -> DomainErrorView {
    match failure {
        ServicePrincipalFailureView::InvalidInput { detail, field } => {
            DomainErrorView::InvalidInput {
                detail: sanitized(detail),
                field: match field {
                    Some(field) => Some(sanitized(field)),
                    None => None,
                },
            }
        },
        ServicePrincipalFailureView::NotFound { .. } => DomainErrorView::NotFound,
        ServicePrincipalFailureView::CleanFailure { detail } => DomainErrorView::Upstream {
            detail: sanitized(detail),
        },
        ServicePrincipalFailureView::Ambiguous { detail } => DomainErrorView::Ambiguous {
            detail: sanitized(detail),
        },
    }
}

impl vstd::std_specs::convert::FromSpecImpl<ServicePrincipalFailure> for DomainError {
    /// The result is fixed up to the identity of its strings, so it is stated by the
    /// `ensures` of `from`.
    open spec fn obeys_from_spec() -> bool {
        false
    }

    open spec fn from_spec(failure: ServicePrincipalFailure) -> DomainError {
        arbitrary()
    }
}

/// The general mapping of provider failures. A revocation treats `NotFound` as success
/// before it comes to this; see [`revoke_outcome`].
impl From<ServicePrincipalFailure> for DomainError {
    fn from(failure: ServicePrincipalFailure) -> (error: DomainError)
        ensures
            error.deep_view() == domain_error(failure.deep_view()),
    {
        match failure {
            ServicePrincipalFailure::InvalidInput { detail, field } => {
                // The detail and the field come from the same untrusted side.
                let field = match field {
                    Some(field) => Some(sanitize_provider_detail(field.as_str())),
                    None => None,
                };
                DomainError::InvalidInput {
                    detail: sanitize_provider_detail(detail.as_str()),
                    field,
                }
            },
            ServicePrincipalFailure::NotFound { .. } => DomainError::NotFound,
            ServicePrincipalFailure::CleanFailure { detail } => DomainError::Upstream {
                detail: sanitize_provider_detail(detail.as_str()),
            },
            ServicePrincipalFailure::Ambiguous { detail } => DomainError::Ambiguous {
                detail: sanitize_provider_detail(detail.as_str()),
            },
        }
    }
}

impl DomainErrorView {
    /// The message for people.
    pub open spec fn message(self) -> Seq<char> {
        match self {
            DomainErrorView::InvalidInput { detail, .. } => "invalid input: "@ + detail,
            DomainErrorView::NotFound => "service principal not found"@,
            DomainErrorView::AccessDenied => "access denied"@,
            DomainErrorView::ProviderUnavailable => "service-principal provider unavailable"@,
            DomainErrorView::Upstream { detail } => "upstream unavailable: "@ + detail,
            DomainErrorView::Ambiguous { detail } => "upstream outcome ambiguous: "@ + detail,
        }
    }

    /// The HTTP status that the error is answered with.
    pub open spec fn status(self) -> u16 {
        match self {
            DomainErrorView::InvalidInput { .. } => 400,
            DomainErrorView::NotFound => 404,
            DomainErrorView::AccessDenied => 403,
            DomainErrorView::ProviderUnavailable => 503,
            DomainErrorView::Upstream { .. } => 503,
            DomainErrorView::Ambiguous { .. } => 409,
        }
    }

    /// Whether the error holds the given text.
    pub open spec fn holds_text(self, text: Seq<char>) -> bool {
        match self {
            DomainErrorView::InvalidInput { detail, field } => text == detail || field == Some(
                text,
            ),
            DomainErrorView::Upstream { detail } => text == detail,
            DomainErrorView::Ambiguous { detail } => text == detail,
            _ => false,
        }
    }
}

impl DomainError {
    /// The message for people.
    pub fn to_string(&self) -> (message: String)
        ensures
            message@ == self.deep_view().message(),
    {
        match self {
            DomainError::InvalidInput { detail, .. } => {
                let mut message = "invalid input: ".to_owned();
                message.append(detail.as_str());
                message
            },
            DomainError::NotFound => "service principal not found".to_owned(),
            DomainError::AccessDenied => "access denied".to_owned(),
            DomainError::ProviderUnavailable => {
                "service-principal provider unavailable".to_owned()
            },
            DomainError::Upstream { detail } => {
                let mut message = "upstream unavailable: ".to_owned();
                message.append(detail.as_str());
                message
            },
            DomainError::Ambiguous { detail } => {
                let mut message = "upstream outcome ambiguous: ".to_owned();
                message.append(detail.as_str());
                message
            },
        }
    }

    /// The HTTP status that the error is answered with. An ambiguous outcome is a
    /// conflict rather than an outage: retrying the same request is not the recovery.
    pub fn status(&self) -> (status: u16)
        ensures
            status == self.deep_view().status(),
    {
        match self {
            DomainError::InvalidInput { .. } => 400,
            DomainError::NotFound => 404,
            DomainError::AccessDenied => 403,
            DomainError::ProviderUnavailable => 503,
            DomainError::Upstream { .. } => 503,
            DomainError::Ambiguous { .. } => 409,
        }
    }
}

/// The outcome of a revocation. A principal that is not there counts as revoked, so
/// that revoking twice succeeds twice.
pub fn revoke_outcome(result: Result<(), ServicePrincipalFailure>) -> (outcome: Result<
    (),
    DomainError,
>)
    ensures
        match result {
            Ok(_) => outcome is Ok,
            Err(failure) => match failure.deep_view() {
                ServicePrincipalFailureView::NotFound { .. } => outcome is Ok,
                view => outcome matches Err(error) && error.deep_view() == domain_error(view),
            },
        },
{
    match result {
        Ok(_) => Ok(()),
        Err(ServicePrincipalFailure::NotFound { .. }) => Ok(()),
        Err(failure) => Err(DomainError::from(failure)),
    }
}

/// Provider text reaches a domain error only sanitized: whatever text the error holds
/// is visible ASCII in single-spaced words of bounded length.
pub proof fn law_domain_errors_hold_clean_text(
    failure: ServicePrincipalFailureView,
    text: Seq<char>,
)
    requires
        domain_error(failure).holds_text(text),
    ensures
        is_single_spaced(text),
        text.len() <= MAX_PROVIDER_DETAIL_LEN + TRUNCATION_MARKER@.len(),
{
    match failure {
        ServicePrincipalFailureView::InvalidInput { detail, field } => {
            law_sanitized_text_is_single_spaced(detail);
            law_sanitized_text_is_bounded(detail);
            if field is Some {
                law_sanitized_text_is_single_spaced(field.unwrap());
                law_sanitized_text_is_bounded(field.unwrap());
            }
        },
        ServicePrincipalFailureView::NotFound { .. } => {},
        ServicePrincipalFailureView::CleanFailure { detail } => {
            law_sanitized_text_is_single_spaced(detail);
            law_sanitized_text_is_bounded(detail);
        },
        ServicePrincipalFailureView::Ambiguous { detail } => {
            law_sanitized_text_is_single_spaced(detail);
            law_sanitized_text_is_bounded(detail);
        },
    }
}

/// A failure of the provider never becomes a denial or a missing provider, and keeps
/// its category: input at fault, absence, a clean failure and an ambiguous outcome are
/// answered with 400, 404, 503 and 409.
pub proof fn law_failures_keep_their_category(failure: ServicePrincipalFailureView)
    ensures
        domain_error(failure).status() == match failure {
            ServicePrincipalFailureView::InvalidInput { .. } => 400u16,
            ServicePrincipalFailureView::NotFound { .. } => 404,
            ServicePrincipalFailureView::CleanFailure { .. } => 503,
            ServicePrincipalFailureView::Ambiguous { .. } => 409,
        },
        domain_error(failure) !is AccessDenied,
        domain_error(failure) !is ProviderUnavailable,
        domain_error(failure) is InvalidInput <==> failure is InvalidInput,
        domain_error(failure) is NotFound <==> failure is NotFound,
        domain_error(failure) is Upstream <==> failure is CleanFailure,
        domain_error(failure) is Ambiguous <==> failure is Ambiguous,
        domain_error(failure) matches DomainErrorView::InvalidInput { field, .. } ==> (field is Some
            <==> failure->field is Some),
{
}

/// Rejected input keeps what the provider said of it: the detail becomes the detail, and
/// the field, where there is one, becomes the field, each sanitized by itself.
pub proof fn law_rejected_input_keeps_its_detail_and_field(
    detail: Seq<char>,
    field: Option<Seq<char>>,
)
    ensures
        domain_error((ServicePrincipalFailureView::InvalidInput { detail, field })) matches
            DomainErrorView::InvalidInput { detail: kept, field: kept_field } && {
            &&& kept == sanitized(detail)
            &&& kept_field is Some <==> field is Some
            &&& field matches Some(name) ==> kept_field == Some(sanitized(name))
        },
{
}

/// Text of the provider that is clean and short enough arrives as it is: the detail of each
/// category that has one, and the field of rejected input, whatever the other says.
pub proof fn law_clean_provider_text_arrives(
    text: Seq<char>,
    other: Seq<char>,
    field: Option<Seq<char>>,
)
    requires
        is_single_spaced(text),
        text.len() <= MAX_PROVIDER_DETAIL_LEN,
    ensures
        domain_error((ServicePrincipalFailureView::InvalidInput { detail: text, field })) matches
            DomainErrorView::InvalidInput { detail, .. } && detail == text,
        domain_error(
            (ServicePrincipalFailureView::InvalidInput { detail: other, field: Some(text) }),
        ) matches DomainErrorView::InvalidInput { field, .. } && field == Some(text),
        domain_error((ServicePrincipalFailureView::CleanFailure { detail: text })) == (
        DomainErrorView::Upstream { detail: text }),
        domain_error((ServicePrincipalFailureView::Ambiguous { detail: text })) == (
        DomainErrorView::Ambiguous { detail: text }),
{
    law_clean_text_passes(text);
}

/// The detail of a clean failure and of an ambiguous outcome is the provider's, sanitized.
pub proof fn law_upstream_failures_keep_their_detail(detail: Seq<char>)
    ensures
        domain_error((ServicePrincipalFailureView::CleanFailure { detail })) == (
        DomainErrorView::Upstream { detail: sanitized(detail) }),
        domain_error((ServicePrincipalFailureView::Ambiguous { detail })) == (
        DomainErrorView::Ambiguous { detail: sanitized(detail) }),
{
}

/// An error is seen as one of its kind, with its detail and its field.
pub proof fn law_error_views_hold_the_errors(error: DomainError)
    ensures
        error matches DomainError::InvalidInput { detail, field } ==> (
        error.deep_view() matches DomainErrorView::InvalidInput {
            detail: seen,
            field: seen_field,
        } && seen == detail@ && (match field {
            Some(name) => seen_field == Some(name@),
            None => seen_field is None,
        })),
        error is NotFound <==> error.deep_view() is NotFound,
        error is AccessDenied <==> error.deep_view() is AccessDenied,
        error is ProviderUnavailable <==> error.deep_view() is ProviderUnavailable,
        error matches DomainError::Upstream { detail } ==> error.deep_view() == (
        DomainErrorView::Upstream { detail: detail@ }),
        error matches DomainError::Ambiguous { detail } ==> error.deep_view() == (
        DomainErrorView::Ambiguous { detail: detail@ }),
{
}

/// The status of an error depends on its kind alone, and its message is a fixed text for
/// its kind, followed by the detail where there is one. The field has no part in it.
pub proof fn law_status_and_message_go_by_the_kind(error: DomainErrorView)
    ensures
        match error {
            DomainErrorView::InvalidInput { detail, .. } => error.status() == 400
                && error.message() == "invalid input: "@ + detail,
            DomainErrorView::NotFound => error.status() == 404 && error.message()
                == "service principal not found"@,
            DomainErrorView::AccessDenied => error.status() == 403 && error.message()
                == "access denied"@,
            DomainErrorView::ProviderUnavailable => error.status() == 503 && error.message()
                == "service-principal provider unavailable"@,
            DomainErrorView::Upstream { detail } => error.status() == 503 && error.message()
                == "upstream unavailable: "@ + detail,
            DomainErrorView::Ambiguous { detail } => error.status() == 409 && error.message()
                == "upstream outcome ambiguous: "@ + detail,
        },
{
}

} // verus!
