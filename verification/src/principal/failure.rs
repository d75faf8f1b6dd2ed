//! Failure categories of service-principal operations: clean failures, after which no
//! state is retained, and ambiguous outcomes, after which some may be.

use vstd::prelude::*;
use vstd::string::*;

verus! {

/// Why a provider could not perform an operation. The taxonomy is closed on purpose:
/// consumers handle every category.
#[derive(Debug)]
pub enum ServicePrincipalFailure {
    /// Rejected with no state retained: a bad name, a scope that is not allowed, an
    /// exceeded quota, a client id that is taken. Permanent for the same input.
    InvalidInput { detail: String, field: Option<String> },
    /// The client is absent or not owned by the addressed tenant. For a revocation
    /// that is as good as success.
    NotFound { detail: String },
    /// The call failed cleanly, with no state retained. A retry is harmless.
    CleanFailure { detail: String },
    /// Transport uncertainty: state may have been retained. Never reported as success.
    Ambiguous { detail: String },
}

/// What a [`ServicePrincipalFailure`] stands for.
pub enum ServicePrincipalFailureView {
    InvalidInput { detail: Seq<char>, field: Option<Seq<char>> },
    NotFound { detail: Seq<char> },
    CleanFailure { detail: Seq<char> },
    Ambiguous { detail: Seq<char> },
}

impl DeepView for ServicePrincipalFailure {
    type V = ServicePrincipalFailureView;

    open spec fn deep_view(&self) -> ServicePrincipalFailureView {
        match self {
            ServicePrincipalFailure::InvalidInput { detail, field } => {
                ServicePrincipalFailureView::InvalidInput {
                    detail: detail@,
                    field: field.deep_view(),
                }
            },
            ServicePrincipalFailure::NotFound { detail } => {
                ServicePrincipalFailureView::NotFound { detail: detail@ }
            },
            ServicePrincipalFailure::CleanFailure { detail } => {
                ServicePrincipalFailureView::CleanFailure { detail: detail@ }
            },
            ServicePrincipalFailure::Ambiguous { detail } => {
                ServicePrincipalFailureView::Ambiguous { detail: detail@ }
            },
        }
    }
}

impl ServicePrincipalFailureView {
    /// The name of the category.
    pub open spec fn label(self) -> Seq<char> {
        match self {
            ServicePrincipalFailureView::InvalidInput { .. } => "invalid_input"@,
            ServicePrincipalFailureView::NotFound { .. } => "not_found"@,
            ServicePrincipalFailureView::CleanFailure { .. } => "clean_failure"@,
            ServicePrincipalFailureView::Ambiguous { .. } => "ambiguous"@,
        }
    }

    /// What the provider says about it.
    pub open spec fn detail(self) -> Seq<char> {
        match self {
            ServicePrincipalFailureView::InvalidInput { detail, .. } => detail,
            ServicePrincipalFailureView::NotFound { detail } => detail,
            ServicePrincipalFailureView::CleanFailure { detail } => detail,
            ServicePrincipalFailureView::Ambiguous { detail } => detail,
        }
    }
}

impl ServicePrincipalFailure {
    /// The name of the category, for metrics.
    #[must_use]
    pub fn as_metric_label(&self) -> (label: &'static str)
        ensures
            label@ == self.deep_view().label(),
    {
        match self {
            ServicePrincipalFailure::InvalidInput { .. } => "invalid_input",
            ServicePrincipalFailure::NotFound { .. } => "not_found",
            ServicePrincipalFailure::CleanFailure { .. } => "clean_failure",
            ServicePrincipalFailure::Ambiguous { .. } => "ambiguous",
        }
    }

    /// What the provider says about it.
    #[must_use]
    pub fn detail(&self) -> (detail: &str)
        ensures
            detail@ == self.deep_view().detail(),
    {
        match self {
            ServicePrincipalFailure::InvalidInput { detail, .. } => detail.as_str(),
            ServicePrincipalFailure::NotFound { detail } => detail.as_str(),
            ServicePrincipalFailure::CleanFailure { detail } => detail.as_str(),
            ServicePrincipalFailure::Ambiguous { detail } => detail.as_str(),
        }
    }

    /// The category and the detail, for people.
    pub fn to_string(&self) -> (message: String)
        ensures
            message@ == self.deep_view().label() + ": "@ + self.deep_view().detail(),
    {
        let mut message = self.as_metric_label().to_owned();
        message.append(": ");
        message.append(self.detail());
        message
    }
}

/// Different categories have different labels.
pub proof fn law_labels_tell_categories_apart(
    one: ServicePrincipalFailureView,
    other: ServicePrincipalFailureView,
)
    ensures
        one.label() == other.label() <==> {
            ||| one is InvalidInput && other is InvalidInput
            ||| one is NotFound && other is NotFound
            ||| one is CleanFailure && other is CleanFailure
            ||| one is Ambiguous && other is Ambiguous
        },
{
    reveal_strlit("invalid_input");
    reveal_strlit("not_found");
    reveal_strlit("clean_failure");
    reveal_strlit("ambiguous");
    assert("invalid_input"@.len() == 13 && "clean_failure"@.len() == 13);
    assert("invalid_input"@[0] == 'i' && "clean_failure"@[0] == 'c');
    assert("not_found"@.len() == 9 && "ambiguous"@.len() == 9);
    assert("not_found"@[0] == 'n' && "ambiguous"@[0] == 'a');
}

/// A failure is seen as one of its category, with its detail and its field. The detail is
/// the provider's own text, whatever the category and the field.
pub proof fn law_failures_hold_the_providers_text(
    failure: ServicePrincipalFailure,
    text: Seq<char>,
    named: Option<Seq<char>>,
)
    ensures
        failure matches ServicePrincipalFailure::InvalidInput { detail, field } ==> (
        failure.deep_view() matches ServicePrincipalFailureView::InvalidInput {
            detail: seen,
            field: seen_field,
        } && seen == detail@ && (match field {
            Some(name) => seen_field == Some(name@),
            None => seen_field is None,
        })),
        failure matches ServicePrincipalFailure::NotFound { detail } ==> failure.deep_view() == (
        ServicePrincipalFailureView::NotFound { detail: detail@ }),
        failure matches ServicePrincipalFailure::CleanFailure { detail } ==> failure.deep_view()
            == (ServicePrincipalFailureView::CleanFailure { detail: detail@ }),
        failure matches ServicePrincipalFailure::Ambiguous { detail } ==> failure.deep_view() == (
        ServicePrincipalFailureView::Ambiguous { detail: detail@ }),
        (ServicePrincipalFailureView::InvalidInput { detail: text, field: named }).detail() == text,
        (ServicePrincipalFailureView::NotFound { detail: text }).detail() == text,
        (ServicePrincipalFailureView::CleanFailure { detail: text }).detail() == text,
        (ServicePrincipalFailureView::Ambiguous { detail: text }).detail() == text,
{
}

/// The labels are fixed texts: they depend on the category alone.
pub proof fn law_labels_name_the_categories(failure: ServicePrincipalFailureView)
    ensures
        failure is InvalidInput ==> failure.label() == "invalid_input"@,
        failure is NotFound ==> failure.label() == "not_found"@,
        failure is CleanFailure ==> failure.label() == "clean_failure"@,
        failure is Ambiguous ==> failure.label() == "ambiguous"@,
{
}

} // verus!
