//! What a policy decision point is asked with and answers.

use crate::constraints::{Constraint, ConstraintView};
use vstd::prelude::*;

verus! {

/// A kind of native predicate that an enforcement point can execute, advertised in
/// the evaluation request.
#[derive(Clone, Copy, Debug, PartialEq, Eq, Structural)]
pub enum Capability {
    TenantHierarchy,
    GroupMembership,
    GroupHierarchy,
}

impl DeepView for Capability {
    type V = Capability;

    open spec fn deep_view(&self) -> Capability {
        *self
    }
}

/// Whether a tenant subtree stops at barriers.
#[derive(Clone, Copy, Debug, PartialEq, Eq, Structural)]
pub enum BarrierMode {
    /// Tenants behind a barrier stay out.
    Respect,
    /// Barriers are crossed, for operations such as billing.
    Ignore,
}

/// The state of a tenant.
#[derive(Clone, Copy, Debug, PartialEq, Eq, Structural)]
pub enum TenantStatus {
    Active,
    Suspended,
    Deleted,
}

impl DeepView for TenantStatus {
    type V = TenantStatus;

    open spec fn deep_view(&self) -> TenantStatus {
        *self
    }
}

impl TenantStatus {
    /// The number under which tables keep the state.
    pub open spec fn smallint(self) -> i16 {
        match self {
            TenantStatus::Active => 1,
            TenantStatus::Suspended => 2,
            TenantStatus::Deleted => 3,
        }
    }

    /// The number under which tables keep the state.
    pub fn as_smallint(&self) -> (number: i16)
        ensures
            number == self.smallint(),
    {
        match self {
            TenantStatus::Active => 1,
            TenantStatus::Suspended => 2,
            TenantStatus::Deleted => 3,
        }
    }
}

/// The obligations that come with a decision.
#[derive(Clone, Debug, PartialEq, Eq)]
pub struct EvaluationResponseContext {
    /// Alternatives, of which a row has to meet one.
    pub constraints: Vec<Constraint>,
}

/// The answer of a policy decision point.
#[derive(Clone, Debug, PartialEq, Eq)]
pub struct EvaluationResponse {
    /// Whether the request is permitted.
    pub decision: bool,
    pub context: EvaluationResponseContext,
}

impl EvaluationResponse {
    /// The alternatives that come with the decision.
    pub open spec fn constraints(&self) -> Seq<ConstraintView> {
        self.context.constraints.deep_view()
    }
}

/// A response is seen constraint for constraint, and a tenant state has its number.
pub proof fn law_response_views_hold_the_constraints(
    response: EvaluationResponse,
    status: TenantStatus,
)
    ensures
        response.constraints().len() == response.context.constraints@.len(),
        forall|i: int|
            0 <= i < response.context.constraints@.len() ==> #[trigger] response.constraints()[i]
                == response.context.constraints@[i].deep_view(),
        status is Active ==> status.smallint() == 1,
        status is Suspended ==> status.smallint() == 2,
        status is Deleted ==> status.smallint() == 3,
{
}

} // verus!
