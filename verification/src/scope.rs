//! Access scopes: what a storage layer applies to its queries as row-level filters.

use crate::ids::Uuid;
use vstd::prelude::*;

verus! {

/// The property that names the tenant owning a resource.
pub const OWNER_TENANT_ID: &'static str = "owner_tenant_id";

/// The property that names the resource itself.
pub const RESOURCE_ID: &'static str = "id";

/// A value that a filter compares a column with.
#[derive(Clone, Debug, PartialEq, Eq)]
pub enum ScopeValue {
    Uuid(Uuid),
    String(String),
    Int(i64),
    Bool(bool),
}

/// What a [`ScopeValue`] stands for.
pub enum ScopeValueView {
    Uuid(Uuid),
    String(Seq<char>),
    Int(i64),
    Bool(bool),
}

impl DeepView for ScopeValue {
    type V = ScopeValueView;

    open spec fn deep_view(&self) -> ScopeValueView {
        match self {
            ScopeValue::Uuid(id) => ScopeValueView::Uuid(*id),
            ScopeValue::String(text) => ScopeValueView::String(text@),
            ScopeValue::Int(number) => ScopeValueView::Int(*number),
            ScopeValue::Bool(flag) => ScopeValueView::Bool(*flag),
        }
    }
}

/// One condition on one property of a row.
#[derive(Clone, Debug, PartialEq, Eq)]
pub enum ScopeFilter {
    /// The property has this value.
    Eq { property: String, value: ScopeValue },
    /// The property has one of these values.
    In { property: String, values: Vec<ScopeValue> },
    /// The property is a direct member, of the given member-handle type, of one of
    /// these groups.
    InGroup { property: String, membership_type: String, group_ids: Vec<ScopeValue> },
    /// The property is a member, of the given member-handle type, of one of these
    /// groups or of a group below one of them.
    InGroupSubtree { property: String, membership_type: String, ancestor_ids: Vec<ScopeValue> },
    /// The property is a tenant at or below the root. `descendant_status` keeps only
    /// tenants in one of these states; when it is empty, tenants in any state.
    InTenantSubtree {
        property: String,
        root_tenant_id: ScopeValue,
        respect_barriers: bool,
        descendant_status: Vec<ScopeValue>,
    },
}

/// What a [`ScopeFilter`] stands for.
pub enum ScopeFilterView {
    Eq { property: Seq<char>, value: ScopeValueView },
    In { property: Seq<char>, values: Seq<ScopeValueView> },
    InGroup { property: Seq<char>, membership_type: Seq<char>, group_ids: Seq<ScopeValueView> },
    InGroupSubtree {
        property: Seq<char>,
        membership_type: Seq<char>,
        ancestor_ids: Seq<ScopeValueView>,
    },
    InTenantSubtree {
        property: Seq<char>,
        root_tenant_id: ScopeValueView,
        respect_barriers: bool,
        descendant_status: Seq<ScopeValueView>,
    },
}

impl DeepView for ScopeFilter {
    type V = ScopeFilterView;

    open spec fn deep_view(&self) -> ScopeFilterView {
        match self {
            ScopeFilter::Eq { property, value } => ScopeFilterView::Eq {
                property: property@,
                value: value.deep_view(),
            },
            ScopeFilter::In { property, values } => ScopeFilterView::In {
                property: property@,
                values: values.deep_view(),
            },
            ScopeFilter::InGroup { property, membership_type, group_ids } => {
                ScopeFilterView::InGroup {
                    property: property@,
                    membership_type: membership_type@,
                    group_ids: group_ids.deep_view(),
                }
            },
            ScopeFilter::InGroupSubtree { property, membership_type, ancestor_ids } => {
                ScopeFilterView::InGroupSubtree {
                    property: property@,
                    membership_type: membership_type@,
                    ancestor_ids: ancestor_ids.deep_view(),
                }
            },
            ScopeFilter::InTenantSubtree {
                property,
                root_tenant_id,
                respect_barriers,
                descendant_status,
            } => ScopeFilterView::InTenantSubtree {
                property: property@,
                root_tenant_id: root_tenant_id.deep_view(),
                respect_barriers: *respect_barriers,
                descendant_status: descendant_status.deep_view(),
            },
        }
    }
}

impl ScopeFilterView {
    /// The property that the filter restricts.
    pub open spec fn property(self) -> Seq<char> {
        match self {
            ScopeFilterView::Eq { property, .. } => property,
            ScopeFilterView::In { property, .. } => property,
            ScopeFilterView::InGroup { property, .. } => property,
            ScopeFilterView::InGroupSubtree { property, .. } => property,
            ScopeFilterView::InTenantSubtree { property, .. } => property,
        }
    }

    /// Whether the filter goes by group membership.
    pub open spec fn is_group(self) -> bool {
        self is InGroup || self is InGroupSubtree
    }

    /// Whether the filter confines rows to tenants.
    pub open spec fn is_tenant(self) -> bool {
        !self.is_group() && self.property() == OWNER_TENANT_ID@
    }
}

/// Filters that a row has to pass all of.
#[derive(Clone, Debug, PartialEq, Eq)]
pub struct ScopeConstraint {
    pub filters: Vec<ScopeFilter>,
}

/// What a [`ScopeConstraint`] stands for: its filters in order.
pub type ScopeConstraintView = Seq<ScopeFilterView>;

impl DeepView for ScopeConstraint {
    type V = ScopeConstraintView;

    open spec fn deep_view(&self) -> ScopeConstraintView {
        self.filters.deep_view()
    }
}

impl ScopeConstraint {
    /// The constraint made of `filters`.
    pub fn new(filters: Vec<ScopeFilter>) -> (constraint: ScopeConstraint)
        ensures
            constraint.deep_view() == filters.deep_view(),
    {
        ScopeConstraint { filters }
    }

    /// Whether the constraint has no filter, so that every row passes.
    pub fn is_empty(&self) -> (empty: bool)
        ensures
            empty == (self.deep_view().len() == 0),
    {
        self.filters.len() == 0
    }
}

/// The rows that a request may reach.
#[derive(Clone, Debug, PartialEq, Eq)]
pub struct AccessScope {
    /// Alternatives, of which a row has to meet one. Ignored when `unrestricted`.
    pub constraints: Vec<ScopeConstraint>,
    /// Whether every row is within the scope.
    pub unrestricted: bool,
}

/// What an [`AccessScope`] stands for.
pub struct AccessScopeView {
    pub constraints: Seq<ScopeConstraintView>,
    pub unrestricted: bool,
}

impl DeepView for AccessScope {
    type V = AccessScopeView;

    open spec fn deep_view(&self) -> AccessScopeView {
        AccessScopeView {
            constraints: self.constraints.deep_view(),
            unrestricted: self.unrestricted,
        }
    }
}

impl AccessScopeView {
    /// The scope of every row.
    pub open spec fn allow_all() -> AccessScopeView {
        AccessScopeView { constraints: Seq::empty(), unrestricted: true }
    }

    /// The scope of the rows that meet one of `constraints`.
    pub open spec fn from_constraints(constraints: Seq<ScopeConstraintView>) -> AccessScopeView {
        AccessScopeView { constraints, unrestricted: false }
    }
}

impl AccessScope {
    /// The scope of every row.
    pub fn allow_all() -> (scope: AccessScope)
        ensures
            scope.deep_view() == AccessScopeView::allow_all(),
    {
        let scope = AccessScope { constraints: Vec::new(), unrestricted: true };
        proof {
            assert(scope.constraints.deep_view() =~= Seq::empty());
        }
        scope
    }

    /// The scope of the rows that meet one of `constraints`.
    pub fn from_constraints(constraints: Vec<ScopeConstraint>) -> (scope: AccessScope)
        ensures
            scope.deep_view() == AccessScopeView::from_constraints(constraints.deep_view()),
    {
        AccessScope { constraints, unrestricted: false }
    }
}

/// A list of values is seen value for value.
pub open spec fn shows_scope_values(seen: Seq<ScopeValueView>, values: Seq<ScopeValue>) -> bool {
    &&& seen.len() == values.len()
    &&& forall|i: int| 0 <= i < values.len() ==> #[trigger] seen[i] == values[i].deep_view()
}

/// A value is seen by what it holds.
pub proof fn law_value_views_hold_the_values(value: ScopeValue)
    ensures
        value matches ScopeValue::Uuid(id) ==> value.deep_view() == ScopeValueView::Uuid(id),
        value matches ScopeValue::String(text) ==> value.deep_view() == ScopeValueView::String(
            text@,
        ),
        value matches ScopeValue::Int(number) ==> value.deep_view() == ScopeValueView::Int(number),
        value matches ScopeValue::Bool(flag) ==> value.deep_view() == ScopeValueView::Bool(flag),
{
}

/// A filter is seen as one of its kind, with its property, its values and its options.
pub proof fn law_filter_views_hold_the_filters(filter: ScopeFilter)
    ensures
        filter matches ScopeFilter::Eq { property, value } ==> filter.deep_view() == (
        ScopeFilterView::Eq { property: property@, value: value.deep_view() }),
        filter matches ScopeFilter::In { property, values } ==> (
        filter.deep_view() matches ScopeFilterView::In { property: on, values: seen } && on
            == property@ && shows_scope_values(seen, values@)),
        filter matches ScopeFilter::InGroup { property, membership_type, group_ids } ==> (
        filter.deep_view() matches ScopeFilterView::InGroup {
            property: on,
            membership_type: name,
            group_ids: seen,
        } && on == property@ && name == membership_type@ && shows_scope_values(seen, group_ids@)),
        filter matches ScopeFilter::InGroupSubtree { property, membership_type, ancestor_ids } ==> (
        filter.deep_view() matches ScopeFilterView::InGroupSubtree {
            property: on,
            membership_type: name,
            ancestor_ids: seen,
        } && on == property@ && name == membership_type@ && shows_scope_values(
            seen,
            ancestor_ids@,
        )),
        filter matches ScopeFilter::InTenantSubtree {
            property,
            root_tenant_id,
            respect_barriers,
            descendant_status,
        } ==> (filter.deep_view() matches ScopeFilterView::InTenantSubtree {
            property: on,
            root_tenant_id: root,
            respect_barriers: respected,
            descendant_status: seen,
        } && on == property@ && root == root_tenant_id.deep_view() && respected == respect_barriers
            && shows_scope_values(seen, descendant_status@)),
{
}

/// A constraint is seen filter for filter, and a scope alternative for alternative, with
/// whether it is unrestricted.
pub proof fn law_scope_views_hold_the_scopes(constraint: ScopeConstraint, scope: AccessScope)
    ensures
        constraint.deep_view().len() == constraint.filters@.len(),
        forall|i: int|
            0 <= i < constraint.filters@.len() ==> #[trigger] constraint.deep_view()[i]
                == constraint.filters@[i].deep_view(),
        scope.deep_view().unrestricted == scope.unrestricted,
        scope.deep_view().constraints.len() == scope.constraints@.len(),
        forall|i: int|
            0 <= i < scope.constraints@.len() ==> #[trigger] scope.deep_view().constraints[i]
                == scope.constraints@[i].deep_view(),
{
}

/// The scope of every row is unrestricted, and the scope made of constraints is not and has
/// just those.
pub proof fn law_scopes_are_what_they_are_made_of(constraints: Seq<ScopeConstraintView>)
    ensures
        AccessScopeView::allow_all().unrestricted,
        AccessScopeView::allow_all().constraints.len() == 0,
        !AccessScopeView::from_constraints(constraints).unrestricted,
        AccessScopeView::from_constraints(constraints).constraints == constraints,
{
}

} // verus!
