//! Row-level constraints as a policy decision point states them.

use crate::json::{JsonValue, JsonValueView};
use crate::models::{BarrierMode, TenantStatus};
use crate::pep::IntoPropertyValue;
use crate::scope::OWNER_TENANT_ID;
use vstd::prelude::*;
use vstd::string::*;

verus! {

/// The property has this value.
#[derive(Clone, Debug, PartialEq, Eq)]
pub struct EqPredicate {
    pub property: String,
    pub value: JsonValue,
}

/// The property has one of these values.
#[derive(Clone, Debug, PartialEq, Eq)]
pub struct InPredicate {
    pub property: String,
    pub values: Vec<JsonValue>,
}

/// The property is a direct member of one of these groups.
#[derive(Clone, Debug, PartialEq, Eq)]
pub struct InGroupPredicate {
    pub property: String,
    pub group_ids: Vec<JsonValue>,
}

/// The property is a member of one of these groups or of a group below one of them.
#[derive(Clone, Debug, PartialEq, Eq)]
pub struct InGroupSubtreePredicate {
    pub property: String,
    pub ancestor_ids: Vec<JsonValue>,
}

/// The property is a tenant at or below the root.
#[derive(Clone, Debug, PartialEq, Eq)]
pub struct InTenantSubtreePredicate {
    pub property: String,
    pub root_tenant_id: JsonValue,
    pub barrier_mode: BarrierMode,
    /// Keeps only tenants in one of these states; when empty, tenants in any state.
    pub descendant_status: Vec<TenantStatus>,
}

impl EqPredicate {
    /// The predicate that `property` has the typed value `value`.
    pub fn new<V: IntoPropertyValue>(property: &str, value: V) -> (predicate: EqPredicate)
        ensures
            predicate.property@ == property@,
            predicate.value.deep_view() == value.property_value(),
    {
        EqPredicate {
            property: property.to_owned(),
            value: JsonValue::from_serde(&value.into_filter_value()),
        }
    }
}

impl InPredicate {
    /// The predicate that `property` has one of the typed values `values`.
    pub fn new<V: IntoPropertyValue>(property: &str, values: Vec<V>) -> (predicate: InPredicate)
        ensures
            predicate.property@ == property@,
            predicate.values.deep_view() == values@.map_values(|value: V| value.property_value()),
    {
        let mut read: Vec<JsonValue> = Vec::new();
        let ghost given = values@;
        for value in iter: values
            invariant
                iter.seq() == given,
                read.len() == iter.index(),
                forall|i: int|
                    0 <= i < read.len() ==> (#[trigger] read@[i]).deep_view()
                        == given[i].property_value(),
        {
            read.push(JsonValue::from_serde(&value.into_filter_value()));
        }
        proof {
            assert(read.deep_view() =~= given.map_values(|value: V| value.property_value()));
        }
        InPredicate { property: property.to_owned(), values: read }
    }
}

/// One condition on one property of a resource.
#[derive(Clone, Debug, PartialEq, Eq)]
pub enum Predicate {
    Eq(EqPredicate),
    In(InPredicate),
    InGroup(InGroupPredicate),
    InGroupSubtree(InGroupSubtreePredicate),
    InTenantSubtree(InTenantSubtreePredicate),
}

/// What a [`Predicate`] stands for.
pub enum PredicateView {
    Eq { property: Seq<char>, value: JsonValueView },
    In { property: Seq<char>, values: Seq<JsonValueView> },
    InGroup { property: Seq<char>, group_ids: Seq<JsonValueView> },
    InGroupSubtree { property: Seq<char>, ancestor_ids: Seq<JsonValueView> },
    InTenantSubtree {
        property: Seq<char>,
        root_tenant_id: JsonValueView,
        barrier_mode: BarrierMode,
        descendant_status: Seq<TenantStatus>,
    },
}

impl DeepView for Predicate {
    type V = PredicateView;

    open spec fn deep_view(&self) -> PredicateView {
        match self {
            Predicate::Eq(p) => PredicateView::Eq {
                property: p.property@,
                value: p.value.deep_view(),
            },
            Predicate::In(p) => PredicateView::In {
                property: p.property@,
                values: p.values.deep_view(),
            },
            Predicate::InGroup(p) => PredicateView::InGroup {
                property: p.property@,
                group_ids: p.group_ids.deep_view(),
            },
            Predicate::InGroupSubtree(p) => PredicateView::InGroupSubtree {
                property: p.property@,
                ancestor_ids: p.ancestor_ids.deep_view(),
            },
            Predicate::InTenantSubtree(p) => PredicateView::InTenantSubtree {
                property: p.property@,
                root_tenant_id: p.root_tenant_id.deep_view(),
                barrier_mode: p.barrier_mode,
                descendant_status: p.descendant_status.deep_view(),
            },
        }
    }
}

impl PredicateView {
    /// The property that the predicate is about.
    pub open spec fn property(self) -> Seq<char> {
        match self {
            PredicateView::Eq { property, .. } => property,
            PredicateView::In { property, .. } => property,
            PredicateView::InGroup { property, .. } => property,
            PredicateView::InGroupSubtree { property, .. } => property,
            PredicateView::InTenantSubtree { property, .. } => property,
        }
    }

    /// Whether the predicate goes by group membership.
    pub open spec fn is_group(self) -> bool {
        self is InGroup || self is InGroupSubtree
    }

    /// Whether the predicate confines resources to tenants.
    pub open spec fn is_tenant(self) -> bool {
        !self.is_group() && self.property() == OWNER_TENANT_ID@
    }
}

impl Predicate {
    /// The property that the predicate is about.
    pub fn property(&self) -> (property: &str)
        ensures
            property@ == self.deep_view().property(),
    {
        match self {
            Predicate::Eq(p) => p.property.as_str(),
            Predicate::In(p) => p.property.as_str(),
            Predicate::InGroup(p) => p.property.as_str(),
            Predicate::InGroupSubtree(p) => p.property.as_str(),
            Predicate::InTenantSubtree(p) => p.property.as_str(),
        }
    }
}

/// Predicates that a resource has to meet all of.
#[derive(Clone, Debug, PartialEq, Eq)]
pub struct Constraint {
    pub predicates: Vec<Predicate>,
}

/// What a [`Constraint`] stands for: its predicates in order.
pub type ConstraintView = Seq<PredicateView>;

impl DeepView for Constraint {
    type V = ConstraintView;

    open spec fn deep_view(&self) -> ConstraintView {
        self.predicates.deep_view()
    }
}

/// A list of JSON values is seen value for value.
pub open spec fn shows_values(seen: Seq<JsonValueView>, values: Seq<JsonValue>) -> bool {
    &&& seen.len() == values.len()
    &&& forall|i: int| 0 <= i < values.len() ==> #[trigger] seen[i] == values[i].deep_view()
}

/// A predicate is seen as one of its kind, with its property, its values and its options;
/// a constraint is seen predicate for predicate.
pub proof fn law_predicate_views_hold_the_predicates(predicate: Predicate, constraint: Constraint)
    ensures
        predicate matches Predicate::Eq(p) ==> predicate.deep_view() == (PredicateView::Eq {
            property: p.property@,
            value: p.value.deep_view(),
        }),
        predicate matches Predicate::In(p) ==> (predicate.deep_view() matches PredicateView::In {
            property,
            values,
        } && property == p.property@ && shows_values(values, p.values@)),
        predicate matches Predicate::InGroup(p) ==> (
        predicate.deep_view() matches PredicateView::InGroup { property, group_ids } && property
            == p.property@ && shows_values(group_ids, p.group_ids@)),
        predicate matches Predicate::InGroupSubtree(p) ==> (
        predicate.deep_view() matches PredicateView::InGroupSubtree { property, ancestor_ids }
            && property == p.property@ && shows_values(ancestor_ids, p.ancestor_ids@)),
        predicate matches Predicate::InTenantSubtree(p) ==> predicate.deep_view() == (
        PredicateView::InTenantSubtree {
            property: p.property@,
            root_tenant_id: p.root_tenant_id.deep_view(),
            barrier_mode: p.barrier_mode,
            descendant_status: p.descendant_status@,
        }),
        constraint.deep_view().len() == constraint.predicates@.len(),
        forall|i: int|
            0 <= i < constraint.predicates@.len() ==> #[trigger] constraint.deep_view()[i]
                == constraint.predicates@[i].deep_view(),
{
    if let Predicate::InTenantSubtree(p) = predicate {
        assert(p.descendant_status.deep_view() =~= p.descendant_status@);
    }
}

} // verus!
