//! What holds of every compilation.

use crate::constraints::{ConstraintView, PredicateView};
use crate::ids::{hyphenated, law_uuid_text_round_trips, parsed_uuid, Uuid};
use crate::json::{json_reading, JsonValueView};
use crate::models::{BarrierMode, Capability, TenantStatus};
use crate::pep::compiler::{
    admitted_predicate, all_empty, all_or_first_failure, compiled_constraint, compiled_ones,
    compiled_scope, compiled_tenant_subtree, failure_reasons, group_capabilities,
    group_subtree_capabilities, has_group, has_tenant_scope, lemma_all_succeed, missing_names,
    predicate_step, scope_value, tenant_subtree_capabilities, uuid_scope_value, uuid_step,
    value_step, CompileRules, ConstraintCompileErrorView,
};
use crate::pep::IntoPropertyValue;
use crate::scope::{
    AccessScopeView, ScopeConstraintView, ScopeFilterView, ScopeValueView, OWNER_TENANT_ID,
    RESOURCE_ID,
};
use vstd::prelude::*;

verus! {

/// Whether each of `values` is a UUID.
pub open spec fn all_uuids(values: Seq<ScopeValueView>) -> bool {
    forall|i: int| 0 <= i < values.len() ==> (#[trigger] values[i]) is Uuid
}

/// Whether the configured member-handle type is one that group predicates can use.
pub open spec fn has_membership_type(rules: CompileRules) -> bool {
    rules.membership_type is Some && rules.membership_type.unwrap().len() > 0
}

/// Whether a capability may be relied on: it was negotiated, or nobody enforces the
/// negotiation.
pub open spec fn may_use(rules: CompileRules, capability: Capability) -> bool {
    rules.negotiated is Some ==> rules.negotiated.unwrap().contains(capability)
}

/// Whether the values that a filter compares a tenant with are UUIDs, and there is at
/// least one.
pub open spec fn has_uuid_tenants(filter: ScopeFilterView) -> bool {
    match filter {
        ScopeFilterView::Eq { value, .. } => value is Uuid,
        ScopeFilterView::In { values, .. } => values.len() > 0 && all_uuids(values),
        ScopeFilterView::InTenantSubtree { root_tenant_id, .. } => root_tenant_id is Uuid,
        _ => false,
    }
}

/// Whether a filter goes by group membership of the resource itself, with the
/// configured member-handle type, at least one group, and UUIDs for all groups.
pub open spec fn is_sound_group_filter(filter: ScopeFilterView, rules: CompileRules) -> bool {
    match filter {
        ScopeFilterView::InGroup { property, membership_type, group_ids } => {
            &&& property == RESOURCE_ID@
            &&& rules.membership_type == Some(membership_type)
            &&& membership_type.len() > 0
            &&& group_ids.len() > 0
            &&& all_uuids(group_ids)
            &&& may_use(rules, Capability::GroupMembership)
        },
        ScopeFilterView::InGroupSubtree { property, membership_type, ancestor_ids } => {
            &&& property == RESOURCE_ID@
            &&& rules.membership_type == Some(membership_type)
            &&& membership_type.len() > 0
            &&& ancestor_ids.len() > 0
            &&& all_uuids(ancestor_ids)
            &&& may_use(rules, Capability::GroupMembership)
            &&& may_use(rules, Capability::GroupHierarchy)
        },
        _ => false,
    }
}

/// Whether the value list of a set-membership predicate is empty.
pub open spec fn has_empty_list(predicate: PredicateView) -> bool {
    match predicate {
        PredicateView::In { values, .. } => values.len() == 0,
        PredicateView::InGroup { group_ids, .. } => group_ids.len() == 0,
        PredicateView::InGroupSubtree { ancestor_ids, .. } => ancestor_ids.len() == 0,
        _ => false,
    }
}

/// Steps that agree on every item give the same result.
proof fn lemma_agreeing_steps<A, B>(
    items: Seq<A>,
    one: spec_fn(A) -> Result<B, Seq<char>>,
    other: spec_fn(A) -> Result<B, Seq<char>>,
)
    requires
        forall|i: int| 0 <= i < items.len() ==> one(#[trigger] items[i]) == other(items[i]),
    ensures
        all_or_first_failure(items, one) == all_or_first_failure(items, other),
    decreases items.len(),
{
    if items.len() > 0 {
        let front = items.drop_last();
        assert forall|i: int| 0 <= i < front.len() implies one(#[trigger] front[i]) == other(
            front[i],
        ) by {
            assert(front[i] == items[i]);
        }
        lemma_agreeing_steps(front, one, other);
        assert(items.last() == items[items.len() - 1]);
    }
}

proof fn lemma_uuids_read(values: Seq<JsonValueView>, field: Seq<char>)
    ensures
        all_or_first_failure(
            values,
            uuid_step(field),
        ) matches Ok(read) ==> read.len() == values.len() && all_uuids(read),
{
    let step = uuid_step(field);
    lemma_all_succeed(values, step);
    if all_or_first_failure(values, step) is Ok {
        let read = all_or_first_failure(values, step)->Ok_0;
        assert forall|i: int| 0 <= i < read.len() implies (#[trigger] read[i]) is Uuid by {
            assert(step(values[i]) == Ok::<_, Seq<char>>(read[i]));
        }
    }
}

proof fn lemma_values_read(values: Seq<JsonValueView>)
    ensures
        all_or_first_failure(values, value_step()) matches Ok(read) ==> read.len()
            == values.len(),
{
    lemma_all_succeed(values, value_step());
}

/// No required capability is missing exactly when each was negotiated.
pub proof fn lemma_missing_names(required: Seq<Capability>, negotiated: Seq<Capability>)
    ensures
        missing_names(required, negotiated).len() == 0 <==> (forall|i: int|
            0 <= i < required.len() ==> negotiated.contains(#[trigger] required[i])),
    decreases required.len(),
{
    if required.len() > 0 {
        let front = required.drop_last();
        lemma_missing_names(front, negotiated);
        assert(forall|i: int| 0 <= i < front.len() ==> front[i] == required[i]);
        assert(required.last() == required[required.len() - 1]);
        if forall|i: int| 0 <= i < front.len() ==> negotiated.contains(#[trigger] front[i]) {
            if negotiated.contains(required.last()) {
                assert forall|i: int| 0 <= i < required.len() implies negotiated.contains(
                    #[trigger] required[i],
                ) by {
                    if i < front.len() {
                        assert(negotiated.contains(front[i]));
                    }
                }
            }
        } else {
            let i = choose|i: int|
                0 <= i < front.len() && !negotiated.contains(#[trigger] front[i]);
            assert(!negotiated.contains(required[i]));
        }
    }
}

/// What is known of a predicate that compiles.
proof fn lemma_admitted(predicate: PredicateView, rules: CompileRules)
    requires
        admitted_predicate(predicate, rules) is Ok,
    ensures
        ({
            let filter = admitted_predicate(predicate, rules)->Ok_0;
            &&& rules.supported.contains(predicate.property())
            &&& filter.property() == predicate.property()
            &&& filter.is_group() == predicate.is_group()
            &&& filter.is_tenant() == predicate.is_tenant()
            &&& filter.is_tenant() ==> has_uuid_tenants(filter)
            &&& filter.is_group() ==> is_sound_group_filter(filter, rules)
            &&& filter is InTenantSubtree ==> may_use(rules, Capability::TenantHierarchy)
            &&& filter matches ScopeFilterView::In { values, .. } ==> values.len() > 0
            &&& !has_empty_list(predicate)
        }),
{
    let group = group_capabilities();
    let subtree = group_subtree_capabilities();
    let tenant = tenant_subtree_capabilities();
    assert(group[0] == Capability::GroupMembership);
    assert(subtree[0] == Capability::GroupMembership);
    assert(subtree[1] == Capability::GroupHierarchy);
    assert(tenant[0] == Capability::TenantHierarchy);
    if rules.negotiated is Some {
        lemma_missing_names(group, rules.negotiated.unwrap());
        lemma_missing_names(subtree, rules.negotiated.unwrap());
        lemma_missing_names(tenant, rules.negotiated.unwrap());
    }
    match predicate {
        PredicateView::In { values, .. } => {
            lemma_uuids_read(values, OWNER_TENANT_ID@);
            lemma_values_read(values);
        },
        PredicateView::InGroup { group_ids, .. } => {
            lemma_uuids_read(group_ids, "group_ids"@);
        },
        PredicateView::InGroupSubtree { ancestor_ids, .. } => {
            lemma_uuids_read(ancestor_ids, "ancestor_ids"@);
        },
        _ => {},
    }
}

// ---------------------------------------------------------------------------
// One constraint
// ---------------------------------------------------------------------------

/// A compiled constraint has exactly one filter for each predicate, in the same
/// order, on the same supported property.
pub proof fn law_every_predicate_becomes_a_filter(constraint: ConstraintView, rules: CompileRules)
    ensures
        compiled_constraint(constraint, rules) matches Ok(filters)
            ==> filters.len() == constraint.len() && (forall|i: int|
            0 <= i < filters.len() ==> {
                &&& (#[trigger] filters[i]).property() == constraint[i].property()
                &&& filters[i].is_group() == constraint[i].is_group()
                &&& filters[i].is_tenant() == constraint[i].is_tenant()
                &&& rules.supported.contains(constraint[i].property())
                &&& admitted_predicate(constraint[i], rules) == Ok::<_, Seq<char>>(filters[i])
            }),
{
    let step = predicate_step(rules);
    lemma_all_succeed(constraint, step);
    if compiled_constraint(constraint, rules) is Ok {
        let filters = compiled_constraint(constraint, rules)->Ok_0;
        assert forall|i: int| 0 <= i < filters.len() implies {
            &&& (#[trigger] filters[i]).property() == constraint[i].property()
            &&& filters[i].is_group() == constraint[i].is_group()
            &&& filters[i].is_tenant() == constraint[i].is_tenant()
            &&& rules.supported.contains(constraint[i].property())
            &&& admitted_predicate(constraint[i], rules) == Ok::<_, Seq<char>>(filters[i])
        } by {
            assert(step(constraint[i]) == Ok::<_, Seq<char>>(filters[i]));
            lemma_admitted(constraint[i], rules);
        }
    }
}

/// A constraint compiles exactly when a tenant predicate accompanies its group
/// predicates and each predicate is admitted.
pub proof fn law_compiles_iff_each_predicate_is_admitted(
    constraint: ConstraintView,
    rules: CompileRules,
)
    ensures
        compiled_constraint(constraint, rules) is Ok <==> {
            &&& has_group(constraint) ==> has_tenant_scope(constraint)
            &&& forall|i: int|
                0 <= i < constraint.len() ==> admitted_predicate(#[trigger] constraint[i], rules)
                    is Ok
        },
{
    let step = predicate_step(rules);
    lemma_all_succeed(constraint, step);
    assert(forall|i: int|
        0 <= i < constraint.len() ==> step(#[trigger] constraint[i])
            == admitted_predicate(constraint[i], rules));
}

/// A predicate on a property that is not supported fails its whole constraint.
pub proof fn law_unsupported_property_fails_the_constraint(
    constraint: ConstraintView,
    rules: CompileRules,
    i: int,
)
    requires
        0 <= i < constraint.len(),
        !rules.supported.contains(constraint[i].property()),
    ensures
        compiled_constraint(constraint, rules) is Err,
{
    law_every_predicate_becomes_a_filter(constraint, rules);
    if compiled_constraint(constraint, rules) is Ok {
        let filters = compiled_constraint(constraint, rules)->Ok_0;
        assert(filters[i].property() == constraint[i].property());
    }
}

/// A set-membership predicate with an empty list fails its whole constraint.
pub proof fn law_empty_list_fails_the_constraint(
    constraint: ConstraintView,
    rules: CompileRules,
    i: int,
)
    requires
        0 <= i < constraint.len(),
        has_empty_list(constraint[i]),
    ensures
        compiled_constraint(constraint, rules) is Err,
{
    law_compiles_iff_each_predicate_is_admitted(constraint, rules);
    if compiled_constraint(constraint, rules) is Ok {
        lemma_admitted(constraint[i], rules);
    }
}

/// No compiled filter has an empty list of values or groups to match.
pub proof fn law_no_compiled_list_is_empty(constraint: ConstraintView, rules: CompileRules, i: int)
    requires
        compiled_constraint(constraint, rules) is Ok,
        0 <= i < constraint.len(),
    ensures
        match compiled_constraint(constraint, rules)->Ok_0[i] {
            ScopeFilterView::In { values, .. } => values.len() > 0,
            ScopeFilterView::InGroup { group_ids, .. } => group_ids.len() > 0,
            ScopeFilterView::InGroupSubtree { ancestor_ids, .. } => ancestor_ids.len() > 0,
            _ => true,
        },
{
    law_every_predicate_becomes_a_filter(constraint, rules);
    let filters = compiled_constraint(constraint, rules)->Ok_0;
    assert(filters[i].property() == constraint[i].property());
    lemma_admitted(constraint[i], rules);
}

/// A compiled filter on the owner tenant compares with UUIDs, at least one of them.
pub proof fn law_tenant_filters_compare_uuids(
    constraint: ConstraintView,
    rules: CompileRules,
    i: int,
)
    requires
        compiled_constraint(constraint, rules) is Ok,
        0 <= i < constraint.len(),
        constraint[i].is_tenant(),
    ensures
        has_uuid_tenants(compiled_constraint(constraint, rules)->Ok_0[i]),
{
    law_every_predicate_becomes_a_filter(constraint, rules);
    let filters = compiled_constraint(constraint, rules)->Ok_0;
    assert(filters[i].property() == constraint[i].property());
    lemma_admitted(constraint[i], rules);
}

/// A constraint with a group filter confines rows to tenants in the same place: some
/// filter beside it is on the owner tenant and compares it with UUIDs. The group
/// filter itself is on the resource id, names the configured member-handle type, and
/// relies on nothing that was not negotiated.
pub proof fn law_group_filters_stay_within_tenants(
    constraint: ConstraintView,
    rules: CompileRules,
    i: int,
)
    requires
        compiled_constraint(constraint, rules) is Ok,
        0 <= i < constraint.len(),
        constraint[i].is_group(),
    ensures
        ({
            let filters = compiled_constraint(constraint, rules)->Ok_0;
            &&& is_sound_group_filter(filters[i], rules)
            &&& exists|j: int|
                0 <= j < filters.len() && (#[trigger] filters[j]).is_tenant() && has_uuid_tenants(
                    filters[j],
                )
        }),
{
    law_every_predicate_becomes_a_filter(constraint, rules);
    let filters = compiled_constraint(constraint, rules)->Ok_0;
    assert(filters[i].property() == constraint[i].property());
    lemma_admitted(constraint[i], rules);
    assert(has_group(constraint));
    let j = choose|j: int| 0 <= j < constraint.len() && (#[trigger] constraint[j]).is_tenant();
    assert(filters[j].property() == constraint[j].property());
    lemma_admitted(constraint[j], rules);
}

/// Without a member-handle type, or with an empty one, a constraint with a group
/// predicate fails.
pub proof fn law_untyped_group_predicates_fail(constraint: ConstraintView, rules: CompileRules)
    requires
        has_group(constraint),
        !has_membership_type(rules),
    ensures
        compiled_constraint(constraint, rules) is Err,
{
    if compiled_constraint(constraint, rules) is Ok {
        let i = choose|i: int| 0 <= i < constraint.len() && (#[trigger] constraint[i]).is_group();
        law_group_filters_stay_within_tenants(constraint, rules, i);
    }
}

/// A group predicate on another property than the resource id fails its constraint.
pub proof fn law_group_predicates_target_the_resource(
    constraint: ConstraintView,
    rules: CompileRules,
    i: int,
)
    requires
        0 <= i < constraint.len(),
        constraint[i].is_group(),
        constraint[i].property() != RESOURCE_ID@,
    ensures
        compiled_constraint(constraint, rules) is Err,
{
    if compiled_constraint(constraint, rules) is Ok {
        law_group_filters_stay_within_tenants(constraint, rules, i);
        law_every_predicate_becomes_a_filter(constraint, rules);
        let filters = compiled_constraint(constraint, rules)->Ok_0;
        assert(filters[i].property() == constraint[i].property());
    }
}

/// A group predicate without a tenant predicate in the same constraint fails it,
/// whatever else is configured and negotiated.
pub proof fn law_group_predicates_need_a_tenant_predicate(
    constraint: ConstraintView,
    rules: CompileRules,
)
    requires
        has_group(constraint),
        !has_tenant_scope(constraint),
    ensures
        compiled_constraint(constraint, rules) is Err,
{
}

/// The capabilities that a predicate needs.
pub open spec fn needed_capabilities(predicate: PredicateView) -> Seq<Capability> {
    match predicate {
        PredicateView::InGroup { .. } => group_capabilities(),
        PredicateView::InGroupSubtree { .. } => group_subtree_capabilities(),
        PredicateView::InTenantSubtree { .. } => tenant_subtree_capabilities(),
        _ => Seq::empty(),
    }
}

/// A native predicate that needs a capability which was not negotiated fails its
/// constraint.
pub proof fn law_unadvertised_capability_fails_the_constraint(
    constraint: ConstraintView,
    rules: CompileRules,
    i: int,
    k: int,
)
    requires
        0 <= i < constraint.len(),
        0 <= k < needed_capabilities(constraint[i]).len(),
        !may_use(rules, needed_capabilities(constraint[i])[k]),
    ensures
        compiled_constraint(constraint, rules) is Err,
{
    law_compiles_iff_each_predicate_is_admitted(constraint, rules);
    if compiled_constraint(constraint, rules) is Ok {
        lemma_admitted(constraint[i], rules);
    }
}

/// Enforcing the negotiated capabilities only rejects: what still compiles, compiles
/// to the same filters as without enforcement.
pub proof fn law_negotiation_only_rejects(constraint: ConstraintView, rules: CompileRules)
    ensures
        compiled_constraint(constraint, rules) is Ok ==> compiled_constraint(constraint, rules)
            == compiled_constraint(constraint, CompileRules { negotiated: None, ..rules }),
{
    let step = predicate_step(rules);
    let free_step = predicate_step(CompileRules { negotiated: None, ..rules });
    law_compiles_iff_each_predicate_is_admitted(constraint, rules);
    if compiled_constraint(constraint, rules) is Ok {
        assert forall|i: int| 0 <= i < constraint.len() implies free_step(#[trigger] constraint[i])
            == step(constraint[i]) by {
            assert(admitted_predicate(constraint[i], rules) is Ok);
        }
        lemma_agreeing_steps(constraint, free_step, step);
    }
}

/// With every capability negotiated, enforcement makes no difference.
pub proof fn law_full_negotiation_changes_nothing(constraint: ConstraintView, rules: CompileRules)
    requires
        may_use(rules, Capability::TenantHierarchy),
        may_use(rules, Capability::GroupMembership),
        may_use(rules, Capability::GroupHierarchy),
    ensures
        compiled_constraint(constraint, rules)
            == compiled_constraint(constraint, CompileRules { negotiated: None, ..rules }),
{
    let free = CompileRules { negotiated: None, ..rules };
    if rules.negotiated is Some {
        let negotiated = rules.negotiated.unwrap();
        lemma_missing_names(group_capabilities(), negotiated);
        lemma_missing_names(group_subtree_capabilities(), negotiated);
        lemma_missing_names(tenant_subtree_capabilities(), negotiated);
    }
    let step = predicate_step(rules);
    let free_step = predicate_step(free);
    assert forall|predicate: PredicateView| #[trigger] step(predicate) == free_step(predicate) by {
    }
    assert(step =~= free_step);
}

/// The member-handle type matters to group predicates only: a constraint without them
/// compiles alike with any type and with none.
pub proof fn law_membership_type_matters_to_groups_only(
    constraint: ConstraintView,
    rules: CompileRules,
    membership_type: Option<Seq<char>>,
)
    requires
        !has_group(constraint),
    ensures
        compiled_constraint(constraint, CompileRules { membership_type, ..rules })
            == compiled_constraint(constraint, rules),
{
    let other = CompileRules { membership_type, ..rules };
    let step = predicate_step(rules);
    let other_step = predicate_step(other);
    assert forall|i: int| 0 <= i < constraint.len() implies other_step(#[trigger] constraint[i])
        == step(constraint[i]) by {
        assert(!constraint[i].is_group());
    }
    lemma_agreeing_steps(constraint, other_step, step);
}

/// Supporting more properties only admits more: what compiles, compiles to the same
/// filters where further properties are supported.
pub proof fn law_more_support_only_admits(
    constraint: ConstraintView,
    rules: CompileRules,
    supported: Seq<Seq<char>>,
)
    requires
        forall|property: Seq<char>| #[trigger]
            rules.supported.contains(property) ==> supported.contains(property),
        compiled_constraint(constraint, rules) is Ok,
    ensures
        compiled_constraint(constraint, CompileRules { supported, ..rules })
            == compiled_constraint(constraint, rules),
{
    let wider = CompileRules { supported, ..rules };
    let step = predicate_step(rules);
    let wider_step = predicate_step(wider);
    law_compiles_iff_each_predicate_is_admitted(constraint, rules);
    assert forall|i: int| 0 <= i < constraint.len() implies wider_step(#[trigger] constraint[i])
        == step(constraint[i]) by {
        assert(admitted_predicate(constraint[i], rules) is Ok);
        lemma_admitted(constraint[i], rules);
    }
    lemma_agreeing_steps(constraint, wider_step, step);
}

// ---------------------------------------------------------------------------
// Whole answers
// ---------------------------------------------------------------------------

/// Without constraints the scope is every row, or, if constraints are required, the
/// request is refused.
pub proof fn law_absent_constraints(rules: CompileRules)
    ensures
        compiled_scope(Seq::empty(), false, rules) == Ok::<_, ConstraintCompileErrorView>(
            AccessScopeView::allow_all(),
        ),
        compiled_scope(Seq::empty(), true, rules) == Err::<AccessScopeView, _>(
            ConstraintCompileErrorView::ConstraintsRequiredButAbsent,
        ),
{
}

/// Where constraints are present, it does not matter whether they are required.
pub proof fn law_present_constraints_are_compiled_either_way(
    constraints: Seq<ConstraintView>,
    rules: CompileRules,
)
    requires
        constraints.len() > 0,
    ensures
        compiled_scope(constraints, true, rules) == compiled_scope(constraints, false, rules),
{
}

/// Each compiled alternative comes from one of the constraints, and each constraint
/// that compiles gives an alternative.
pub proof fn law_alternatives_come_from_constraints(
    constraints: Seq<ConstraintView>,
    rules: CompileRules,
)
    ensures
        ({
            let compiled = compiled_ones(constraints, rules);
            &&& forall|k: int|
                0 <= k < compiled.len() ==> exists|i: int|
                    0 <= i < constraints.len()
                        && compiled_constraint(#[trigger] constraints[i], rules)
                            == Ok::<_, Seq<char>>(#[trigger] compiled[k])
            &&& forall|i: int|
                0 <= i < constraints.len()
                    && compiled_constraint(#[trigger] constraints[i], rules) is Ok
                    ==> compiled.contains(compiled_constraint(constraints[i], rules)->Ok_0)
        }),
    decreases constraints.len(),
{
    if constraints.len() > 0 {
        let front = constraints.drop_last();
        law_alternatives_come_from_constraints(front, rules);
        let before = compiled_ones(front, rules);
        let compiled = compiled_ones(constraints, rules);
        assert(forall|i: int| 0 <= i < front.len() ==> front[i] == constraints[i]);
        assert(constraints.last() == constraints[constraints.len() - 1]);
        assert forall|k: int| 0 <= k < compiled.len() implies exists|i: int|
            0 <= i < constraints.len()
                && compiled_constraint(#[trigger] constraints[i], rules)
                    == Ok::<_, Seq<char>>(#[trigger] compiled[k]) by {
            if k < before.len() {
                assert(compiled[k] == before[k]);
                let i = choose|i: int|
                    0 <= i < front.len()
                        && compiled_constraint(#[trigger] front[i], rules)
                            == Ok::<_, Seq<char>>(before[k]);
                assert(constraints[i] == front[i]);
            } else {
                let i = constraints.len() - 1;
                assert(compiled_constraint(constraints[i], rules) == Ok::<_, Seq<char>>(
                    compiled[k],
                ));
            }
        }
        assert forall|i: int|
            0 <= i < constraints.len()
                && compiled_constraint(#[trigger] constraints[i], rules) is Ok
            implies compiled.contains(compiled_constraint(constraints[i], rules)->Ok_0) by {
            let wanted = compiled_constraint(constraints[i], rules)->Ok_0;
            if i < front.len() {
                assert(front[i] == constraints[i]);
                assert(before.contains(wanted));
                let k = choose|k: int| 0 <= k < before.len() && before[k] == wanted;
                assert(compiled[k] == wanted);
            } else {
                assert(compiled[compiled.len() - 1] == wanted);
            }
        }
    }
}

/// Compilation fails for want of a compilable constraint exactly when there are
/// constraints and each of them fails; there is then one reason for each.
pub proof fn law_all_failed_iff_each_fails(
    constraints: Seq<ConstraintView>,
    require_constraints: bool,
    rules: CompileRules,
)
    ensures
        (compiled_scope(constraints, require_constraints, rules) matches Err(
            ConstraintCompileErrorView::AllConstraintsFailed { .. },
        )) <==> (constraints.len() > 0 && forall|i: int|
            0 <= i < constraints.len()
                ==> compiled_constraint(#[trigger] constraints[i], rules) is Err),
        compiled_ones(constraints, rules).len() + failure_reasons(constraints, rules).len()
            == constraints.len(),
{
    law_alternatives_come_from_constraints(constraints, rules);
    lemma_reasons_complete(constraints, rules);
    let compiled = compiled_ones(constraints, rules);
    if compiled.len() > 0 {
        let i = choose|i: int|
            0 <= i < constraints.len()
                && compiled_constraint(#[trigger] constraints[i], rules)
                    == Ok::<_, Seq<char>>(compiled[0]);
        assert(compiled_constraint(constraints[i], rules) is Ok);
    }
}

proof fn lemma_reasons_complete(constraints: Seq<ConstraintView>, rules: CompileRules)
    ensures
        compiled_ones(constraints, rules).len() + failure_reasons(constraints, rules).len()
            == constraints.len(),
    decreases constraints.len(),
{
    if constraints.len() > 0 {
        lemma_reasons_complete(constraints.drop_last(), rules);
    }
}

/// The scope is every row only in two cases: there are no constraints and none are
/// required, or some constraint compiles and no constraint that compiles has a
/// predicate.
pub proof fn law_unrestricted_iff(
    constraints: Seq<ConstraintView>,
    require_constraints: bool,
    rules: CompileRules,
)
    ensures
        (compiled_scope(constraints, require_constraints, rules) matches Ok(scope)
            && scope.unrestricted) <==> {
            ||| constraints.len() == 0 && !require_constraints
            ||| {
                &&& exists|i: int|
                    0 <= i < constraints.len()
                        && compiled_constraint(#[trigger] constraints[i], rules) is Ok
                &&& forall|i: int|
                    0 <= i < constraints.len()
                        && compiled_constraint(#[trigger] constraints[i], rules) is Ok
                        ==> constraints[i].len() == 0
            }
        },
{
    law_alternatives_come_from_constraints(constraints, rules);
    let compiled = compiled_ones(constraints, rules);
    assert forall|i: int|
        0 <= i < constraints.len() && compiled_constraint(#[trigger] constraints[i], rules) is Ok
        implies compiled_constraint(constraints[i], rules)->Ok_0.len() == constraints[i].len() by {
        law_every_predicate_becomes_a_filter(constraints[i], rules);
    }
    if compiled.len() > 0 {
        let i = choose|i: int|
            0 <= i < constraints.len()
                && compiled_constraint(#[trigger] constraints[i], rules)
                    == Ok::<_, Seq<char>>(compiled[0]);
        assert(compiled_constraint(constraints[i], rules) is Ok);
    }
    if all_empty(compiled) {
        assert forall|i: int|
            0 <= i < constraints.len()
                && compiled_constraint(#[trigger] constraints[i], rules) is Ok
                implies constraints[i].len() == 0 by {
            let wanted = compiled_constraint(constraints[i], rules)->Ok_0;
            assert(compiled.contains(wanted));
            let k = choose|k: int| 0 <= k < compiled.len() && compiled[k] == wanted;
            assert(compiled[k].len() == 0);
        }
    } else {
        let k = choose|k: int| 0 <= k < compiled.len() && (#[trigger] compiled[k]).len() != 0;
        let i = choose|i: int|
            0 <= i < constraints.len()
                && compiled_constraint(#[trigger] constraints[i], rules)
                    == Ok::<_, Seq<char>>(compiled[k]);
        assert(constraints[i].len() != 0);
    }
}

/// Constraints that all have predicates never compile to the scope of every row.
pub proof fn law_predicates_always_restrict(
    constraints: Seq<ConstraintView>,
    require_constraints: bool,
    rules: CompileRules,
)
    requires
        constraints.len() > 0,
        forall|i: int| 0 <= i < constraints.len() ==> (#[trigger] constraints[i]).len() > 0,
    ensures
        compiled_scope(constraints, require_constraints, rules) matches Ok(scope)
            ==> !scope.unrestricted && scope.constraints.len() > 0,
{
    law_unrestricted_iff(constraints, require_constraints, rules);
}

/// In a compiled scope each alternative with a group filter has a filter on the owner
/// tenant beside it.
pub proof fn law_no_alternative_escapes_its_tenant(
    constraints: Seq<ConstraintView>,
    require_constraints: bool,
    rules: CompileRules,
    k: int,
    m: int,
)
    requires
        compiled_scope(constraints, require_constraints, rules) is Ok,
        ({
            let scope = compiled_scope(constraints, require_constraints, rules)->Ok_0;
            &&& 0 <= k < scope.constraints.len()
            &&& 0 <= m < scope.constraints[k].len()
            &&& scope.constraints[k][m].is_group()
        }),
    ensures
        ({
            let scope = compiled_scope(constraints, require_constraints, rules)->Ok_0;
            &&& is_sound_group_filter(scope.constraints[k][m], rules)
            &&& exists|j: int|
                0 <= j < scope.constraints[k].len() && (
                #[trigger] scope.constraints[k][j]).is_tenant() && has_uuid_tenants(
                    scope.constraints[k][j],
                )
        }),
{
    law_alternatives_come_from_constraints(constraints, rules);
    let compiled = compiled_ones(constraints, rules);
    let scope = compiled_scope(constraints, require_constraints, rules)->Ok_0;
    assert(scope.constraints == compiled);
    let i = choose|i: int|
        0 <= i < constraints.len()
            && compiled_constraint(#[trigger] constraints[i], rules)
                == Ok::<_, Seq<char>>(compiled[k]);
    law_every_predicate_becomes_a_filter(constraints[i], rules);
    assert(compiled[k][m].property() == constraints[i][m].property());
    law_group_filters_stay_within_tenants(constraints[i], rules, m);
}

/// Constraints are compiled each by itself and in order: the alternatives of one list
/// followed by another are those of the first followed by those of the second, and so
/// are the reasons of failure.
pub proof fn law_constraints_compile_in_order(
    first: Seq<ConstraintView>,
    second: Seq<ConstraintView>,
    rules: CompileRules,
)
    ensures
        compiled_ones(first + second, rules) == compiled_ones(first, rules) + compiled_ones(
            second,
            rules,
        ),
        failure_reasons(first + second, rules) == failure_reasons(first, rules) + failure_reasons(
            second,
            rules,
        ),
    decreases second.len(),
{
    if second.len() == 0 {
        assert(first + second =~= first);
    } else {
        assert((first + second).drop_last() =~= first + second.drop_last());
        law_constraints_compile_in_order(first, second.drop_last(), rules);
    }
}

/// A constraint that fails drops out, wherever it stands: beside others that compile it
/// changes nothing.
pub proof fn law_failing_constraint_drops_out(
    before: Seq<ConstraintView>,
    failing: ConstraintView,
    after: Seq<ConstraintView>,
    require_constraints: bool,
    rules: CompileRules,
)
    requires
        before.len() + after.len() > 0,
        compiled_scope(before + after, require_constraints, rules) is Ok,
        compiled_constraint(failing, rules) is Err,
    ensures
        compiled_scope(before.push(failing) + after, require_constraints, rules)
            == compiled_scope(before + after, require_constraints, rules),
{
    law_constraints_compile_in_order(before, after, rules);
    law_constraints_compile_in_order(before.push(failing), after, rules);
    assert(before.push(failing).drop_last() =~= before);
}

// ---------------------------------------------------------------------------
// Values
// ---------------------------------------------------------------------------

/// A UUID that goes out as a property value comes back as that UUID, both where any
/// value and where only a UUID is admitted.
pub proof fn law_uuid_round_trips(id: Uuid, field: Seq<char>)
    ensures
        scope_value(id.property_value()) == Ok::<_, Seq<char>>(ScopeValueView::Uuid(id)),
        uuid_scope_value(id.property_value(), field) == Ok::<_, Seq<char>>(
            ScopeValueView::Uuid(id),
        ),
{
    law_uuid_text_round_trips(id);
}

/// A constraint to a list of tenants, each given as a UUID, compiles to exactly those
/// tenants wherever the owner tenant is supported.
pub proof fn law_typed_tenants_compile(tenants: Seq<Uuid>, rules: CompileRules)
    requires
        tenants.len() > 0,
        rules.supported.contains(OWNER_TENANT_ID@),
    ensures
        compiled_constraint(
            seq![
                PredicateView::In {
                    property: OWNER_TENANT_ID@,
                    values: tenants.map_values(|id: Uuid| id.property_value()),
                },
            ],
            rules,
        ) == Ok::<_, Seq<char>>(
            seq![
                ScopeFilterView::In {
                    property: OWNER_TENANT_ID@,
                    values: tenants.map_values(|id: Uuid| ScopeValueView::Uuid(id)),
                },
            ],
        ),
{
    let values = tenants.map_values(|id: Uuid| id.property_value());
    let read = tenants.map_values(|id: Uuid| ScopeValueView::Uuid(id));
    let predicate = PredicateView::In { property: OWNER_TENANT_ID@, values };
    let filter = ScopeFilterView::In { property: OWNER_TENANT_ID@, values: read };
    let step = uuid_step(OWNER_TENANT_ID@);
    assert forall|i: int| 0 <= i < values.len() implies step(#[trigger] values[i]) == Ok::<
        _,
        Seq<char>,
    >(read[i]) by {
        law_uuid_round_trips(tenants[i], OWNER_TENANT_ID@);
    }
    lemma_all_succeed(values, step);
    assert(all_or_first_failure(values, step)->Ok_0 =~= read) by {
        let done = all_or_first_failure(values, step)->Ok_0;
        assert forall|i: int| 0 <= i < read.len() implies done[i] == read[i] by {
            assert(step(values[i]) == Ok::<_, Seq<char>>(done[i]));
        }
    }
    let constraint = seq![predicate];
    assert(constraint.last() == predicate);
    assert(constraint.drop_last() =~= Seq::empty());
    assert(!constraint[0].is_group());
    assert(!has_group(constraint));
    assert(admitted_predicate(predicate, rules) == Ok::<_, Seq<char>>(filter));
    assert(predicate_step(rules)(predicate) == Ok::<_, Seq<char>>(filter));
    assert(Seq::<ScopeFilterView>::empty().push(filter) =~= seq![filter]);
    reveal_with_fuel(all_or_first_failure, 2);
}

/// Integers and flags come back as they went out. A string does too, unless it
/// writes a UUID: then it comes back as that.
pub proof fn law_scalar_round_trips(number: i64, flag: bool, text: &str)
    ensures
        scope_value(number.property_value()) == Ok::<_, Seq<char>>(ScopeValueView::Int(number)),
        scope_value(flag.property_value()) == Ok::<_, Seq<char>>(ScopeValueView::Bool(flag)),
        scope_value(text.property_value()) == Ok::<_, Seq<char>>(
            match parsed_uuid(text@) {
                Some(id) => ScopeValueView::Uuid(id),
                None => ScopeValueView::String(text@),
            },
        ),
{
}

/// A UUID goes out in its lower-case hyphenated form, and a text as it is, even where it
/// writes a UUID. What a typed value is in JSON does not depend on whether it is owned or
/// borrowed, and a JSON value is itself.
pub proof fn law_typed_values_go_out_as_they_are(
    id: Uuid,
    owned: String,
    text: &str,
    value: serde_json::Value,
)
    ensures
        id.property_value() == JsonValueView::String(hyphenated(id)),
        (&id).property_value() == id.property_value(),
        text.property_value() == JsonValueView::String(text@),
        owned@ == text@ ==> owned.property_value() == text.property_value(),
        value.property_value() == json_reading(value),
{
}

/// Where only UUIDs are admitted, a value is accepted exactly when it is a string that
/// writes a UUID.
pub proof fn law_only_uuid_strings_are_uuids(value: JsonValueView, field: Seq<char>)
    ensures
        uuid_scope_value(value, field) is Ok <==> (
        value matches JsonValueView::String(text) && parsed_uuid(text) is Some),
        uuid_scope_value(value, field) matches Ok(read) ==> read is Uuid,
{
}

/// A tenant subtree that compiles keeps its barrier mode and its tenant states: one
/// number from 1 to 3 for each state, different for different states, and none when
/// no state is named.
pub proof fn law_tenant_subtree_keeps_its_options(
    property: Seq<char>,
    root: JsonValueView,
    mode: BarrierMode,
    statuses: Seq<TenantStatus>,
    rules: CompileRules,
)
    ensures
        compiled_tenant_subtree(property, root, mode, statuses, rules.negotiated) matches Ok(filter)
            ==> (filter matches ScopeFilterView::InTenantSubtree {
            respect_barriers,
            descendant_status,
            ..
        } && {
            &&& respect_barriers == (mode is Respect)
            &&& descendant_status.len() == statuses.len()
            &&& forall|i: int|
                0 <= i < statuses.len() ==> {
                    &&& 1 <= statuses[i].smallint() <= 3
                    &&& (#[trigger] descendant_status[i]) == ScopeValueView::Int(
                        statuses[i].smallint() as i64,
                    )
                }
            &&& forall|i: int, j: int|
                0 <= i < statuses.len() && 0 <= j < statuses.len() && #[trigger] statuses[i]
                    != #[trigger] statuses[j] ==> descendant_status[i] != descendant_status[j]
        }),
{
}

} // verus!
