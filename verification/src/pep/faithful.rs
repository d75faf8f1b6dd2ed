//! How compiled filters relate to the predicates that they come from.
//!
//! The laws here go by the predicates, the filters and the configuration alone: which
//! predicates compile, what the filter of each says, which alternatives a scope has, and
//! what a failure reports.

use crate::constraints::{ConstraintView, PredicateView};
use crate::ids::parsed_uuid;
use crate::json::{JsonNumberView, JsonValueView};
use crate::models::{BarrierMode, Capability, TenantStatus};
use crate::pep::compiler::{
    all_empty, all_or_first_failure, capability_complaint, compile_rules, compiled_constraint,
    compiled_ones, compiled_predicate, compiled_scope, failure_reasons, group_parts, has_group,
    has_tenant_scope, lemma_all_succeed, missing_names, outcome, predicate_step,
    property_complaint, required_membership_type, scope_outcome, scope_value, uuid_scope_value,
    uuid_step, value_step, CompileRules, ConstraintCompileError, ConstraintCompileErrorView,
};
use crate::pep::laws::{law_constraints_compile_in_order, lemma_missing_names};
use crate::scope::{
    AccessScope, AccessScopeView, ScopeConstraintView, ScopeFilterView, ScopeValueView,
    OWNER_TENANT_ID, RESOURCE_ID,
};
use crate::text::{debug_quoted, joined, law_joined_texts_concatenate};
use vstd::prelude::*;

verus! {

// ---------------------------------------------------------------------------
// Values
// ---------------------------------------------------------------------------

/// Whether `read` is what the JSON value `value` carries.
pub open spec fn carries(value: JsonValueView, read: ScopeValueView) -> bool {
    match read {
        ScopeValueView::Uuid(id) => value matches JsonValueView::String(text) && parsed_uuid(text)
            == Some(id),
        ScopeValueView::String(text) => value == JsonValueView::String(text) && parsed_uuid(text)
            is None,
        ScopeValueView::Int(number) => value == JsonValueView::Number(JsonNumberView::Int(number)),
        ScopeValueView::Bool(flag) => value == JsonValueView::Bool(flag),
    }
}

/// Whether each of `read` is what the value in its place carries, and none is missing.
pub open spec fn carry_all(values: Seq<JsonValueView>, read: Seq<ScopeValueView>) -> bool {
    &&& read.len() == values.len()
    &&& forall|i: int| 0 <= i < values.len() ==> carries(values[i], #[trigger] read[i])
}

/// Whether the value is a string that writes a UUID.
pub open spec fn is_uuid_text(value: JsonValueView) -> bool {
    value matches JsonValueView::String(text) && parsed_uuid(text) is Some
}

/// Whether the value can be compared with a column: a flag, a string or an integer.
pub open spec fn is_scalar(value: JsonValueView) -> bool {
    ||| value is Bool
    ||| value is String
    ||| value matches JsonValueView::Number(number) && number is Int
}

/// Whether the value suits the property: the owner tenant takes UUIDs, other properties
/// take any scalar.
pub open spec fn suits(property: Seq<char>, value: JsonValueView) -> bool {
    if property == OWNER_TENANT_ID@ {
        is_uuid_text(value)
    } else {
        is_scalar(value)
    }
}

/// No JSON value carries two different values.
pub proof fn law_a_value_carries_one_value(
    value: JsonValueView,
    one: ScopeValueView,
    other: ScopeValueView,
)
    requires
        carries(value, one),
        carries(value, other),
    ensures
        one == other,
{
}

/// A value is read exactly when it is a scalar, and then what is read is what it carries.
pub proof fn law_scalars_are_read(value: JsonValueView)
    ensures
        scope_value(value) is Ok <==> is_scalar(value),
        forall|read: ScopeValueView|
            scope_value(value) == Ok::<_, Seq<char>>(read) <==> #[trigger] carries(value, read),
{
    assert forall|read: ScopeValueView| #[trigger] carries(value, read) implies scope_value(value)
        == Ok::<_, Seq<char>>(read) by {
        law_a_value_carries_one_value(
            value,
            read,
            scope_value(value)->Ok_0,
        );
    }
}

/// A value is read as a UUID exactly when it is a string that writes one, and then that
/// UUID is read.
pub proof fn law_uuids_are_read(value: JsonValueView, field: Seq<char>)
    ensures
        uuid_scope_value(value, field) is Ok <==> is_uuid_text(value),
        uuid_scope_value(value, field) matches Ok(read) ==> read is Uuid && carries(value, read),
{
}

/// Why a value is not read: the reason quotes it, and for a UUID names the field.
pub proof fn law_unread_values_are_reported(value: JsonValueView, field: Seq<char>)
    ensures
        value matches JsonValueView::Number(JsonNumberView::Other { text }) ==> scope_value(value)
            == Err::<ScopeValueView, _>(
            "only integer JSON numbers are supported for scope filters, got: "@ + text,
        ),
        value matches JsonValueView::Other { text } ==> scope_value(value) == Err::<
            ScopeValueView,
            _,
        >("unsupported JSON value type for scope filter: "@ + text),
        value matches JsonValueView::String(text) ==> parsed_uuid(text) is None
            ==> uuid_scope_value(value, field) == Err::<ScopeValueView, _>(
            field + " must contain UUID strings, got: "@ + debug_quoted(text)
                + " (fail-closed)"@,
        ),
        value is Number ==> uuid_scope_value(value, field) == Err::<ScopeValueView, _>(
            field + " must contain UUID strings, got number (fail-closed)"@,
        ),
        value is Bool ==> uuid_scope_value(value, field) == Err::<ScopeValueView, _>(
            field + " must contain UUID strings, got bool (fail-closed)"@,
        ),
        value matches JsonValueView::Other { text } ==> uuid_scope_value(value, field) == Err::<
            ScopeValueView,
            _,
        >(field + " must contain UUID strings, got: "@ + text + " (fail-closed)"@),
{
}

/// Whether `reason` is what `step` reports of the first item that it fails on.
pub open spec fn reports_first_failure<A, B>(
    items: Seq<A>,
    step: spec_fn(A) -> Result<B, Seq<char>>,
    reason: Seq<char>,
) -> bool {
    exists|i: int|
        {
            &&& 0 <= i < items.len()
            &&& step(#[trigger] items[i]) == Err::<B, _>(reason)
            &&& forall|j: int| 0 <= j < i ==> step(#[trigger] items[j]) is Ok
        }
}

/// A list fails with the reason of its first item that fails, and else gives the result
/// for each item in its place.
pub proof fn law_first_failure_is_reported<A, B>(
    items: Seq<A>,
    step: spec_fn(A) -> Result<B, Seq<char>>,
)
    ensures
        match all_or_first_failure(items, step) {
            Ok(done) => done.len() == items.len() && forall|i: int|
                0 <= i < items.len() ==> step(items[i]) == Ok::<B, Seq<char>>(#[trigger] done[i]),
            Err(reason) => reports_first_failure(items, step, reason),
        },
    decreases items.len(),
{
    lemma_all_succeed(items, step);
    if items.len() > 0 {
        let front = items.drop_last();
        law_first_failure_is_reported(front, step);
        lemma_all_succeed(front, step);
        assert(forall|i: int| 0 <= i < front.len() ==> front[i] == items[i]);
        if all_or_first_failure(front, step) is Err {
            let reason = all_or_first_failure(front, step)->Err_0;
            let i = choose|i: int|
                {
                    &&& 0 <= i < front.len()
                    &&& step(#[trigger] front[i]) == Err::<B, _>(reason)
                    &&& forall|j: int| 0 <= j < i ==> step(#[trigger] front[j]) is Ok
                };
            assert(step(items[i]) == Err::<B, _>(reason));
            assert forall|j: int| 0 <= j < i implies step(#[trigger] items[j]) is Ok by {
                assert(step(front[j]) is Ok);
            }
        } else if step(items.last()) is Err {
            let i = items.len() - 1;
            assert(step(items[i]) is Err);
            assert forall|j: int| 0 <= j < i implies step(#[trigger] items[j]) is Ok by {
                assert(step(front[j]) is Ok);
            }
        }
    }
}

/// A list of UUIDs is read exactly when each value writes one; each is then read in its
/// place, and none is lost.
pub proof fn law_uuid_lists_are_read(values: Seq<JsonValueView>, field: Seq<char>)
    ensures
        all_or_first_failure(values, uuid_step(field)) is Ok <==> (forall|i: int|
            0 <= i < values.len() ==> is_uuid_text(#[trigger] values[i])),
        all_or_first_failure(values, uuid_step(field)) matches Ok(read) ==> carry_all(values, read)
            && forall|i: int| 0 <= i < read.len() ==> (#[trigger] read[i]) is Uuid,
        all_or_first_failure(values, uuid_step(field)) matches Err(reason)
            ==> reports_first_failure(
            values,
            |value: JsonValueView| uuid_scope_value(value, field),
            reason,
        ),
{
    let step = uuid_step(field);
    law_first_failure_is_reported(values, step);
    lemma_all_succeed(values, step);
    assert(forall|i: int|
        0 <= i < values.len() ==> step(#[trigger] values[i]) == uuid_scope_value(values[i], field));
    assert(step =~= |value: JsonValueView| uuid_scope_value(value, field));
    if all_or_first_failure(values, step) is Ok {
        let read = all_or_first_failure(values, step)->Ok_0;
        assert forall|i: int| 0 <= i < read.len() implies carries(values[i], #[trigger] read[i])
            && read[i] is Uuid by {
            assert(step(values[i]) == Ok::<_, Seq<char>>(read[i]));
        }
    }
}

/// A list of scalars is read exactly when each value is one; each is then read in its
/// place, and none is lost.
pub proof fn law_scalar_lists_are_read(values: Seq<JsonValueView>)
    ensures
        all_or_first_failure(values, value_step()) is Ok <==> (forall|i: int|
            0 <= i < values.len() ==> is_scalar(#[trigger] values[i])),
        all_or_first_failure(values, value_step()) matches Ok(read) ==> carry_all(values, read),
        all_or_first_failure(values, value_step()) matches Err(reason) ==> reports_first_failure(
            values,
            |value: JsonValueView| scope_value(value),
            reason,
        ),
{
    let step = value_step();
    law_first_failure_is_reported(values, step);
    lemma_all_succeed(values, step);
    assert(step =~= |value: JsonValueView| scope_value(value));
    assert forall|i: int| 0 <= i < values.len() implies (step(#[trigger] values[i]) is Ok
        <==> is_scalar(values[i])) by {
        law_scalars_are_read(values[i]);
    }
    if all_or_first_failure(values, step) is Ok {
        let read = all_or_first_failure(values, step)->Ok_0;
        assert forall|i: int| 0 <= i < read.len() implies carries(
            values[i],
            #[trigger] read[i],
        ) by {
            assert(step(values[i]) == Ok::<_, Seq<char>>(read[i]));
        }
    }
}

// ---------------------------------------------------------------------------
// Predicates
// ---------------------------------------------------------------------------

/// Whether a capability may be relied on: it was negotiated, or nobody enforces the
/// negotiation.
pub open spec fn is_granted(negotiated: Option<Seq<Capability>>, capability: Capability) -> bool {
    negotiated matches Some(granted) ==> granted.contains(capability)
}

/// Whether a member-handle type is configured and not empty.
pub open spec fn is_typed(membership_type: Option<Seq<char>>) -> bool {
    membership_type matches Some(name) && name.len() > 0
}

/// Whether the list has a value and each of its values writes a UUID.
pub open spec fn are_uuid_texts(values: Seq<JsonValueView>) -> bool {
    &&& values.len() > 0
    &&& forall|i: int| 0 <= i < values.len() ==> is_uuid_text(#[trigger] values[i])
}

/// Whether a predicate can be turned into a filter.
pub open spec fn is_compilable(
    predicate: PredicateView,
    membership_type: Option<Seq<char>>,
    negotiated: Option<Seq<Capability>>,
) -> bool {
    match predicate {
        PredicateView::Eq { property, value } => suits(property, value),
        PredicateView::In { property, values } => {
            &&& values.len() > 0
            &&& forall|i: int| 0 <= i < values.len() ==> suits(property, #[trigger] values[i])
        },
        PredicateView::InGroup { property, group_ids } => {
            &&& property == RESOURCE_ID@
            &&& is_granted(negotiated, Capability::GroupMembership)
            &&& are_uuid_texts(group_ids)
            &&& is_typed(membership_type)
        },
        PredicateView::InGroupSubtree { property, ancestor_ids } => {
            &&& property == RESOURCE_ID@
            &&& is_granted(negotiated, Capability::GroupMembership)
            &&& is_granted(negotiated, Capability::GroupHierarchy)
            &&& are_uuid_texts(ancestor_ids)
            &&& is_typed(membership_type)
        },
        PredicateView::InTenantSubtree { root_tenant_id, .. } => {
            &&& is_granted(negotiated, Capability::TenantHierarchy)
            &&& is_uuid_text(root_tenant_id)
        },
    }
}

/// Whether `value` is the number under which tables keep `status`.
pub open spec fn is_status_number(status: TenantStatus, value: ScopeValueView) -> bool {
    match status {
        TenantStatus::Active => value == ScopeValueView::Int(1),
        TenantStatus::Suspended => value == ScopeValueView::Int(2),
        TenantStatus::Deleted => value == ScopeValueView::Int(3),
    }
}

/// Whether `filter` says of rows what `predicate` says of resources: the same condition,
/// on the same property, with each value, key and option of the predicate in its place.
pub open spec fn says_the_same(
    predicate: PredicateView,
    filter: ScopeFilterView,
    membership_type: Option<Seq<char>>,
) -> bool {
    match filter {
        ScopeFilterView::Eq { property, value } => {
            predicate matches PredicateView::Eq { property: on, value: given } && on == property
                && carries(given, value)
        },
        ScopeFilterView::In { property, values } => {
            predicate matches PredicateView::In { property: on, values: given } && on == property
                && carry_all(given, values)
        },
        ScopeFilterView::InGroup { property, membership_type: name, group_ids } => {
            predicate matches PredicateView::InGroup { property: on, group_ids: given } && on
                == property && carry_all(given, group_ids) && membership_type == Some(name)
        },
        ScopeFilterView::InGroupSubtree { property, membership_type: name, ancestor_ids } => {
            predicate matches PredicateView::InGroupSubtree { property: on, ancestor_ids: given }
                && on == property && carry_all(given, ancestor_ids) && membership_type == Some(name)
        },
        ScopeFilterView::InTenantSubtree {
            property,
            root_tenant_id,
            respect_barriers,
            descendant_status,
        } => {
            predicate matches PredicateView::InTenantSubtree {
                property: on,
                root_tenant_id: given,
                barrier_mode,
                descendant_status: statuses,
            } && {
                &&& on == property
                &&& carries(given, root_tenant_id)
                &&& respect_barriers == (barrier_mode == BarrierMode::Respect)
                &&& descendant_status.len() == statuses.len()
                &&& forall|i: int|
                    0 <= i < statuses.len() ==> is_status_number(
                        statuses[i],
                        #[trigger] descendant_status[i],
                    )
            }
        },
    }
}

/// A predicate lacks no capability exactly when each one that it requires is granted.
pub proof fn law_capabilities_suffice_iff_each_is_granted(
    negotiated: Option<Seq<Capability>>,
    required: Seq<Capability>,
    predicate: Seq<char>,
)
    ensures
        capability_complaint(negotiated, required, predicate) is None <==> (forall|i: int|
            0 <= i < required.len() ==> is_granted(negotiated, #[trigger] required[i])),
{
    if negotiated is Some {
        lemma_missing_names(required, negotiated.unwrap());
        assert(forall|i: int|
            0 <= i < required.len() ==> is_granted(negotiated, #[trigger] required[i])
                == negotiated.unwrap().contains(required[i]));
    }
}

proof fn lemma_needed_capabilities(negotiated: Option<Seq<Capability>>, predicate: Seq<char>)
    ensures
        capability_complaint(negotiated, seq![Capability::GroupMembership], predicate) is None
            <==> is_granted(negotiated, Capability::GroupMembership),
        capability_complaint(
            negotiated,
            seq![Capability::GroupMembership, Capability::GroupHierarchy],
            predicate,
        ) is None <==> is_granted(negotiated, Capability::GroupMembership) && is_granted(
            negotiated,
            Capability::GroupHierarchy,
        ),
        capability_complaint(negotiated, seq![Capability::TenantHierarchy], predicate) is None
            <==> is_granted(negotiated, Capability::TenantHierarchy),
{
    let group = seq![Capability::GroupMembership];
    let subtree = seq![Capability::GroupMembership, Capability::GroupHierarchy];
    let tenant = seq![Capability::TenantHierarchy];
    law_capabilities_suffice_iff_each_is_granted(negotiated, group, predicate);
    law_capabilities_suffice_iff_each_is_granted(negotiated, subtree, predicate);
    law_capabilities_suffice_iff_each_is_granted(negotiated, tenant, predicate);
    assert(group[0] == Capability::GroupMembership);
    assert(subtree[0] == Capability::GroupMembership);
    assert(subtree[1] == Capability::GroupHierarchy);
    assert(tenant[0] == Capability::TenantHierarchy);
}

/// A group predicate becomes a filter exactly when it is compilable. The filter is of the
/// same kind, on the same property, under the configured member-handle type, and has each
/// group of the predicate in its place, as the UUID that it writes.
pub proof fn law_group_predicates_keep_every_group(
    property: Seq<char>,
    ids: Seq<JsonValueView>,
    membership_type: Option<Seq<char>>,
    negotiated: Option<Seq<Capability>>,
)
    ensures
        ({
            let direct = PredicateView::InGroup { property, group_ids: ids };
            let compiled = compiled_predicate(direct, membership_type, negotiated);
            &&& compiled is Ok <==> is_compilable(direct, membership_type, negotiated)
            &&& compiled matches Ok(filter) ==> (filter matches ScopeFilterView::InGroup {
                property: on,
                membership_type: name,
                group_ids,
            } && on == property && membership_type == Some(name) && carry_all(ids, group_ids))
        }),
        ({
            let nested = PredicateView::InGroupSubtree { property, ancestor_ids: ids };
            let compiled = compiled_predicate(nested, membership_type, negotiated);
            &&& compiled is Ok <==> is_compilable(nested, membership_type, negotiated)
            &&& compiled matches Ok(filter) ==> (filter matches ScopeFilterView::InGroupSubtree {
                property: on,
                membership_type: name,
                ancestor_ids,
            } && on == property && membership_type == Some(name) && carry_all(ids, ancestor_ids))
        }),
{
    lemma_needed_capabilities(negotiated, "InGroup"@);
    lemma_needed_capabilities(negotiated, "InGroupSubtree"@);
    law_uuid_lists_are_read(ids, "group_ids"@);
    law_uuid_lists_are_read(ids, "ancestor_ids"@);
}

/// A predicate becomes a filter exactly when it is compilable, and the filter says the
/// same as the predicate.
pub proof fn law_predicates_keep_their_meaning(
    predicate: PredicateView,
    membership_type: Option<Seq<char>>,
    negotiated: Option<Seq<Capability>>,
)
    ensures
        compiled_predicate(predicate, membership_type, negotiated) is Ok <==> is_compilable(
            predicate,
            membership_type,
            negotiated,
        ),
        compiled_predicate(predicate, membership_type, negotiated) matches Ok(filter)
            ==> says_the_same(predicate, filter, membership_type),
{
    match predicate {
        PredicateView::Eq { property, value } => {
            law_scalars_are_read(value);
            law_uuids_are_read(value, OWNER_TENANT_ID@);
        },
        PredicateView::In { property, values } => {
            law_scalar_lists_are_read(values);
            law_uuid_lists_are_read(values, OWNER_TENANT_ID@);
            if property == OWNER_TENANT_ID@ {
                assert(forall|i: int|
                    0 <= i < values.len() ==> suits(property, #[trigger] values[i])
                        == is_uuid_text(values[i]));
            } else {
                assert(forall|i: int|
                    0 <= i < values.len() ==> suits(property, #[trigger] values[i]) == is_scalar(
                        values[i],
                    ));
            }
        },
        PredicateView::InGroup { property, group_ids } => {
            law_group_predicates_keep_every_group(property, group_ids, membership_type, negotiated);
        },
        PredicateView::InGroupSubtree { property, ancestor_ids } => {
            law_group_predicates_keep_every_group(
                property,
                ancestor_ids,
                membership_type,
                negotiated,
            );
        },
        PredicateView::InTenantSubtree { root_tenant_id, .. } => {
            lemma_needed_capabilities(negotiated, "InTenantSubtree"@);
            law_uuids_are_read(root_tenant_id, "root_tenant_id"@);
        },
    }
}

/// Whether the group predicate named `predicate` fails for want of capabilities, on its
/// keys, or for want of a member-handle type, with `reason`.
pub open spec fn is_group_failure(
    predicate: Seq<char>,
    property: Seq<char>,
    required: Seq<Capability>,
    ids: Seq<JsonValueView>,
    field: Seq<char>,
    negotiated: Option<Seq<Capability>>,
    reason: Seq<char>,
) -> bool {
    if property != RESOURCE_ID@ {
        reason == predicate + " predicate must target '"@ + RESOURCE_ID@
            + "' until per-property membership types are supported, got '"@ + property
            + "' (fail-closed)"@
    } else if exists|i: int|
        0 <= i < required.len() && !is_granted(negotiated, #[trigger] required[i]) {
        capability_complaint(negotiated, required, predicate) == Some(reason)
    } else if exists|i: int| 0 <= i < ids.len() && !is_uuid_text(#[trigger] ids[i]) {
        reports_first_failure(
            ids,
            |value: JsonValueView| uuid_scope_value(value, field),
            reason,
        )
    } else if ids.len() == 0 {
        reason == predicate + " predicate on '"@ + property + "' has empty "@ + field
            + " (fail-closed)"@
    } else {
        reason == predicate + " predicate on '"@ + property
            + "' requires a configured RG membership resource type (fail-closed)"@
    }
}

/// Whether `reason` says what is wrong with a predicate that is not compilable. Of
/// several faults the first in a fixed order is reported.
pub open spec fn is_failure(
    predicate: PredicateView,
    negotiated: Option<Seq<Capability>>,
    reason: Seq<char>,
) -> bool {
    match predicate {
        PredicateView::Eq { property, value } => if property == OWNER_TENANT_ID@ {
            uuid_scope_value(value, OWNER_TENANT_ID@) == Err::<ScopeValueView, _>(reason)
        } else {
            scope_value(value) == Err::<ScopeValueView, _>(reason)
        },
        PredicateView::In { property, values } => if values.len() == 0 {
            reason == "In predicate on '"@ + property + "' has empty value list (fail-closed)"@
        } else if property == OWNER_TENANT_ID@ {
            reports_first_failure(
                values,
                |value: JsonValueView| uuid_scope_value(value, OWNER_TENANT_ID@),
                reason,
            )
        } else {
            reports_first_failure(values, |value: JsonValueView| scope_value(value), reason)
        },
        PredicateView::InGroup { property, group_ids } => is_group_failure(
            "InGroup"@,
            property,
            seq![Capability::GroupMembership],
            group_ids,
            "group_ids"@,
            negotiated,
            reason,
        ),
        PredicateView::InGroupSubtree { property, ancestor_ids } => is_group_failure(
            "InGroupSubtree"@,
            property,
            seq![Capability::GroupMembership, Capability::GroupHierarchy],
            ancestor_ids,
            "ancestor_ids"@,
            negotiated,
            reason,
        ),
        PredicateView::InTenantSubtree { property, root_tenant_id, .. } => if !is_granted(
            negotiated,
            Capability::TenantHierarchy,
        ) {
            capability_complaint(negotiated, seq![Capability::TenantHierarchy], "InTenantSubtree"@)
                == Some(reason)
        } else {
            &&& uuid_scope_value(root_tenant_id, "root_tenant_id"@) is Err
            &&& reason == "InTenantSubtree predicate on '"@ + property
                + "' has invalid root_tenant_id: "@ + uuid_scope_value(
                root_tenant_id,
                "root_tenant_id"@,
            )->Err_0
        },
    }
}

/// The complaints of the single checks: about the property of a group predicate, and about
/// a member-handle type that is absent or empty.
pub proof fn law_checks_report_their_subject(
    predicate: Seq<char>,
    property: Seq<char>,
    membership_type: Option<Seq<char>>,
)
    ensures
        property_complaint(predicate, property) is None <==> property == RESOURCE_ID@,
        property_complaint(predicate, property) matches Some(reason) ==> reason == predicate
            + " predicate must target '"@ + RESOURCE_ID@
            + "' until per-property membership types are supported, got '"@ + property
            + "' (fail-closed)"@,
        is_typed(membership_type) ==> required_membership_type(membership_type, predicate, property)
            == Ok::<_, Seq<char>>(membership_type.unwrap()),
        !is_typed(membership_type) ==> required_membership_type(
            membership_type,
            predicate,
            property,
        ) == Err::<Seq<char>, _>(
            predicate + " predicate on '"@ + property
                + "' requires a configured RG membership resource type (fail-closed)"@,
        ),
{
}

/// The missing capabilities of two lists of required ones are those of the first followed
/// by those of the second. Of a single one, its name is missing exactly when it was not
/// negotiated.
pub proof fn law_missing_capabilities_are_named(
    first: Seq<Capability>,
    second: Seq<Capability>,
    negotiated: Seq<Capability>,
    capability: Capability,
)
    ensures
        missing_names(first + second, negotiated) == missing_names(first, negotiated)
            + missing_names(second, negotiated),
        missing_names(Seq::empty(), negotiated) == Seq::<Seq<char>>::empty(),
        negotiated.contains(capability) ==> missing_names(seq![capability], negotiated) == Seq::<
            Seq<char>,
        >::empty(),
        !negotiated.contains(capability) ==> missing_names(seq![capability], negotiated) == seq![
            match capability {
                Capability::TenantHierarchy => "tenant_hierarchy"@,
                Capability::GroupMembership => "group_membership"@,
                Capability::GroupHierarchy => "group_hierarchy"@,
            },
        ],
    decreases second.len(),
{
    let one = seq![capability];
    assert(one.drop_last() =~= Seq::empty());
    assert(missing_names(one.drop_last(), negotiated) == Seq::<Seq<char>>::empty());
    assert(one.last() == capability);
    if second.len() == 0 {
        assert(first + second =~= first);
    } else {
        assert((first + second).drop_last() =~= first + second.drop_last());
        law_missing_capabilities_are_named(first, second.drop_last(), negotiated, capability);
    }
}

/// A predicate that lacks capabilities is reported with all of them, by name and in order.
pub proof fn law_missing_capabilities_are_reported(
    negotiated: Seq<Capability>,
    required: Seq<Capability>,
    predicate: Seq<char>,
)
    ensures
        capability_complaint(Some(negotiated), required, predicate) matches Some(reason) ==> reason
            == predicate + " predicate requires unadvertised capabilities: "@ + joined(
            missing_names(required, negotiated),
            ", "@,
        ) + " (fail-closed)"@,
{
}

proof fn lemma_group_failure(
    predicate: Seq<char>,
    property: Seq<char>,
    required: Seq<Capability>,
    ids: Seq<JsonValueView>,
    field: Seq<char>,
    membership_type: Option<Seq<char>>,
    negotiated: Option<Seq<Capability>>,
)
    ensures
        group_parts(
            predicate,
            property,
            required,
            ids,
            field,
            membership_type,
            negotiated,
        ) matches Err(reason) ==> is_group_failure(
            predicate,
            property,
            required,
            ids,
            field,
            negotiated,
            reason,
        ),
{
    law_capabilities_suffice_iff_each_is_granted(negotiated, required, predicate);
    law_uuid_lists_are_read(ids, field);
}

/// A predicate that does not become a filter is reported with what is wrong with it.
pub proof fn law_predicate_failures_are_reported(
    predicate: PredicateView,
    membership_type: Option<Seq<char>>,
    negotiated: Option<Seq<Capability>>,
)
    ensures
        compiled_predicate(predicate, membership_type, negotiated) matches Err(reason)
            ==> is_failure(predicate, negotiated, reason),
{
    match predicate {
        PredicateView::Eq { .. } => {},
        PredicateView::In { property, values } => {
            law_scalar_lists_are_read(values);
            law_uuid_lists_are_read(values, OWNER_TENANT_ID@);
        },
        PredicateView::InGroup { property, group_ids } => {
            lemma_group_failure(
                "InGroup"@,
                property,
                seq![Capability::GroupMembership],
                group_ids,
                "group_ids"@,
                membership_type,
                negotiated,
            );
        },
        PredicateView::InGroupSubtree { property, ancestor_ids } => {
            lemma_group_failure(
                "InGroupSubtree"@,
                property,
                seq![Capability::GroupMembership, Capability::GroupHierarchy],
                ancestor_ids,
                "ancestor_ids"@,
                membership_type,
                negotiated,
            );
        },
        PredicateView::InTenantSubtree { .. } => {
            lemma_needed_capabilities(negotiated, "InTenantSubtree"@);
        },
    }
}

// ---------------------------------------------------------------------------
// Constraints
// ---------------------------------------------------------------------------

/// The property that a predicate is about.
pub open spec fn target(predicate: PredicateView) -> Seq<char> {
    match predicate {
        PredicateView::Eq { property, .. } => property,
        PredicateView::In { property, .. } => property,
        PredicateView::InGroup { property, .. } => property,
        PredicateView::InGroupSubtree { property, .. } => property,
        PredicateView::InTenantSubtree { property, .. } => property,
    }
}

/// Whether some predicate goes by group membership.
pub open spec fn names_groups(constraint: ConstraintView) -> bool {
    exists|i: int|
        0 <= i < constraint.len() && (#[trigger] constraint[i] is InGroup || constraint[i]
            is InGroupSubtree)
}

/// Whether some predicate compares the owner tenant, or takes it from a subtree.
pub open spec fn names_tenants(constraint: ConstraintView) -> bool {
    exists|i: int|
        0 <= i < constraint.len() && target(#[trigger] constraint[i]) == OWNER_TENANT_ID@ && (
        constraint[i] is Eq || constraint[i] is In || constraint[i] is InTenantSubtree)
}

/// Whether a predicate can be turned into a filter on a supported property.
pub open spec fn is_admissible(predicate: PredicateView, rules: CompileRules) -> bool {
    &&& is_compilable(predicate, rules.membership_type, rules.negotiated)
    &&& rules.supported.contains(target(predicate))
}

/// Whether a constraint can be turned into filters: each predicate can, and group
/// predicates have a tenant predicate beside them.
pub open spec fn compiles(constraint: ConstraintView, rules: CompileRules) -> bool {
    &&& names_groups(constraint) ==> names_tenants(constraint)
    &&& forall|i: int|
        0 <= i < constraint.len() ==> is_admissible(#[trigger] constraint[i], rules)
}

/// Whether `filters` say what the predicates of `constraint` say, each in its place.
pub open spec fn say_the_same(
    constraint: ConstraintView,
    filters: Seq<ScopeFilterView>,
    rules: CompileRules,
) -> bool {
    &&& filters.len() == constraint.len()
    &&& forall|i: int|
        0 <= i < constraint.len() ==> says_the_same(
            constraint[i],
            #[trigger] filters[i],
            rules.membership_type,
        )
}

/// Whether a constraint has group predicates, and whether it has tenant predicates, goes
/// by what its predicates are.
pub proof fn law_kinds_of_predicates_are_recognized(constraint: ConstraintView)
    ensures
        has_group(constraint) <==> names_groups(constraint),
        has_tenant_scope(constraint) <==> names_tenants(constraint),
{
    if has_group(constraint) {
        let i = choose|i: int| 0 <= i < constraint.len() && (#[trigger] constraint[i]).is_group();
        assert(constraint[i] is InGroup || constraint[i] is InGroupSubtree);
    }
    if names_groups(constraint) {
        let i = choose|i: int|
            0 <= i < constraint.len() && (#[trigger] constraint[i] is InGroup || constraint[i]
                is InGroupSubtree);
        assert(constraint[i].is_group());
    }
    if has_tenant_scope(constraint) {
        let i = choose|i: int| 0 <= i < constraint.len() && (#[trigger] constraint[i]).is_tenant();
        assert(target(constraint[i]) == OWNER_TENANT_ID@);
    }
    if names_tenants(constraint) {
        let i = choose|i: int|
            0 <= i < constraint.len() && target(#[trigger] constraint[i]) == OWNER_TENANT_ID@ && (
            constraint[i] is Eq || constraint[i] is In || constraint[i] is InTenantSubtree);
        assert(constraint[i].is_tenant());
    }
}

/// A constraint becomes filters exactly when it compiles in the sense of its predicates,
/// and the filters say the same as the predicates, one for one.
pub proof fn law_constraints_keep_their_meaning(constraint: ConstraintView, rules: CompileRules)
    ensures
        compiled_constraint(constraint, rules) is Ok <==> compiles(constraint, rules),
        compiled_constraint(constraint, rules) matches Ok(filters) ==> say_the_same(
            constraint,
            filters,
            rules,
        ),
{
    let step = predicate_step(rules);
    law_kinds_of_predicates_are_recognized(constraint);
    lemma_all_succeed(constraint, step);
    assert forall|i: int| 0 <= i < constraint.len() implies {
        &&& step(#[trigger] constraint[i]) is Ok <==> is_admissible(constraint[i], rules)
        &&& step(constraint[i]) matches Ok(filter) ==> says_the_same(
            constraint[i],
            filter,
            rules.membership_type,
        )
    } by {
        law_predicates_keep_their_meaning(constraint[i], rules.membership_type, rules.negotiated);
    }
    if compiled_constraint(constraint, rules) is Ok {
        let filters = compiled_constraint(constraint, rules)->Ok_0;
        assert forall|i: int| 0 <= i < constraint.len() implies says_the_same(
            constraint[i],
            #[trigger] filters[i],
            rules.membership_type,
        ) by {
            assert(step(constraint[i]) == Ok::<_, Seq<char>>(filters[i]));
        }
    }
}

/// Whether `reason` says why the first predicate that is not admissible is not.
pub open spec fn is_first_failure(
    constraint: ConstraintView,
    rules: CompileRules,
    reason: Seq<char>,
) -> bool {
    exists|i: int|
        {
            &&& 0 <= i < constraint.len()
            &&& !is_admissible(#[trigger] constraint[i], rules)
            &&& forall|j: int|
                0 <= j < i ==> is_admissible(#[trigger] constraint[j], rules)
            &&& if is_compilable(constraint[i], rules.membership_type, rules.negotiated) {
                reason == "unsupported property: "@ + target(constraint[i])
            } else {
                is_failure(constraint[i], rules.negotiated, reason)
            }
        }
}

/// A constraint that fails is reported with the want of a tenant predicate beside its
/// group predicates, or else with the fault of the first predicate at fault.
pub proof fn law_constraint_failures_are_reported(constraint: ConstraintView, rules: CompileRules)
    ensures
        compiled_constraint(constraint, rules) matches Err(reason) ==> if names_groups(constraint)
            && !names_tenants(constraint) {
            reason
                == "native group predicates require an owner_tenant_id predicate in the same constraint (fail-closed)"@
        } else {
            is_first_failure(constraint, rules, reason)
        },
{
    let step = predicate_step(rules);
    law_kinds_of_predicates_are_recognized(constraint);
    law_first_failure_is_reported(constraint, step);
    if compiled_constraint(constraint, rules) is Err && !(names_groups(constraint)
        && !names_tenants(constraint)) {
        let reason = compiled_constraint(constraint, rules)->Err_0;
        let i = choose|i: int|
            {
                &&& 0 <= i < constraint.len()
                &&& step(#[trigger] constraint[i]) == Err::<ScopeFilterView, _>(reason)
                &&& forall|j: int| 0 <= j < i ==> step(#[trigger] constraint[j]) is Ok
            };
        let faulty = constraint[i];
        law_predicates_keep_their_meaning(faulty, rules.membership_type, rules.negotiated);
        law_predicate_failures_are_reported(faulty, rules.membership_type, rules.negotiated);
        assert(!is_admissible(constraint[i], rules));
        assert forall|j: int| 0 <= j < i implies is_admissible(#[trigger] constraint[j], rules) by {
            assert(step(constraint[j]) is Ok);
            law_predicates_keep_their_meaning(
                constraint[j],
                rules.membership_type,
                rules.negotiated,
            );
        }
    }
}

// ---------------------------------------------------------------------------
// Scopes
// ---------------------------------------------------------------------------

/// Whether `places` are, in order, the places of all constraints that compile, and
/// `alternatives` what those constraints say, each in its turn.
pub open spec fn lists_what_compiles(
    places: Seq<int>,
    constraints: Seq<ConstraintView>,
    alternatives: Seq<ScopeConstraintView>,
    rules: CompileRules,
) -> bool {
    &&& places.len() == alternatives.len()
    &&& forall|k: int, m: int|
        0 <= k < m < places.len() ==> #[trigger] places[k] < #[trigger] places[m]
    &&& forall|k: int|
        0 <= k < places.len() ==> 0 <= #[trigger] places[k] < constraints.len() && say_the_same(
            constraints[places[k]],
            alternatives[k],
            rules,
        ) && compiled_constraint(constraints[places[k]], rules) == Ok::<_, Seq<char>>(
            alternatives[k],
        )
    &&& forall|i: int|
        0 <= i < constraints.len() ==> (compiles(#[trigger] constraints[i], rules)
            <==> places.contains(i))
}

proof fn lemma_places(constraints: Seq<ConstraintView>, rules: CompileRules) -> (places: Seq<int>)
    ensures
        lists_what_compiles(places, constraints, compiled_ones(constraints, rules), rules),
    decreases constraints.len(),
{
    if constraints.len() == 0 {
        Seq::empty()
    } else {
        let front = constraints.drop_last();
        let last = constraints.len() - 1;
        let before = lemma_places(front, rules);
        let alternatives = compiled_ones(constraints, rules);
        law_constraints_keep_their_meaning(constraints[last], rules);
        assert(forall|i: int| 0 <= i < front.len() ==> front[i] == constraints[i]);
        let places = if compiled_constraint(constraints.last(), rules) is Ok {
            before.push(last)
        } else {
            before
        };
        assert forall|k: int| 0 <= k < places.len() implies 0 <= #[trigger] places[k]
            < constraints.len() && say_the_same(
            constraints[places[k]],
            alternatives[k],
            rules,
        ) && compiled_constraint(constraints[places[k]], rules) == Ok::<_, Seq<char>>(
            alternatives[k],
        ) by {
            if k < before.len() {
                assert(places[k] == before[k]);
            }
        }
        assert forall|k: int, m: int| 0 <= k < m < places.len() implies #[trigger] places[k]
            < #[trigger] places[m] by {
            assert(places[k] == before[k]);
            if m < before.len() {
                assert(places[m] == before[m]);
            }
        }
        assert forall|i: int| 0 <= i < constraints.len() implies (compiles(
            #[trigger] constraints[i],
            rules,
        ) <==> places.contains(i)) by {
            if i < last {
                assert(compiles(front[i], rules) <==> before.contains(i));
                if before.contains(i) {
                    let k = choose|k: int| 0 <= k < before.len() && before[k] == i;
                    assert(places[k] == i);
                }
                if places.contains(i) {
                    let k = choose|k: int| 0 <= k < places.len() && places[k] == i;
                    assert(before[k] == i);
                }
            } else {
                if compiles(constraints[i], rules) {
                    assert(places[places.len() - 1] == last);
                }
                if places.contains(i) {
                    let k = choose|k: int| 0 <= k < places.len() && places[k] == i;
                    if k < before.len() {
                        assert(before[k] == i);
                    }
                }
            }
        }
        places
    }
}

/// A scope that restricts rows has exactly one alternative for each constraint that
/// compiles, in the order of the constraints, and it says the same as its constraint. None
/// is lost, none is added.
pub proof fn law_scopes_list_what_compiles(
    constraints: Seq<ConstraintView>,
    require_constraints: bool,
    rules: CompileRules,
)
    ensures
        compiled_scope(constraints, require_constraints, rules) matches Ok(scope)
            ==> !scope.unrestricted ==> exists|places: Seq<int>|
            #[trigger] lists_what_compiles(places, constraints, scope.constraints, rules),
        compiled_scope(constraints, require_constraints, rules) matches Ok(scope)
            ==> scope.unrestricted ==> scope.constraints.len() == 0,
{
    let places = lemma_places(constraints, rules);
    let result = compiled_scope(constraints, require_constraints, rules);
    if result is Ok && !result->Ok_0.unrestricted {
        assert(lists_what_compiles(places, constraints, result->Ok_0.constraints, rules));
    }
}

/// Which answer a response gets. Without constraints: every row, or a refusal where they
/// are required. With constraints of which none compiles: a failure. With some that compile
/// but none of those with a predicate: every row. Else: a scope that restricts rows.
pub proof fn law_each_response_gets_its_answer(
    constraints: Seq<ConstraintView>,
    require_constraints: bool,
    rules: CompileRules,
)
    ensures
        match compiled_scope(constraints, require_constraints, rules) {
            Err(ConstraintCompileErrorView::ConstraintsRequiredButAbsent) => {
                constraints.len() == 0 && require_constraints
            },
            Err(ConstraintCompileErrorView::AllConstraintsFailed { .. }) => {
                &&& constraints.len() > 0
                &&& forall|i: int|
                    0 <= i < constraints.len() ==> !compiles(#[trigger] constraints[i], rules)
            },
            Ok(scope) => if constraints.len() == 0 {
                !require_constraints && scope.unrestricted
            } else {
                &&& exists|i: int|
                    0 <= i < constraints.len() && compiles(#[trigger] constraints[i], rules)
                &&& scope.unrestricted <==> (forall|i: int|
                    0 <= i < constraints.len() && compiles(#[trigger] constraints[i], rules)
                        ==> constraints[i].len() == 0)
            },
        },
{
    let alternatives = compiled_ones(constraints, rules);
    let places = lemma_places(constraints, rules);
    if constraints.len() > 0 {
        if alternatives.len() > 0 {
            assert(places.contains(places[0]));
            assert(compiles(constraints[places[0]], rules));
        }
        if all_empty(alternatives) {
            assert forall|i: int|
                0 <= i < constraints.len() && compiles(#[trigger] constraints[i], rules)
                implies constraints[i].len() == 0 by {
                let k = choose|k: int| 0 <= k < places.len() && places[k] == i;
                assert(alternatives[k].len() == 0);
            }
        } else {
            let k = choose|k: int|
                0 <= k < alternatives.len() && (#[trigger] alternatives[k]).len() != 0;
            assert(places.contains(places[k]));
            assert(compiles(constraints[places[k]], rules));
            assert(constraints[places[k]].len() != 0);
        }
    }
}

proof fn lemma_all_reasons(constraints: Seq<ConstraintView>, rules: CompileRules)
    requires
        forall|i: int| 0 <= i < constraints.len() ==> !compiles(#[trigger] constraints[i], rules),
    ensures
        compiled_ones(constraints, rules).len() == 0,
        failure_reasons(constraints, rules).len() == constraints.len(),
    decreases constraints.len(),
{
    if constraints.len() > 0 {
        let front = constraints.drop_last();
        assert forall|i: int| 0 <= i < front.len() implies !compiles(
            #[trigger] front[i],
            rules,
        ) by {
            assert(front[i] == constraints[i]);
        }
        lemma_all_reasons(front, rules);
        assert(constraints.last() == constraints[constraints.len() - 1]);
        law_constraints_keep_their_meaning(constraints.last(), rules);
    }
}

/// When a single constraint fails, its reason is reported as it is. When the constraints of
/// two lists all fail, the reasons of the first are reported, and then, behind a semicolon
/// and a space, those of the second.
pub proof fn law_all_reasons_are_reported(
    first: Seq<ConstraintView>,
    second: Seq<ConstraintView>,
    single: ConstraintView,
    require_constraints: bool,
    rules: CompileRules,
)
    requires
        first.len() > 0,
        second.len() > 0,
        forall|i: int| 0 <= i < first.len() ==> !compiles(#[trigger] first[i], rules),
        forall|i: int| 0 <= i < second.len() ==> !compiles(#[trigger] second[i], rules),
        !compiles(single, rules),
    ensures
        compiled_scope(seq![single], require_constraints, rules) == Err::<AccessScopeView, _>(
            (ConstraintCompileErrorView::AllConstraintsFailed {
                reason: compiled_constraint(single, rules)->Err_0,
            }),
        ),
        ({
            let one = compiled_scope(first, require_constraints, rules);
            let other = compiled_scope(second, require_constraints, rules);
            let both = compiled_scope(first + second, require_constraints, rules);
            &&& one is Err && one->Err_0 is AllConstraintsFailed
            &&& other is Err && other->Err_0 is AllConstraintsFailed
            &&& both is Err && both->Err_0 is AllConstraintsFailed
            &&& both->Err_0->reason == one->Err_0->reason + "; "@ + other->Err_0->reason
        }),
{
    lemma_all_reasons(first, rules);
    lemma_all_reasons(second, rules);
    law_constraints_compile_in_order(first, second, rules);
    law_joined_texts_concatenate(
        failure_reasons(first, rules),
        failure_reasons(second, rules),
        "; "@,
    );
    law_constraints_keep_their_meaning(single, rules);
    let alone = seq![single];
    assert(alone.drop_last() =~= Seq::empty());
    assert(alone.last() == single);
    assert(failure_reasons(alone.drop_last(), rules) == Seq::<Seq<char>>::empty());
    assert(compiled_ones(alone.drop_last(), rules) == Seq::<ScopeConstraintView>::empty());
    assert(failure_reasons(alone, rules)[0] == compiled_constraint(single, rules)->Err_0);
}

// ---------------------------------------------------------------------------
// Arguments and results
// ---------------------------------------------------------------------------

/// What compilation goes by is what its functions are given: the supported properties one
/// for one, the member-handle type, and the negotiated capabilities one for one.
pub proof fn law_rules_are_the_arguments(
    supported_properties: &[&str],
    group_membership_type: Option<&str>,
    negotiated_capabilities: Option<&[Capability]>,
)
    ensures
        ({
            let rules = compile_rules(
                supported_properties,
                group_membership_type,
                negotiated_capabilities,
            );
            &&& rules.supported.len() == supported_properties@.len()
            &&& forall|i: int|
                0 <= i < supported_properties@.len() ==> #[trigger] rules.supported[i]
                    == supported_properties@[i]@
            &&& rules.membership_type is Some <==> group_membership_type is Some
            &&& group_membership_type matches Some(name) ==> rules.membership_type == Some(name@)
            &&& rules.negotiated is Some <==> negotiated_capabilities is Some
            &&& negotiated_capabilities matches Some(given) ==> rules.negotiated == Some(given@)
        }),
{
    if negotiated_capabilities is Some {
        let given = negotiated_capabilities.unwrap();
        assert(given.deep_view() =~= given@);
    }
}

/// A result is told apart by its outcome: a success from a failure, and each by what it
/// holds.
pub proof fn law_outcomes_are_the_results<T: DeepView>(
    result: Result<T, String>,
    scope: Result<AccessScope, ConstraintCompileError>,
)
    ensures
        result matches Ok(value) ==> outcome(result) == Ok::<_, Seq<char>>(value.deep_view()),
        result matches Err(reason) ==> outcome(result) == Err::<T::V, _>(reason@),
        scope matches Ok(value) ==> scope_outcome(scope) == Ok::<_, ConstraintCompileErrorView>(
            value.deep_view(),
        ),
        scope matches Err(ConstraintCompileError::ConstraintsRequiredButAbsent) ==> scope_outcome(
            scope,
        ) == Err::<AccessScopeView, _>(ConstraintCompileErrorView::ConstraintsRequiredButAbsent),
        scope matches Err(ConstraintCompileError::AllConstraintsFailed { reason })
            ==> scope_outcome(scope) == Err::<AccessScopeView, _>(
            (ConstraintCompileErrorView::AllConstraintsFailed { reason: reason@ }),
        ),
{
}

/// The message of a compile error: a fixed text, followed by the reason where there is one.
pub proof fn law_compile_errors_tell_the_reason(reason: Seq<char>)
    ensures
        ConstraintCompileErrorView::ConstraintsRequiredButAbsent.message()
            == "constraints required but PDP returned none (fail-closed)"@,
        (ConstraintCompileErrorView::AllConstraintsFailed { reason }).message()
            == "all constraints failed compilation (fail-closed): "@ + reason,
{
}

} // verus!
