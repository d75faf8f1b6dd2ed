//! The constraint compiler.
//!
//! Compiles the answer of a policy decision point (PDP) into an [`AccessScope`].
//!
//! ## Compilation matrix (for a permitting decision)
//!
//! | `require_constraints` | constraints | result |
//! |-----------------------|-------------|--------|
//! | false                 | empty       | every row |
//! | false                 | present     | the compiled constraints |
//! | true                  | empty       | `ConstraintsRequiredButAbsent` |
//! | true                  | present     | the compiled constraints |
//!
//! A constraint with anything unknown or unsupported in it fails as a whole, and
//! drops out of the alternatives. When every constraint fails, compilation fails.
//!
//! ## Empty value lists
//!
//! A set-membership predicate (`In`, `InGroup`, `InGroupSubtree`) with an empty list
//! fails its constraint: an empty list means "match nothing", and some SQL engines do
//! not even accept it. `InTenantSubtree` has a single root, which has to be a UUID;
//! its `descendant_status` list may be empty, which disables that filter.

use crate::constraints::{
    Constraint, ConstraintView, EqPredicate, InPredicate, InTenantSubtreePredicate, Predicate,
    PredicateView,
};
use crate::ids::{parsed_uuid, Uuid};
use crate::json::{JsonNumber, JsonNumberView, JsonValue, JsonValueView};
use crate::models::{BarrierMode, Capability, EvaluationResponse, TenantStatus};
use crate::scope::{
    AccessScope, AccessScopeView, ScopeConstraint, ScopeConstraintView, ScopeFilter,
    ScopeFilterView, ScopeValue, ScopeValueView, OWNER_TENANT_ID, RESOURCE_ID,
};
use crate::text::{contains_text, debug_quote, debug_quoted, join, joined, same_text};
use vstd::prelude::*;
use vstd::string::*;

verus! {

/// Why compilation failed.
#[derive(Clone, Debug, PartialEq, Eq)]
pub enum ConstraintCompileError {
    /// Constraints were required but the PDP returned none. The enforcement point
    /// asked for row-level constraints, so this is a denial.
    ConstraintsRequiredButAbsent,
    /// Every constraint failed.
    AllConstraintsFailed { reason: String },
}

/// What a [`ConstraintCompileError`] stands for.
pub enum ConstraintCompileErrorView {
    ConstraintsRequiredButAbsent,
    AllConstraintsFailed { reason: Seq<char> },
}

impl DeepView for ConstraintCompileError {
    type V = ConstraintCompileErrorView;

    open spec fn deep_view(&self) -> ConstraintCompileErrorView {
        match self {
            ConstraintCompileError::ConstraintsRequiredButAbsent => {
                ConstraintCompileErrorView::ConstraintsRequiredButAbsent
            },
            ConstraintCompileError::AllConstraintsFailed { reason } => {
                ConstraintCompileErrorView::AllConstraintsFailed { reason: reason@ }
            },
        }
    }
}

impl ConstraintCompileErrorView {
    /// The message for people.
    pub open spec fn message(self) -> Seq<char> {
        match self {
            ConstraintCompileErrorView::ConstraintsRequiredButAbsent => {
                "constraints required but PDP returned none (fail-closed)"@
            },
            ConstraintCompileErrorView::AllConstraintsFailed { reason } => {
                "all constraints failed compilation (fail-closed): "@ + reason
            },
        }
    }
}

impl ConstraintCompileError {
    /// The message for people.
    pub fn to_string(&self) -> (message: String)
        ensures
            message@ == self.deep_view().message(),
    {
        match self {
            ConstraintCompileError::ConstraintsRequiredButAbsent => {
                "constraints required but PDP returned none (fail-closed)".to_owned()
            },
            ConstraintCompileError::AllConstraintsFailed { reason } => {
                let mut message = "all constraints failed compilation (fail-closed): ".to_owned();
                message.append(reason.as_str());
                message
            },
        }
    }
}

/// What a result with a reason of failure stands for.
pub open spec fn outcome<T: DeepView>(result: Result<T, String>) -> Result<T::V, Seq<char>> {
    match result {
        Ok(value) => Ok(value.deep_view()),
        Err(reason) => Err(reason@),
    }
}

/// What a compilation result stands for.
pub open spec fn scope_outcome(
    result: Result<AccessScope, ConstraintCompileError>,
) -> Result<AccessScopeView, ConstraintCompileErrorView> {
    match result {
        Ok(scope) => Ok(scope.deep_view()),
        Err(error) => Err(error.deep_view()),
    }
}

/// The results of `step` on each item in order, or the reason of the first item on
/// which `step` fails.
pub open spec fn all_or_first_failure<A, B>(
    items: Seq<A>,
    step: spec_fn(A) -> Result<B, Seq<char>>,
) -> Result<Seq<B>, Seq<char>>
    decreases items.len(),
{
    if items.len() == 0 {
        Ok(Seq::empty())
    } else {
        match all_or_first_failure(items.drop_last(), step) {
            Err(reason) => Err(reason),
            Ok(done) => match step(items.last()) {
                Err(reason) => Err(reason),
                Ok(next) => Ok(done.push(next)),
            },
        }
    }
}

/// Taking one more item.
proof fn lemma_step<A, B>(items: Seq<A>, step: spec_fn(A) -> Result<B, Seq<char>>, i: int)
    requires
        0 <= i < items.len(),
    ensures
        all_or_first_failure(items.take(i + 1), step) == (match all_or_first_failure(
            items.take(i),
            step,
        ) {
            Err(reason) => Err(reason),
            Ok(done) => match step(items[i]) {
                Err(reason) => Err(reason),
                Ok(next) => Ok(done.push(next)),
            },
        }),
{
    assert(items.take(i + 1).drop_last() =~= items.take(i));
}

/// A failure within a prefix is the failure of the whole.
proof fn lemma_failure_stays<A, B>(items: Seq<A>, step: spec_fn(A) -> Result<B, Seq<char>>, n: int)
    requires
        0 <= n <= items.len(),
        all_or_first_failure(items.take(n), step) is Err,
    ensures
        all_or_first_failure(items, step) == all_or_first_failure(items.take(n), step),
    decreases items.len(),
{
    if n == items.len() {
        assert(items.take(n) =~= items);
    } else {
        assert(items.drop_last().take(n) =~= items.take(n));
        lemma_failure_stays(items.drop_last(), step, n);
    }
}

/// Success means that `step` succeeds on each item, with the results in place.
pub proof fn lemma_all_succeed<A, B>(items: Seq<A>, step: spec_fn(A) -> Result<B, Seq<char>>)
    ensures
        all_or_first_failure(items, step) is Ok <==> (forall|i: int|
            0 <= i < items.len() ==> step(#[trigger] items[i]) is Ok),
        all_or_first_failure(items, step) matches Ok(done) ==> done.len() == items.len() && (
        forall|i: int|
            0 <= i < items.len() ==> step(items[i]) == Ok::<B, Seq<char>>(#[trigger] done[i])),
    decreases items.len(),
{
    if items.len() > 0 {
        let front = items.drop_last();
        lemma_all_succeed(front, step);
        assert(forall|i: int| 0 <= i < front.len() ==> front[i] == items[i]);
        if all_or_first_failure(front, step) is Err {
            let i = choose|i: int| 0 <= i < front.len() && step(#[trigger] front[i]) is Err;
            assert(step(items[i]) is Err);
        } else {
            assert(forall|i: int| 0 <= i < items.len() - 1 ==> step(front[i]) is Ok);
            assert(items.last() == items[items.len() - 1]);
        }
    }
}

// ---------------------------------------------------------------------------
// Values
// ---------------------------------------------------------------------------

/// The UUID that a JSON value carries for `field`.
pub open spec fn uuid_scope_value(value: JsonValueView, field: Seq<char>) -> Result<
    ScopeValueView,
    Seq<char>,
> {
    match value {
        JsonValueView::String(text) => match parsed_uuid(text) {
            Some(id) => Ok(ScopeValueView::Uuid(id)),
            None => Err(
                field + " must contain UUID strings, got: "@ + debug_quoted(text)
                    + " (fail-closed)"@,
            ),
        },
        JsonValueView::Number(_) => Err(
            field + " must contain UUID strings, got number (fail-closed)"@,
        ),
        JsonValueView::Bool(_) => Err(
            field + " must contain UUID strings, got bool (fail-closed)"@,
        ),
        JsonValueView::Other { text } => Err(
            field + " must contain UUID strings, got: "@ + text + " (fail-closed)"@,
        ),
    }
}

/// The value that a JSON value carries for a property of any type.
pub open spec fn scope_value(value: JsonValueView) -> Result<ScopeValueView, Seq<char>> {
    match value {
        JsonValueView::String(text) => match parsed_uuid(text) {
            Some(id) => Ok(ScopeValueView::Uuid(id)),
            None => Ok(ScopeValueView::String(text)),
        },
        JsonValueView::Number(JsonNumberView::Int(number)) => Ok(ScopeValueView::Int(number)),
        JsonValueView::Number(JsonNumberView::Other { text }) => Err(
            "only integer JSON numbers are supported for scope filters, got: "@ + text,
        ),
        JsonValueView::Bool(flag) => Ok(ScopeValueView::Bool(flag)),
        JsonValueView::Other { text } => Err(
            "unsupported JSON value type for scope filter: "@ + text,
        ),
    }
}

/// The step that reads each value as a UUID for `field`.
pub open spec fn uuid_step(field: Seq<char>) -> spec_fn(JsonValueView) -> Result<
    ScopeValueView,
    Seq<char>,
> {
    |value: JsonValueView| uuid_scope_value(value, field)
}

/// The step that reads each value for a property of any type.
pub open spec fn value_step() -> spec_fn(JsonValueView) -> Result<ScopeValueView, Seq<char>> {
    |value: JsonValueView| scope_value(value)
}

/// Reads a JSON value as a UUID. Anything but a UUID string is rejected.
pub fn json_to_uuid_scope_value(value: &JsonValue, field: &str) -> (result: Result<
    ScopeValue,
    String,
>)
    ensures
        outcome(result) == uuid_scope_value(value.deep_view(), field@),
{
    let mut reason = field.to_owned();
    match value {
        JsonValue::String(text) => match Uuid::parse_str(text.as_str()) {
            Some(id) => Ok(ScopeValue::Uuid(id)),
            None => {
                reason.append(" must contain UUID strings, got: ");
                reason.append(debug_quote(text.as_str()).as_str());
                reason.append(" (fail-closed)");
                Err(reason)
            },
        },
        JsonValue::Number(_) => {
            reason.append(" must contain UUID strings, got number (fail-closed)");
            Err(reason)
        },
        JsonValue::Bool(_) => {
            reason.append(" must contain UUID strings, got bool (fail-closed)");
            Err(reason)
        },
        JsonValue::Other { text } => {
            reason.append(" must contain UUID strings, got: ");
            reason.append(text.as_str());
            reason.append(" (fail-closed)");
            Err(reason)
        },
    }
}

/// Reads a JSON value. UUID strings become UUIDs, other strings stay strings.
pub fn json_to_scope_value(value: &JsonValue) -> (result: Result<ScopeValue, String>)
    ensures
        outcome(result) == scope_value(value.deep_view()),
{
    match value {
        JsonValue::String(text) => match Uuid::parse_str(text.as_str()) {
            Some(id) => Ok(ScopeValue::Uuid(id)),
            None => Ok(ScopeValue::String(text.clone())),
        },
        JsonValue::Number(JsonNumber::Int(number)) => Ok(ScopeValue::Int(*number)),
        JsonValue::Number(JsonNumber::Other { text }) => {
            let mut reason =
                "only integer JSON numbers are supported for scope filters, got: ".to_owned();
            reason.append(text.as_str());
            Err(reason)
        },
        JsonValue::Bool(flag) => Ok(ScopeValue::Bool(*flag)),
        JsonValue::Other { text } => {
            let mut reason = "unsupported JSON value type for scope filter: ".to_owned();
            reason.append(text.as_str());
            Err(reason)
        },
    }
}

/// Reads a list of JSON values as UUIDs. Other scalars would fail against UUID columns.
pub fn json_values_to_uuid_scope_values(values: &[JsonValue], field: &str) -> (result: Result<
    Vec<ScopeValue>,
    String,
>)
    ensures
        outcome(result) == all_or_first_failure(values.deep_view(), uuid_step(field@)),
{
    let mut read: Vec<ScopeValue> = Vec::new();
    let ghost views = values.deep_view();
    let ghost step = uuid_step(field@);
    proof {
        assert(read.deep_view() =~= Seq::empty());
    }
    for i in 0..values.len()
        invariant
            views == values.deep_view(),
            step == uuid_step(field@),
            all_or_first_failure(views.take(i as int), step) == Ok::<_, Seq<char>>(
                read.deep_view(),
            ),
    {
        proof {
            lemma_step(views, step, i as int);
        }
        match json_to_uuid_scope_value(&values[i], field) {
            Ok(value) => {
                let ghost before = read.deep_view();
                read.push(value);
                proof {
                    assert(read.deep_view() =~= before.push(value.deep_view()));
                }
            },
            Err(reason) => {
                proof {
                    lemma_failure_stays(views, step, i + 1);
                }
                return Err(reason);
            },
        }
    }
    proof {
        assert(views.take(values.len() as int) =~= views);
    }
    Ok(read)
}

/// Reads a list of JSON values.
pub fn json_values_to_scope_values(values: &[JsonValue]) -> (result: Result<
    Vec<ScopeValue>,
    String,
>)
    ensures
        outcome(result) == all_or_first_failure(values.deep_view(), value_step()),
{
    let mut read: Vec<ScopeValue> = Vec::new();
    let ghost views = values.deep_view();
    let ghost step = value_step();
    proof {
        assert(read.deep_view() =~= Seq::empty());
    }
    for i in 0..values.len()
        invariant
            views == values.deep_view(),
            step == value_step(),
            all_or_first_failure(views.take(i as int), step) == Ok::<_, Seq<char>>(
                read.deep_view(),
            ),
    {
        proof {
            lemma_step(views, step, i as int);
        }
        match json_to_scope_value(&values[i]) {
            Ok(value) => {
                let ghost before = read.deep_view();
                read.push(value);
                proof {
                    assert(read.deep_view() =~= before.push(value.deep_view()));
                }
            },
            Err(reason) => {
                proof {
                    lemma_failure_stays(views, step, i + 1);
                }
                return Err(reason);
            },
        }
    }
    proof {
        assert(views.take(values.len() as int) =~= views);
    }
    Ok(read)
}

// ---------------------------------------------------------------------------
// Checks on native predicates
// ---------------------------------------------------------------------------

/// Whether some predicate goes by group membership.
pub open spec fn has_group(constraint: ConstraintView) -> bool {
    exists|i: int| 0 <= i < constraint.len() && (#[trigger] constraint[i]).is_group()
}

/// Whether some predicate confines resources to tenants.
pub open spec fn has_tenant_scope(constraint: ConstraintView) -> bool {
    exists|i: int| 0 <= i < constraint.len() && (#[trigger] constraint[i]).is_tenant()
}

/// The complaint about a group predicate on another property than the resource id.
pub open spec fn property_complaint(predicate: Seq<char>, property: Seq<char>) -> Option<
    Seq<char>,
> {
    if property == RESOURCE_ID@ {
        None
    } else {
        Some(
            predicate + " predicate must target '"@ + RESOURCE_ID@
                + "' until per-property membership types are supported, got '"@ + property
                + "' (fail-closed)"@,
        )
    }
}

/// The name of a capability on the wire.
pub open spec fn capability_name(capability: Capability) -> Seq<char> {
    match capability {
        Capability::TenantHierarchy => "tenant_hierarchy"@,
        Capability::GroupMembership => "group_membership"@,
        Capability::GroupHierarchy => "group_hierarchy"@,
    }
}

/// The names of the required capabilities that were not negotiated, in order.
pub open spec fn missing_names(required: Seq<Capability>, negotiated: Seq<Capability>) -> Seq<
    Seq<char>,
>
    decreases required.len(),
{
    if required.len() == 0 {
        Seq::empty()
    } else {
        let front = missing_names(required.drop_last(), negotiated);
        if negotiated.contains(required.last()) {
            front
        } else {
            front.push(capability_name(required.last()))
        }
    }
}

/// The complaint about a predicate that needs capabilities that were not negotiated.
/// Without a list of negotiated capabilities there is none.
pub open spec fn capability_complaint(
    negotiated: Option<Seq<Capability>>,
    required: Seq<Capability>,
    predicate: Seq<char>,
) -> Option<Seq<char>> {
    match negotiated {
        None => None,
        Some(negotiated) => {
            let missing = missing_names(required, negotiated);
            if missing.len() == 0 {
                None
            } else {
                Some(
                    predicate + " predicate requires unadvertised capabilities: "@
                        + joined(missing, ", "@) + " (fail-closed)"@,
                )
            }
        },
    }
}

/// The member-handle type that a group predicate needs: one that is configured and
/// not empty.
pub open spec fn required_membership_type(
    configured: Option<Seq<char>>,
    predicate: Seq<char>,
    property: Seq<char>,
) -> Result<Seq<char>, Seq<char>> {
    match configured {
        Some(membership_type) if membership_type.len() > 0 => Ok(membership_type),
        _ => Err(
            predicate + " predicate on '"@ + property
                + "' requires a configured RG membership resource type (fail-closed)"@,
        ),
    }
}

/// Whether the constraint has a predicate that goes by group membership.
pub fn has_group_predicate(constraint: &Constraint) -> (found: bool)
    ensures
        found == has_group(constraint.deep_view()),
{
    let ghost views = constraint.deep_view();
    for i in 0..constraint.predicates.len()
        invariant
            views == constraint.deep_view(),
            forall|j: int| 0 <= j < i ==> !(#[trigger] views[j]).is_group(),
    {
        let group = match &constraint.predicates[i] {
            Predicate::InGroup(_) => true,
            Predicate::InGroupSubtree(_) => true,
            _ => false,
        };
        proof {
            assert(views[i as int] == constraint.predicates[i as int].deep_view());
            assert(group == views[i as int].is_group());
        }
        if group {
            return true;
        }
    }
    false
}

/// Whether a constraint carries the mandatory tenant scope among its own predicates.
pub fn has_tenant_scope_predicate(constraint: &Constraint) -> (found: bool)
    ensures
        found == has_tenant_scope(constraint.deep_view()),
{
    let ghost views = constraint.deep_view();
    for i in 0..constraint.predicates.len()
        invariant
            views == constraint.deep_view(),
            forall|j: int| 0 <= j < i ==> !(#[trigger] views[j]).is_tenant(),
    {
        let tenant = match &constraint.predicates[i] {
            Predicate::Eq(p) => same_text(p.property.as_str(), OWNER_TENANT_ID),
            Predicate::In(p) => same_text(p.property.as_str(), OWNER_TENANT_ID),
            Predicate::InTenantSubtree(p) => same_text(p.property.as_str(), OWNER_TENANT_ID),
            Predicate::InGroup(_) => false,
            Predicate::InGroupSubtree(_) => false,
        };
        proof {
            assert(views[i as int] == constraint.predicates[i as int].deep_view());
            assert(tenant == views[i as int].is_tenant());
        }
        if tenant {
            return true;
        }
    }
    false
}

/// Group membership describes the resource itself. Applying one membership type to
/// another property could select unrelated rows when identifiers collide.
pub fn require_resource_id_group_property(predicate: &str, property: &str) -> (result: Result<
    (),
    String,
>)
    ensures
        match result {
            Ok(_) => property_complaint(predicate@, property@) is None,
            Err(reason) => property_complaint(predicate@, property@) == Some(reason@),
        },
{
    if same_text(property, RESOURCE_ID) {
        Ok(())
    } else {
        let mut reason = predicate.to_owned();
        reason.append(" predicate must target '");
        reason.append(RESOURCE_ID);
        reason.append("' until per-property membership types are supported, got '");
        reason.append(property);
        reason.append("' (fail-closed)");
        Err(reason)
    }
}

/// The name of a capability on the wire.
fn capability_label(capability: Capability) -> (label: &'static str)
    ensures
        label@ == capability_name(capability),
{
    match capability {
        Capability::TenantHierarchy => "tenant_hierarchy",
        Capability::GroupMembership => "group_membership",
        Capability::GroupHierarchy => "group_hierarchy",
    }
}

/// Whether `capability` is one of `negotiated`.
fn is_negotiated(negotiated: &[Capability], capability: Capability) -> (found: bool)
    ensures
        found == negotiated.deep_view().contains(capability),
{
    for i in 0..negotiated.len()
        invariant
            forall|j: int| 0 <= j < i ==> negotiated@[j] != capability,
    {
        if negotiated[i] == capability {
            proof {
                assert(negotiated.deep_view()[i as int] == capability);
            }
            return true;
        }
    }
    false
}

/// Requires every capability that a predicate needs, when the enforcement point
/// supplies the capabilities that it negotiated.
pub fn require_negotiated_capabilities(
    negotiated_capabilities: Option<&[Capability]>,
    required: &[Capability],
    predicate: &str,
) -> (result: Result<(), String>)
    ensures
        match result {
            Ok(_) => capability_complaint(
                negotiated_capabilities.deep_view(),
                required.deep_view(),
                predicate@,
            ) is None,
            Err(reason) => capability_complaint(
                negotiated_capabilities.deep_view(),
                required.deep_view(),
                predicate@,
            ) == Some(reason@),
        },
{
    let negotiated = match negotiated_capabilities {
        Some(negotiated) => negotiated,
        None => {
            return Ok(());
        },
    };
    let mut missing: Vec<String> = Vec::new();
    let ghost views = required.deep_view();
    proof {
        assert(missing.deep_view() =~= Seq::empty());
    }
    for i in 0..required.len()
        invariant
            views == required.deep_view(),
            missing.deep_view() == missing_names(views.take(i as int), negotiated.deep_view()),
    {
        let ghost before = missing.deep_view();
        proof {
            assert(views.take(i + 1).drop_last() =~= views.take(i as int));
            assert(views.take(i + 1).last() == required@[i as int]);
        }
        if !is_negotiated(negotiated, required[i]) {
            let label = capability_label(required[i]).to_owned();
            missing.push(label);
            proof {
                assert(missing.deep_view() =~= before.push(label@));
            }
        }
    }
    proof {
        assert(views.take(required.len() as int) =~= views);
    }
    if missing.len() == 0 {
        Ok(())
    } else {
        let mut reason = predicate.to_owned();
        reason.append(" predicate requires unadvertised capabilities: ");
        reason.append(join(&missing, ", ").as_str());
        reason.append(" (fail-closed)");
        Err(reason)
    }
}

/// The configured member-handle type, or the reason why the predicate cannot do
/// without one.
pub fn required_group_membership_type<'a>(
    group_membership_type: Option<&'a str>,
    predicate: &str,
    property: &str,
) -> (result: Result<&'a str, String>)
    ensures
        outcome(result) == required_membership_type(
            group_membership_type.deep_view(),
            predicate@,
            property@,
        ),
{
    if let Some(membership_type) = group_membership_type {
        if !membership_type.is_empty() {
            return Ok(membership_type);
        }
    }
    let mut reason = predicate.to_owned();
    reason.append(" predicate on '");
    reason.append(property);
    reason.append("' requires a configured RG membership resource type (fail-closed)");
    Err(reason)
}

// ---------------------------------------------------------------------------
// Predicates
// ---------------------------------------------------------------------------

/// What compilation goes by besides the constraints.
pub struct CompileRules {
    /// The properties that the resource supports.
    pub supported: Seq<Seq<char>>,
    /// The member-handle type of the resource, if one is configured.
    pub membership_type: Option<Seq<char>>,
    /// The capabilities negotiated with the PDP, if the caller enforces them.
    pub negotiated: Option<Seq<Capability>>,
}

/// What an equality compiles to. The owner tenant has to be a UUID.
pub open spec fn compiled_eq(property: Seq<char>, value: JsonValueView) -> Result<
    ScopeFilterView,
    Seq<char>,
> {
    let read = if property == OWNER_TENANT_ID@ {
        uuid_scope_value(value, OWNER_TENANT_ID@)
    } else {
        scope_value(value)
    };
    match read {
        Err(reason) => Err(reason),
        Ok(value) => Ok(ScopeFilterView::Eq { property, value }),
    }
}

/// What a set membership compiles to. Owner tenants have to be UUIDs.
pub open spec fn compiled_in(property: Seq<char>, values: Seq<JsonValueView>) -> Result<
    ScopeFilterView,
    Seq<char>,
> {
    let read = if property == OWNER_TENANT_ID@ {
        all_or_first_failure(values, uuid_step(OWNER_TENANT_ID@))
    } else {
        all_or_first_failure(values, value_step())
    };
    match read {
        Err(reason) => Err(reason),
        Ok(values) => if values.len() == 0 {
            Err("In predicate on '"@ + property + "' has empty value list (fail-closed)"@)
        } else {
            Ok(ScopeFilterView::In { property, values })
        },
    }
}

/// The membership type and the group keys of a group predicate, or what is wrong
/// with it, in the order in which it is checked.
pub open spec fn group_parts(
    predicate: Seq<char>,
    property: Seq<char>,
    required: Seq<Capability>,
    ids: Seq<JsonValueView>,
    field: Seq<char>,
    configured_type: Option<Seq<char>>,
    negotiated: Option<Seq<Capability>>,
) -> Result<(Seq<char>, Seq<ScopeValueView>), Seq<char>> {
    if property_complaint(predicate, property) is Some {
        Err(property_complaint(predicate, property).unwrap())
    } else if capability_complaint(negotiated, required, predicate) is Some {
        Err(capability_complaint(negotiated, required, predicate).unwrap())
    } else {
        match all_or_first_failure(ids, uuid_step(field)) {
            Err(reason) => Err(reason),
            Ok(ids) => if ids.len() == 0 {
                Err(
                    predicate + " predicate on '"@ + property + "' has empty "@ + field
                        + " (fail-closed)"@,
                )
            } else {
                match required_membership_type(configured_type, predicate, property) {
                    Err(reason) => Err(reason),
                    Ok(membership_type) => Ok((membership_type, ids)),
                }
            },
        }
    }
}

/// The capabilities that `InGroup` needs.
pub open spec fn group_capabilities() -> Seq<Capability> {
    seq![Capability::GroupMembership]
}

/// The capabilities that `InGroupSubtree` needs.
pub open spec fn group_subtree_capabilities() -> Seq<Capability> {
    seq![Capability::GroupMembership, Capability::GroupHierarchy]
}

/// The capabilities that `InTenantSubtree` needs.
pub open spec fn tenant_subtree_capabilities() -> Seq<Capability> {
    seq![Capability::TenantHierarchy]
}

/// What a tenant subtree compiles to.
pub open spec fn compiled_tenant_subtree(
    property: Seq<char>,
    root_tenant_id: JsonValueView,
    barrier_mode: BarrierMode,
    descendant_status: Seq<TenantStatus>,
    negotiated: Option<Seq<Capability>>,
) -> Result<ScopeFilterView, Seq<char>> {
    let complaint = capability_complaint(
        negotiated,
        tenant_subtree_capabilities(),
        "InTenantSubtree"@,
    );
    if complaint is Some {
        Err(complaint.unwrap())
    } else {
        match uuid_scope_value(root_tenant_id, "root_tenant_id"@) {
            Err(reason) => Err(
                "InTenantSubtree predicate on '"@ + property
                    + "' has invalid root_tenant_id: "@ + reason,
            ),
            Ok(root_tenant_id) => Ok(
                ScopeFilterView::InTenantSubtree {
                    property,
                    root_tenant_id,
                    respect_barriers: barrier_mode is Respect,
                    descendant_status: status_values(descendant_status),
                },
            ),
        }
    }
}

/// The numbers under which tables keep the given tenant states.
pub open spec fn status_values(statuses: Seq<TenantStatus>) -> Seq<ScopeValueView> {
    statuses.map_values(|status: TenantStatus| ScopeValueView::Int(status.smallint() as i64))
}

/// The filter that a predicate compiles to, or why it does not.
pub open spec fn compiled_predicate(
    predicate: PredicateView,
    configured_type: Option<Seq<char>>,
    negotiated: Option<Seq<Capability>>,
) -> Result<ScopeFilterView, Seq<char>> {
    match predicate {
        PredicateView::Eq { property, value } => compiled_eq(property, value),
        PredicateView::In { property, values } => compiled_in(property, values),
        PredicateView::InGroup { property, group_ids } => match group_parts(
            "InGroup"@,
            property,
            group_capabilities(),
            group_ids,
            "group_ids"@,
            configured_type,
            negotiated,
        ) {
            Err(reason) => Err(reason),
            Ok((membership_type, group_ids)) => Ok(
                ScopeFilterView::InGroup { property, membership_type, group_ids },
            ),
        },
        PredicateView::InGroupSubtree { property, ancestor_ids } => match group_parts(
            "InGroupSubtree"@,
            property,
            group_subtree_capabilities(),
            ancestor_ids,
            "ancestor_ids"@,
            configured_type,
            negotiated,
        ) {
            Err(reason) => Err(reason),
            Ok((membership_type, ancestor_ids)) => Ok(
                ScopeFilterView::InGroupSubtree { property, membership_type, ancestor_ids },
            ),
        },
        PredicateView::InTenantSubtree {
            property,
            root_tenant_id,
            barrier_mode,
            descendant_status,
        } => compiled_tenant_subtree(
            property,
            root_tenant_id,
            barrier_mode,
            descendant_status,
            negotiated,
        ),
    }
}

/// The filter that a predicate on a supported property compiles to.
pub open spec fn admitted_predicate(predicate: PredicateView, rules: CompileRules) -> Result<
    ScopeFilterView,
    Seq<char>,
> {
    match compiled_predicate(predicate, rules.membership_type, rules.negotiated) {
        Err(reason) => Err(reason),
        Ok(filter) => if rules.supported.contains(predicate.property()) {
            Ok(filter)
        } else {
            Err("unsupported property: "@ + predicate.property())
        },
    }
}

/// The step that compiles each predicate.
pub open spec fn predicate_step(rules: CompileRules) -> spec_fn(PredicateView) -> Result<
    ScopeFilterView,
    Seq<char>,
> {
    |predicate: PredicateView| admitted_predicate(predicate, rules)
}

/// The filters that a constraint compiles to, one for each predicate in order, or
/// why it does not compile.
pub open spec fn compiled_constraint(constraint: ConstraintView, rules: CompileRules) -> Result<
    ScopeConstraintView,
    Seq<char>,
> {
    if has_group(constraint) && !has_tenant_scope(constraint) {
        Err(
            "native group predicates require an owner_tenant_id predicate in the same constraint (fail-closed)"@,
        )
    } else {
        all_or_first_failure(constraint, predicate_step(rules))
    }
}

fn compile_eq(predicate: &EqPredicate) -> (result: Result<ScopeFilter, String>)
    ensures
        outcome(result) == compiled_eq(predicate.property@, predicate.value.deep_view()),
{
    let value = if same_text(predicate.property.as_str(), OWNER_TENANT_ID) {
        json_to_uuid_scope_value(&predicate.value, OWNER_TENANT_ID)?
    } else {
        json_to_scope_value(&predicate.value)?
    };
    Ok(ScopeFilter::Eq { property: predicate.property.clone(), value })
}

fn compile_in(predicate: &InPredicate) -> (result: Result<ScopeFilter, String>)
    ensures
        outcome(result) == compiled_in(predicate.property@, predicate.values.deep_view()),
{
    let values = if same_text(predicate.property.as_str(), OWNER_TENANT_ID) {
        json_values_to_uuid_scope_values(predicate.values.as_slice(), OWNER_TENANT_ID)?
    } else {
        json_values_to_scope_values(predicate.values.as_slice())?
    };
    if values.len() == 0 {
        let mut reason = "In predicate on '".to_owned();
        reason.append(predicate.property.as_str());
        reason.append("' has empty value list (fail-closed)");
        return Err(reason);
    }
    Ok(ScopeFilter::In { property: predicate.property.clone(), values })
}

/// The membership type and the group keys of a group predicate.
fn read_group_parts(
    predicate: &str,
    property: &str,
    required: &[Capability],
    ids: &[JsonValue],
    field: &str,
    group_membership_type: Option<&str>,
    negotiated_capabilities: Option<&[Capability]>,
) -> (result: Result<(String, Vec<ScopeValue>), String>)
    ensures
        outcome(result) == group_parts(
            predicate@,
            property@,
            required.deep_view(),
            ids.deep_view(),
            field@,
            group_membership_type.deep_view(),
            negotiated_capabilities.deep_view(),
        ),
{
    require_resource_id_group_property(predicate, property)?;
    require_negotiated_capabilities(negotiated_capabilities, required, predicate)?;
    let group_ids = json_values_to_uuid_scope_values(ids, field)?;
    if group_ids.len() == 0 {
        let mut reason = predicate.to_owned();
        reason.append(" predicate on '");
        reason.append(property);
        reason.append("' has empty ");
        reason.append(field);
        reason.append(" (fail-closed)");
        return Err(reason);
    }
    let membership_type = required_group_membership_type(
        group_membership_type,
        predicate,
        property,
    )?;
    Ok((membership_type.to_owned(), group_ids))
}

/// The numbers under which tables keep the given tenant states.
fn status_numbers(statuses: &[TenantStatus]) -> (numbers: Vec<ScopeValue>)
    ensures
        numbers.deep_view() == status_values(statuses.deep_view()),
{
    let mut numbers: Vec<ScopeValue> = Vec::new();
    for i in 0..statuses.len()
        invariant
            numbers.len() == i,
            forall|j: int|
                0 <= j < i ==> (#[trigger] numbers@[j]).deep_view() == ScopeValueView::Int(
                    statuses@[j].smallint() as i64,
                ),
    {
        numbers.push(ScopeValue::Int(statuses[i].as_smallint() as i64));
    }
    proof {
        assert(numbers.deep_view() =~= status_values(statuses.deep_view()));
    }
    numbers
}

fn compile_tenant_subtree(
    predicate: &InTenantSubtreePredicate,
    negotiated_capabilities: Option<&[Capability]>,
) -> (result: Result<ScopeFilter, String>)
    ensures
        outcome(result) == compiled_tenant_subtree(
            predicate.property@,
            predicate.root_tenant_id.deep_view(),
            predicate.barrier_mode,
            predicate.descendant_status.deep_view(),
            negotiated_capabilities.deep_view(),
        ),
{
    let required: &[Capability] = &[Capability::TenantHierarchy];
    proof {
        assert(required.deep_view() =~= tenant_subtree_capabilities());
    }
    require_negotiated_capabilities(negotiated_capabilities, required, "InTenantSubtree")?;
    let root_tenant_id = match json_to_uuid_scope_value(
        &predicate.root_tenant_id,
        "root_tenant_id",
    ) {
        Ok(value) => value,
        Err(cause) => {
            let mut reason = "InTenantSubtree predicate on '".to_owned();
            reason.append(predicate.property.as_str());
            reason.append("' has invalid root_tenant_id: ");
            reason.append(cause.as_str());
            return Err(reason);
        },
    };
    let respect_barriers = match predicate.barrier_mode {
        BarrierMode::Respect => true,
        BarrierMode::Ignore => false,
    };
    let descendant_status = status_numbers(predicate.descendant_status.as_slice());
    Ok(
        ScopeFilter::InTenantSubtree {
            property: predicate.property.clone(),
            root_tenant_id,
            respect_barriers,
            descendant_status,
        },
    )
}

/// Compiles one predicate.
pub fn compile_predicate(
    predicate: &Predicate,
    group_membership_type: Option<&str>,
    negotiated_capabilities: Option<&[Capability]>,
) -> (result: Result<ScopeFilter, String>)
    ensures
        outcome(result) == compiled_predicate(
            predicate.deep_view(),
            group_membership_type.deep_view(),
            negotiated_capabilities.deep_view(),
        ),
{
    match predicate {
        Predicate::Eq(p) => compile_eq(p),
        Predicate::In(p) => compile_in(p),
        Predicate::InGroup(p) => {
            let required: &[Capability] = &[Capability::GroupMembership];
            proof {
                assert(required.deep_view() =~= group_capabilities());
            }
            let (membership_type, group_ids) = read_group_parts(
                "InGroup",
                p.property.as_str(),
                required,
                p.group_ids.as_slice(),
                "group_ids",
                group_membership_type,
                negotiated_capabilities,
            )?;
            Ok(ScopeFilter::InGroup { property: p.property.clone(), membership_type, group_ids })
        },
        Predicate::InGroupSubtree(p) => {
            let required: &[Capability] = &[
                Capability::GroupMembership,
                Capability::GroupHierarchy,
            ];
            proof {
                assert(required.deep_view() =~= group_subtree_capabilities());
            }
            let (membership_type, ancestor_ids) = read_group_parts(
                "InGroupSubtree",
                p.property.as_str(),
                required,
                p.ancestor_ids.as_slice(),
                "ancestor_ids",
                group_membership_type,
                negotiated_capabilities,
            )?;
            Ok(
                ScopeFilter::InGroupSubtree {
                    property: p.property.clone(),
                    membership_type,
                    ancestor_ids,
                },
            )
        },
        Predicate::InTenantSubtree(p) => compile_tenant_subtree(p, negotiated_capabilities),
    }
}

/// What compilation goes by, from the arguments of the functions below.
pub open spec fn compile_rules(
    supported_properties: &[&str],
    group_membership_type: Option<&str>,
    negotiated_capabilities: Option<&[Capability]>,
) -> CompileRules {
    CompileRules {
        supported: supported_properties.deep_view(),
        membership_type: group_membership_type.deep_view(),
        negotiated: negotiated_capabilities.deep_view(),
    }
}

/// Compiles one constraint: each predicate becomes a filter. If one of them fails,
/// or is on a property that is not supported, the whole constraint fails.
pub fn compile_constraint(
    constraint: &Constraint,
    supported_properties: &[&str],
    group_membership_type: Option<&str>,
    negotiated_capabilities: Option<&[Capability]>,
) -> (result: Result<ScopeConstraint, String>)
    ensures
        outcome(result) == compiled_constraint(
            constraint.deep_view(),
            compile_rules(supported_properties, group_membership_type, negotiated_capabilities),
        ),
{
    if has_group_predicate(constraint) && !has_tenant_scope_predicate(constraint) {
        return Err(
            "native group predicates require an owner_tenant_id predicate in the same constraint (fail-closed)".to_owned(),
        );
    }
    let mut filters: Vec<ScopeFilter> = Vec::new();
    let ghost rules = compile_rules(
        supported_properties,
        group_membership_type,
        negotiated_capabilities,
    );
    let ghost views = constraint.deep_view();
    let ghost step = predicate_step(rules);
    proof {
        assert(filters.deep_view() =~= Seq::empty());
    }
    for i in 0..constraint.predicates.len()
        invariant
            rules == compile_rules(
                supported_properties,
                group_membership_type,
                negotiated_capabilities,
            ),
            views == constraint.deep_view(),
            step == predicate_step(rules),
            !(has_group(views) && !has_tenant_scope(views)),
            all_or_first_failure(views.take(i as int), step) == Ok::<_, Seq<char>>(
                filters.deep_view(),
            ),
    {
        let predicate = &constraint.predicates[i];
        proof {
            lemma_step(views, step, i as int);
            assert(views[i as int] == predicate.deep_view());
            assert(step(views[i as int]) == admitted_predicate(predicate.deep_view(), rules));
        }
        match compile_predicate(predicate, group_membership_type, negotiated_capabilities) {
            Ok(filter) => {
                if !contains_text(supported_properties, predicate.property()) {
                    let mut reason = "unsupported property: ".to_owned();
                    reason.append(predicate.property());
                    proof {
                        lemma_failure_stays(views, step, i + 1);
                    }
                    return Err(reason);
                }
                let ghost before = filters.deep_view();
                filters.push(filter);
                proof {
                    assert(filters.deep_view() =~= before.push(filter.deep_view()));
                }
            },
            Err(reason) => {
                proof {
                    lemma_failure_stays(views, step, i + 1);
                }
                return Err(reason);
            },
        }
    }
    proof {
        assert(views.take(constraint.predicates.len() as int) =~= views);
    }
    Ok(ScopeConstraint::new(filters))
}

// ---------------------------------------------------------------------------
// Scopes
// ---------------------------------------------------------------------------

/// What the constraints that compile are compiled to, in order.
pub open spec fn compiled_ones(constraints: Seq<ConstraintView>, rules: CompileRules) -> Seq<
    ScopeConstraintView,
>
    decreases constraints.len(),
{
    if constraints.len() == 0 {
        Seq::empty()
    } else {
        let front = compiled_ones(constraints.drop_last(), rules);
        match compiled_constraint(constraints.last(), rules) {
            Ok(compiled) => front.push(compiled),
            Err(_) => front,
        }
    }
}

/// Why the other constraints do not compile, in order.
pub open spec fn failure_reasons(constraints: Seq<ConstraintView>, rules: CompileRules) -> Seq<
    Seq<char>,
>
    decreases constraints.len(),
{
    if constraints.len() == 0 {
        Seq::empty()
    } else {
        let front = failure_reasons(constraints.drop_last(), rules);
        match compiled_constraint(constraints.last(), rules) {
            Ok(_) => front,
            Err(reason) => front.push(reason),
        }
    }
}

/// Whether no alternative has a filter.
pub open spec fn all_empty(constraints: Seq<ScopeConstraintView>) -> bool {
    forall|i: int| 0 <= i < constraints.len() ==> (#[trigger] constraints[i]).len() == 0
}

/// The scope that the answer of a PDP compiles to.
pub open spec fn compiled_scope(
    constraints: Seq<ConstraintView>,
    require_constraints: bool,
    rules: CompileRules,
) -> Result<AccessScopeView, ConstraintCompileErrorView> {
    let compiled = compiled_ones(constraints, rules);
    if constraints.len() == 0 {
        if require_constraints {
            Err(ConstraintCompileErrorView::ConstraintsRequiredButAbsent)
        } else {
            Ok(AccessScopeView::allow_all())
        }
    } else if compiled.len() == 0 {
        Err(
            ConstraintCompileErrorView::AllConstraintsFailed {
                reason: joined(failure_reasons(constraints, rules), "; "@),
            },
        )
    } else if all_empty(compiled) {
        Ok(AccessScopeView::allow_all())
    } else {
        Ok(AccessScopeView::from_constraints(compiled))
    }
}

/// Whether no alternative has a filter.
fn are_all_empty(constraints: &Vec<ScopeConstraint>) -> (result: bool)
    ensures
        result == all_empty(constraints.deep_view()),
{
    let ghost views = constraints.deep_view();
    for i in 0..constraints.len()
        invariant
            views == constraints.deep_view(),
            forall|j: int| 0 <= j < i ==> (#[trigger] views[j]).len() == 0,
    {
        if !constraints[i].is_empty() {
            proof {
                assert(views[i as int].len() != 0);
            }
            return false;
        }
    }
    true
}

fn compile_to_access_scope_impl(
    response: &EvaluationResponse,
    require_constraints: bool,
    supported_properties: &[&str],
    group_membership_type: Option<&str>,
    negotiated_capabilities: Option<&[Capability]>,
) -> (result: Result<AccessScope, ConstraintCompileError>)
    ensures
        scope_outcome(result) == compiled_scope(
            response.constraints(),
            require_constraints,
            compile_rules(supported_properties, group_membership_type, negotiated_capabilities),
        ),
{
    let given = &response.context.constraints;
    if given.len() == 0 {
        if require_constraints {
            return Err(ConstraintCompileError::ConstraintsRequiredButAbsent);
        }
        return Ok(AccessScope::allow_all());
    }
    let mut constraints: Vec<ScopeConstraint> = Vec::new();
    let mut fail_reasons: Vec<String> = Vec::new();
    let ghost rules = compile_rules(
        supported_properties,
        group_membership_type,
        negotiated_capabilities,
    );
    let ghost views = response.constraints();
    proof {
        assert(constraints.deep_view() =~= Seq::empty());
        assert(fail_reasons.deep_view() =~= Seq::empty());
    }
    for i in 0..given.len()
        invariant
            given == &response.context.constraints,
            rules == compile_rules(
                supported_properties,
                group_membership_type,
                negotiated_capabilities,
            ),
            views == response.constraints(),
            constraints.deep_view() == compiled_ones(views.take(i as int), rules),
            fail_reasons.deep_view() == failure_reasons(views.take(i as int), rules),
    {
        let ghost compiled_before = constraints.deep_view();
        let ghost reasons_before = fail_reasons.deep_view();
        proof {
            assert(views.take(i + 1).drop_last() =~= views.take(i as int));
            assert(views.take(i + 1).last() == given[i as int].deep_view());
        }
        match compile_constraint(
            &given[i],
            supported_properties,
            group_membership_type,
            negotiated_capabilities,
        ) {
            Ok(compiled) => {
                constraints.push(compiled);
                proof {
                    assert(constraints.deep_view() =~= compiled_before.push(compiled.deep_view()));
                }
            },
            Err(reason) => {
                fail_reasons.push(reason);
                proof {
                    assert(fail_reasons.deep_view() =~= reasons_before.push(reason@));
                }
            },
        }
    }
    proof {
        assert(views.take(given.len() as int) =~= views);
    }
    if constraints.len() == 0 {
        return Err(
            ConstraintCompileError::AllConstraintsFailed { reason: join(&fail_reasons, "; ") },
        );
    }
    if are_all_empty(&constraints) {
        return Ok(AccessScope::allow_all());
    }
    Ok(AccessScope::from_constraints(constraints))
}

/// Compiles the constraints of a response into an access scope.
///
/// The caller has already made sure that the decision permits the request. Each
/// constraint compiles to filters that all have to hold; several constraints are
/// alternatives. Group predicates fail closed here, because the member-handle type is
/// absent; see [`compile_to_access_scope_with_group_membership_type`].
pub fn compile_to_access_scope(
    response: &EvaluationResponse,
    require_constraints: bool,
    supported_properties: &[&str],
) -> (result: Result<AccessScope, ConstraintCompileError>)
    ensures
        scope_outcome(result) == compiled_scope(
            response.constraints(),
            require_constraints,
            compile_rules(supported_properties, None, None),
        ),
{
    compile_to_access_scope_with_group_membership_type(
        response,
        require_constraints,
        supported_properties,
        None,
    )
}

/// Compiles constraints with the member-handle type that group predicates need.
///
/// Group predicates fail when the type is absent or empty, when their keys are not
/// UUIDs, when they are on another property than the resource id, and when the same
/// constraint has no predicate on the owner tenant.
pub fn compile_to_access_scope_with_group_membership_type(
    response: &EvaluationResponse,
    require_constraints: bool,
    supported_properties: &[&str],
    group_membership_type: Option<&str>,
) -> (result: Result<AccessScope, ConstraintCompileError>)
    ensures
        scope_outcome(result) == compiled_scope(
            response.constraints(),
            require_constraints,
            compile_rules(supported_properties, group_membership_type, None),
        ),
{
    compile_to_access_scope_impl(
        response,
        require_constraints,
        supported_properties,
        group_membership_type,
        None,
    )
}

/// Compiles constraints while enforcing the capabilities that were advertised in the
/// evaluation request, so that native predicates nobody asked for are rejected.
pub fn compile_to_access_scope_with_negotiated_capabilities(
    response: &EvaluationResponse,
    require_constraints: bool,
    supported_properties: &[&str],
    group_membership_type: Option<&str>,
    negotiated_capabilities: &[Capability],
) -> (result: Result<AccessScope, ConstraintCompileError>)
    ensures
        scope_outcome(result) == compiled_scope(
            response.constraints(),
            require_constraints,
            compile_rules(
                supported_properties,
                group_membership_type,
                Some(negotiated_capabilities),
            ),
        ),
{
    compile_to_access_scope_impl(
        response,
        require_constraints,
        supported_properties,
        group_membership_type,
        Some(negotiated_capabilities),
    )
}

} // verus!
