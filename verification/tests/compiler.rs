use service_access::constraints::{
    Constraint, EqPredicate, InGroupPredicate, InGroupSubtreePredicate, InPredicate,
    InTenantSubtreePredicate, Predicate,
};
use service_access::ids::Uuid;
use service_access::json::{JsonNumber, JsonValue};
use service_access::models::{
    BarrierMode, Capability, EvaluationResponse, EvaluationResponseContext, TenantStatus,
};
use service_access::pep::compiler::{
    compile_constraint, compile_to_access_scope,
    compile_to_access_scope_with_group_membership_type,
    compile_to_access_scope_with_negotiated_capabilities, ConstraintCompileError,
};
use service_access::scope::{
    AccessScope, ScopeConstraint, ScopeFilter, ScopeValue, OWNER_TENANT_ID, RESOURCE_ID,
};

const TENANT: Uuid = Uuid {
    value: 0x11111111_1111_1111_1111_111111111111,
};
const GROUP: Uuid = Uuid {
    value: 0xa0000000_0000_4000_8000_00000000000a,
};
const MEMBER_TYPE: &str = "gts.x.core.rg.type.v1~x.test.task.v1~";
const SUPPORTED: [&str; 3] = [OWNER_TENANT_ID, RESOURCE_ID, "city"];
const ALL_CAPABILITIES: [Capability; 3] = [
    Capability::TenantHierarchy,
    Capability::GroupMembership,
    Capability::GroupHierarchy,
];

fn id_value(id: Uuid) -> JsonValue {
    JsonValue::String(id.to_string())
}

fn integer(number: i64) -> JsonValue {
    JsonValue::Number(JsonNumber::Int(number))
}

fn eq(property: &str, value: JsonValue) -> Predicate {
    Predicate::Eq(EqPredicate {
        property: property.to_owned(),
        value,
    })
}

fn is_in(property: &str, values: Vec<JsonValue>) -> Predicate {
    Predicate::In(InPredicate {
        property: property.to_owned(),
        values,
    })
}

fn in_group(property: &str, group_ids: Vec<JsonValue>) -> Predicate {
    Predicate::InGroup(InGroupPredicate {
        property: property.to_owned(),
        group_ids,
    })
}

fn in_group_subtree(property: &str, ancestor_ids: Vec<JsonValue>) -> Predicate {
    Predicate::InGroupSubtree(InGroupSubtreePredicate {
        property: property.to_owned(),
        ancestor_ids,
    })
}

fn in_tenant_subtree(
    root_tenant_id: JsonValue,
    barrier_mode: BarrierMode,
    descendant_status: Vec<TenantStatus>,
) -> Predicate {
    Predicate::InTenantSubtree(InTenantSubtreePredicate {
        property: OWNER_TENANT_ID.to_owned(),
        root_tenant_id,
        barrier_mode,
        descendant_status,
    })
}

fn tenant() -> Predicate {
    eq(OWNER_TENANT_ID, id_value(TENANT))
}

fn response(constraints: Vec<Vec<Predicate>>) -> EvaluationResponse {
    EvaluationResponse {
        decision: true,
        context: EvaluationResponseContext {
            constraints: constraints
                .into_iter()
                .map(|predicates| Constraint { predicates })
                .collect(),
        },
    }
}

/// The answer of a decision point that permits, within the rows of one tenant.
fn allow_tenant(tenant: Uuid) -> EvaluationResponse {
    response(vec![vec![Predicate::In(InPredicate::new(
        OWNER_TENANT_ID,
        vec![tenant],
    ))]])
}

/// The answer of a decision point that denies.
fn deny() -> EvaluationResponse {
    EvaluationResponse {
        decision: false,
        context: EvaluationResponseContext {
            constraints: vec![],
        },
    }
}

fn tenant_filter() -> ScopeFilter {
    ScopeFilter::Eq {
        property: OWNER_TENANT_ID.to_owned(),
        value: ScopeValue::Uuid(TENANT),
    }
}

fn group_filter() -> ScopeFilter {
    ScopeFilter::InGroup {
        property: RESOURCE_ID.to_owned(),
        membership_type: MEMBER_TYPE.to_owned(),
        group_ids: vec![ScopeValue::Uuid(GROUP)],
    }
}

fn scope(constraints: Vec<Vec<ScopeFilter>>) -> AccessScope {
    AccessScope::from_constraints(constraints.into_iter().map(ScopeConstraint::new).collect())
}

fn compile(predicates: Vec<Predicate>) -> Result<Vec<ScopeFilter>, String> {
    compile_constraint(
        &Constraint { predicates },
        &SUPPORTED,
        Some(MEMBER_TYPE),
        None,
    )
    .map(|compiled| compiled.filters)
}

fn compile_negotiated(
    predicates: Vec<Predicate>,
    negotiated: &[Capability],
) -> Result<Vec<ScopeFilter>, String> {
    compile_constraint(
        &Constraint { predicates },
        &SUPPORTED,
        Some(MEMBER_TYPE),
        Some(negotiated),
    )
    .map(|compiled| compiled.filters)
}

#[test]
fn absent_constraints_follow_the_matrix() {
    let absent = response(vec![]);
    assert_eq!(
        compile_to_access_scope(&absent, false, &SUPPORTED),
        Ok(AccessScope::allow_all())
    );
    assert_eq!(
        compile_to_access_scope(&absent, true, &SUPPORTED),
        Err(ConstraintCompileError::ConstraintsRequiredButAbsent)
    );
    assert_eq!(
        compile_to_access_scope_with_negotiated_capabilities(
            &absent,
            true,
            &SUPPORTED,
            Some(MEMBER_TYPE),
            &ALL_CAPABILITIES
        ),
        Err(ConstraintCompileError::ConstraintsRequiredButAbsent)
    );
}

#[test]
fn present_constraints_are_compiled_either_way() {
    let present = allow_tenant(TENANT);
    let expected = scope(vec![vec![ScopeFilter::In {
        property: OWNER_TENANT_ID.to_owned(),
        values: vec![ScopeValue::Uuid(TENANT)],
    }]]);
    for require_constraints in [false, true] {
        assert_eq!(
            compile_to_access_scope(&present, require_constraints, &SUPPORTED),
            Ok(expected.clone())
        );
    }
    assert!(!expected.unrestricted);
}

#[test]
fn a_denial_carries_nothing_to_compile() {
    assert!(!deny().decision);
    assert_eq!(
        compile_to_access_scope(&deny(), true, &SUPPORTED),
        Err(ConstraintCompileError::ConstraintsRequiredButAbsent)
    );
}

#[test]
fn a_scope_of_one_tenant_is_not_that_of_another() {
    let of = |tenant: Uuid| compile_to_access_scope(&allow_tenant(tenant), true, &SUPPORTED);
    assert_eq!(of(TENANT), of(TENANT));
    assert_ne!(of(TENANT), of(Uuid { value: 2 }));
}

#[test]
fn messages_of_compile_errors() {
    assert_eq!(
        ConstraintCompileError::ConstraintsRequiredButAbsent.to_string(),
        "constraints required but PDP returned none (fail-closed)"
    );
    let failed = compile_to_access_scope(
        &response(vec![
            vec![eq("planet", integer(3))],
            vec![is_in("city", vec![])],
        ]),
        true,
        &SUPPORTED,
    )
    .expect_err("nothing compiles");
    assert_eq!(
        failed.to_string(),
        "all constraints failed compilation (fail-closed): unsupported property: planet; \
         In predicate on 'city' has empty value list (fail-closed)"
    );
}

#[test]
fn each_predicate_becomes_one_filter_in_order() {
    assert_eq!(
        compile(vec![
            eq("city", JsonValue::String("paris".to_owned())),
            tenant(),
            in_group(RESOURCE_ID, vec![id_value(GROUP)]),
            eq("city", integer(7)),
            eq("city", JsonValue::Bool(true)),
        ]),
        Ok(vec![
            ScopeFilter::Eq {
                property: "city".to_owned(),
                value: ScopeValue::String("paris".to_owned()),
            },
            tenant_filter(),
            group_filter(),
            ScopeFilter::Eq {
                property: "city".to_owned(),
                value: ScopeValue::Int(7),
            },
            ScopeFilter::Eq {
                property: "city".to_owned(),
                value: ScopeValue::Bool(true),
            },
        ])
    );
    assert_eq!(compile(vec![]), Ok(vec![]));
}

#[test]
fn unsupported_properties_fail_the_constraint() {
    assert_eq!(
        compile(vec![tenant(), eq("planet", integer(1))]),
        Err("unsupported property: planet".to_owned())
    );
    // A value that does not compile is reported before the property.
    assert_eq!(
        compile(vec![eq("planet", JsonValue::Other { text: "null".to_owned() })]),
        Err("unsupported JSON value type for scope filter: null".to_owned())
    );
    assert_eq!(
        compile_constraint(
            &Constraint {
                predicates: vec![tenant()]
            },
            &[],
            None,
            None
        ),
        Err("unsupported property: owner_tenant_id".to_owned())
    );
}

#[test]
fn empty_lists_fail_the_constraint() {
    assert_eq!(
        compile(vec![is_in(OWNER_TENANT_ID, vec![])]),
        Err("In predicate on 'owner_tenant_id' has empty value list (fail-closed)".to_owned())
    );
    assert_eq!(
        compile(vec![tenant(), in_group(RESOURCE_ID, vec![])]),
        Err("InGroup predicate on 'id' has empty group_ids (fail-closed)".to_owned())
    );
    assert_eq!(
        compile(vec![tenant(), in_group_subtree(RESOURCE_ID, vec![])]),
        Err("InGroupSubtree predicate on 'id' has empty ancestor_ids (fail-closed)".to_owned())
    );
}

#[test]
fn tenants_are_compared_as_uuids() {
    assert_eq!(
        compile(vec![eq(OWNER_TENANT_ID, integer(5))]),
        Err("owner_tenant_id must contain UUID strings, got number (fail-closed)".to_owned())
    );
    assert_eq!(
        compile(vec![is_in(
            OWNER_TENANT_ID,
            vec![id_value(TENANT), JsonValue::String("t1".to_owned())]
        )]),
        Err("owner_tenant_id must contain UUID strings, got: \"t1\" (fail-closed)".to_owned())
    );
    assert_eq!(compile(vec![tenant()]), Ok(vec![tenant_filter()]));
}

#[test]
fn group_predicates_need_a_tenant_beside_them() {
    let reason = "native group predicates require an owner_tenant_id predicate in the same \
                  constraint (fail-closed)";
    assert_eq!(
        compile(vec![in_group(RESOURCE_ID, vec![id_value(GROUP)])]),
        Err(reason.to_owned())
    );
    assert_eq!(
        compile(vec![
            in_group_subtree(RESOURCE_ID, vec![id_value(GROUP)]),
            eq("city", integer(1))
        ]),
        Err(reason.to_owned())
    );
    // A group predicate on the tenant property is not a tenant predicate.
    assert_eq!(
        compile(vec![in_group(OWNER_TENANT_ID, vec![id_value(GROUP)])]),
        Err(reason.to_owned())
    );
    // A tenant in another alternative does not help.
    assert_eq!(
        compile_to_access_scope_with_group_membership_type(
            &response(vec![
                vec![tenant()],
                vec![in_group(RESOURCE_ID, vec![id_value(GROUP)])],
            ]),
            true,
            &SUPPORTED,
            Some(MEMBER_TYPE)
        ),
        Ok(scope(vec![vec![tenant_filter()]]))
    );
    for beside in [
        tenant(),
        is_in(OWNER_TENANT_ID, vec![id_value(TENANT)]),
        in_tenant_subtree(id_value(TENANT), BarrierMode::Respect, vec![]),
    ] {
        assert!(compile(vec![
            in_group(RESOURCE_ID, vec![id_value(GROUP)]),
            beside
        ])
        .is_ok());
    }
}

#[test]
fn group_predicates_target_the_resource() {
    assert_eq!(
        compile(vec![tenant(), in_group("city", vec![id_value(GROUP)])]),
        Err(
            "InGroup predicate must target 'id' until per-property membership types are \
             supported, got 'city' (fail-closed)"
                .to_owned()
        )
    );
    assert_eq!(
        compile(vec![tenant(), in_group_subtree("city", vec![id_value(GROUP)])]),
        Err(
            "InGroupSubtree predicate must target 'id' until per-property membership types are \
             supported, got 'city' (fail-closed)"
                .to_owned()
        )
    );
}

#[test]
fn group_keys_are_uuids() {
    assert_eq!(
        compile(vec![tenant(), in_group(RESOURCE_ID, vec![integer(1)])]),
        Err("group_ids must contain UUID strings, got number (fail-closed)".to_owned())
    );
    assert_eq!(
        compile(vec![
            tenant(),
            in_group_subtree(RESOURCE_ID, vec![JsonValue::Bool(true)])
        ]),
        Err("ancestor_ids must contain UUID strings, got bool (fail-closed)".to_owned())
    );
}

#[test]
fn group_predicates_need_a_membership_type() {
    let answer = response(vec![vec![
        tenant(),
        in_group(RESOURCE_ID, vec![id_value(GROUP)]),
    ]]);
    let untyped = "InGroup predicate on 'id' requires a configured RG membership resource type \
                   (fail-closed)";
    let failed = Err(ConstraintCompileError::AllConstraintsFailed {
        reason: untyped.to_owned(),
    });
    assert_eq!(compile_to_access_scope(&answer, true, &SUPPORTED), failed);
    for absent in [None, Some("")] {
        assert_eq!(
            compile_to_access_scope_with_group_membership_type(&answer, true, &SUPPORTED, absent),
            failed
        );
    }
    assert_eq!(
        compile_to_access_scope_with_group_membership_type(
            &answer,
            true,
            &SUPPORTED,
            Some(MEMBER_TYPE)
        ),
        Ok(scope(vec![vec![tenant_filter(), group_filter()]]))
    );
    assert_eq!(
        compile_constraint(
            &Constraint {
                predicates: vec![
                    tenant(),
                    in_group_subtree(RESOURCE_ID, vec![id_value(GROUP)])
                ]
            },
            &SUPPORTED,
            None,
            None
        ),
        Err(
            "InGroupSubtree predicate on 'id' requires a configured RG membership resource type \
             (fail-closed)"
                .to_owned()
        )
    );
}

#[test]
fn group_subtrees_keep_their_type_and_keys() {
    assert_eq!(
        compile(vec![
            tenant(),
            in_group_subtree(RESOURCE_ID, vec![id_value(GROUP), id_value(TENANT)])
        ]),
        Ok(vec![
            tenant_filter(),
            ScopeFilter::InGroupSubtree {
                property: RESOURCE_ID.to_owned(),
                membership_type: MEMBER_TYPE.to_owned(),
                ancestor_ids: vec![ScopeValue::Uuid(GROUP), ScopeValue::Uuid(TENANT)],
            }
        ])
    );
}

#[test]
fn tenant_subtrees_keep_their_options() {
    assert_eq!(
        compile(vec![in_tenant_subtree(
            id_value(TENANT),
            BarrierMode::Respect,
            vec![
                TenantStatus::Deleted,
                TenantStatus::Active,
                TenantStatus::Suspended
            ]
        )]),
        Ok(vec![ScopeFilter::InTenantSubtree {
            property: OWNER_TENANT_ID.to_owned(),
            root_tenant_id: ScopeValue::Uuid(TENANT),
            respect_barriers: true,
            descendant_status: vec![ScopeValue::Int(3), ScopeValue::Int(1), ScopeValue::Int(2)],
        }])
    );
    assert_eq!(
        compile(vec![in_tenant_subtree(
            id_value(TENANT),
            BarrierMode::Ignore,
            vec![]
        )]),
        Ok(vec![ScopeFilter::InTenantSubtree {
            property: OWNER_TENANT_ID.to_owned(),
            root_tenant_id: ScopeValue::Uuid(TENANT),
            respect_barriers: false,
            descendant_status: vec![],
        }])
    );
    assert_eq!(
        compile(vec![in_tenant_subtree(
            JsonValue::String("root".to_owned()),
            BarrierMode::Respect,
            vec![]
        )]),
        Err(
            "InTenantSubtree predicate on 'owner_tenant_id' has invalid root_tenant_id: \
             root_tenant_id must contain UUID strings, got: \"root\" (fail-closed)"
                .to_owned()
        )
    );
}

#[test]
fn unadvertised_capabilities_fail_the_constraint() {
    let group = || vec![tenant(), in_group(RESOURCE_ID, vec![id_value(GROUP)])];
    let subtree = || vec![tenant(), in_group_subtree(RESOURCE_ID, vec![id_value(GROUP)])];
    let tenants = || vec![in_tenant_subtree(id_value(TENANT), BarrierMode::Respect, vec![])];
    assert_eq!(
        compile_negotiated(group(), &[]),
        Err(
            "InGroup predicate requires unadvertised capabilities: group_membership (fail-closed)"
                .to_owned()
        )
    );
    assert_eq!(
        compile_negotiated(subtree(), &[Capability::TenantHierarchy]),
        Err(
            "InGroupSubtree predicate requires unadvertised capabilities: group_membership, \
             group_hierarchy (fail-closed)"
                .to_owned()
        )
    );
    assert_eq!(
        compile_negotiated(subtree(), &[Capability::GroupMembership]),
        Err(
            "InGroupSubtree predicate requires unadvertised capabilities: group_hierarchy \
             (fail-closed)"
                .to_owned()
        )
    );
    assert_eq!(
        compile_negotiated(tenants(), &[Capability::GroupHierarchy]),
        Err(
            "InTenantSubtree predicate requires unadvertised capabilities: tenant_hierarchy \
             (fail-closed)"
                .to_owned()
        )
    );
    // Scalar predicates need none.
    assert_eq!(
        compile_negotiated(vec![tenant()], &[]),
        Ok(vec![tenant_filter()])
    );
    // With all of them negotiated, enforcement changes nothing.
    for predicates in [group(), subtree(), tenants()] {
        assert_eq!(
            compile_negotiated(predicates.clone(), &ALL_CAPABILITIES),
            compile(predicates)
        );
    }
    assert_eq!(
        compile_to_access_scope_with_negotiated_capabilities(
            &response(vec![group(), vec![tenant()]]),
            true,
            &SUPPORTED,
            Some(MEMBER_TYPE),
            &[]
        ),
        Ok(scope(vec![vec![tenant_filter()]]))
    );
}

#[test]
fn failing_constraints_drop_out() {
    let bad = || vec![eq("planet", integer(1))];
    let good = || vec![tenant()];
    let alone = compile_to_access_scope(&response(vec![good(), good()]), true, &SUPPORTED);
    assert_eq!(
        alone,
        Ok(scope(vec![vec![tenant_filter()], vec![tenant_filter()]]))
    );
    for answer in [
        response(vec![bad(), good(), good()]),
        response(vec![good(), bad(), good()]),
        response(vec![good(), good(), bad()]),
    ] {
        assert_eq!(compile_to_access_scope(&answer, true, &SUPPORTED), alone);
    }
}

#[test]
fn alternatives_keep_their_order() {
    let cities: Vec<Vec<Predicate>> = (1..4).map(|n| vec![eq("city", integer(n))]).collect();
    let compiled =
        compile_to_access_scope(&response(cities), true, &SUPPORTED).expect("all compile");
    let values: Vec<&ScopeFilter> = compiled.constraints.iter().map(|c| &c.filters[0]).collect();
    for (index, filter) in values.into_iter().enumerate() {
        assert_eq!(
            filter,
            &ScopeFilter::Eq {
                property: "city".to_owned(),
                value: ScopeValue::Int(index as i64 + 1),
            }
        );
    }
}

#[test]
fn only_empty_constraints_are_unrestricted() {
    assert_eq!(
        compile_to_access_scope(&response(vec![vec![], vec![]]), true, &SUPPORTED),
        Ok(AccessScope::allow_all())
    );
    // Beside a constraint that fails, an empty one is all that is left.
    assert_eq!(
        compile_to_access_scope(
            &response(vec![vec![eq("planet", integer(1))], vec![]]),
            true,
            &SUPPORTED
        ),
        Ok(AccessScope::allow_all())
    );
    assert_eq!(
        compile_to_access_scope(&response(vec![vec![], vec![tenant()]]), true, &SUPPORTED),
        Ok(scope(vec![vec![], vec![tenant_filter()]]))
    );
}

#[test]
fn statuses_have_their_numbers() {
    assert_eq!(TenantStatus::Active.as_smallint(), 1);
    assert_eq!(TenantStatus::Suspended.as_smallint(), 2);
    assert_eq!(TenantStatus::Deleted.as_smallint(), 3);
}

#[test]
fn scopes_and_constraints_are_built() {
    assert!(AccessScope::allow_all().unrestricted);
    assert!(AccessScope::allow_all().constraints.is_empty());
    assert!(!AccessScope::from_constraints(vec![]).unrestricted);
    assert!(ScopeConstraint::new(vec![]).is_empty());
    assert!(!ScopeConstraint::new(vec![tenant_filter()]).is_empty());
    assert_eq!(tenant().property(), OWNER_TENANT_ID);
    assert_eq!(in_group("x", vec![]).property(), "x");
}

#[test]
fn the_membership_type_matters_to_groups_only() {
    let answer = response(vec![
        vec![tenant(), eq("city", integer(1))],
        vec![in_tenant_subtree(id_value(TENANT), BarrierMode::Ignore, vec![])],
    ]);
    let untyped = compile_to_access_scope(&answer, true, &SUPPORTED);
    assert!(untyped.is_ok());
    for membership_type in [None, Some(""), Some(MEMBER_TYPE)] {
        assert_eq!(
            compile_to_access_scope_with_group_membership_type(
                &answer,
                true,
                &SUPPORTED,
                membership_type
            ),
            untyped
        );
    }
}

#[test]
fn more_support_only_admits() {
    let constraint = Constraint {
        predicates: vec![tenant()],
    };
    let narrow = compile_constraint(&constraint, &[OWNER_TENANT_ID], None, None);
    assert_eq!(narrow, Ok(ScopeConstraint::new(vec![tenant_filter()])));
    assert_eq!(compile_constraint(&constraint, &SUPPORTED, None, None), narrow);
}

#[test]
fn typed_predicates_hold_json() {
    assert_eq!(
        Predicate::Eq(EqPredicate::new("city", "paris")),
        eq("city", JsonValue::String("paris".to_owned()))
    );
    assert_eq!(
        Predicate::Eq(EqPredicate::new(OWNER_TENANT_ID, &TENANT)),
        tenant()
    );
    assert_eq!(
        Predicate::Eq(EqPredicate::new("city", serde_json::Value::Null)),
        eq("city", JsonValue::Other { text: "null".to_owned() })
    );
    assert_eq!(
        Predicate::In(InPredicate::new("city", vec![1i64, -2])),
        is_in("city", vec![integer(1), integer(-2)])
    );
    assert_eq!(
        Predicate::In(InPredicate::new("city", Vec::<bool>::new())),
        is_in("city", vec![])
    );
}

#[test]
fn typed_tenants_compile_to_themselves() {
    let tenants = vec![TENANT, GROUP, Uuid { value: 0 }];
    assert_eq!(
        compile(vec![Predicate::In(InPredicate::new(
            OWNER_TENANT_ID,
            tenants.clone()
        ))]),
        Ok(vec![ScopeFilter::In {
            property: OWNER_TENANT_ID.to_owned(),
            values: tenants.into_iter().map(ScopeValue::Uuid).collect(),
        }])
    );
}
