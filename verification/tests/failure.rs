use service_access::principal::failure::ServicePrincipalFailure;

#[test]
fn metric_labels_are_stable() {
    let cases = [
        (
            ServicePrincipalFailure::InvalidInput {
                detail: String::new(),
                field: None,
            },
            "invalid_input",
        ),
        (
            ServicePrincipalFailure::NotFound {
                detail: String::new(),
            },
            "not_found",
        ),
        (
            ServicePrincipalFailure::CleanFailure {
                detail: String::new(),
            },
            "clean_failure",
        ),
        (
            ServicePrincipalFailure::Ambiguous {
                detail: String::new(),
            },
            "ambiguous",
        ),
    ];
    for (f, label) in cases {
        assert_eq!(f.as_metric_label(), label);
    }
}

#[test]
fn display_shape_is_stable() {
    assert_eq!(
        ServicePrincipalFailure::NotFound { detail: "x".into() }.to_string(),
        "not_found: x"
    );
}
