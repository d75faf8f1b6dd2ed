use service_access::principal::domain::{revoke_outcome, DomainError};
use service_access::principal::failure::ServicePrincipalFailure as F;
use service_access::principal::sanitize::{
    sanitize_provider_detail, MAX_PROVIDER_DETAIL_LEN, TRUNCATION_MARKER,
};

#[test]
fn maps_sdk_failures_to_domain() {
    assert!(matches!(
        DomainError::from(F::InvalidInput {
            detail: "bad".into(),
            field: Some("name".into())
        }),
        DomainError::InvalidInput { field: Some(_), .. }
    ));
    assert!(matches!(
        DomainError::from(F::NotFound { detail: "x".into() }),
        DomainError::NotFound
    ));
    assert!(matches!(
        DomainError::from(F::CleanFailure { detail: "x".into() }),
        DomainError::Upstream { .. }
    ));
    assert!(matches!(
        DomainError::from(F::Ambiguous { detail: "x".into() }),
        DomainError::Ambiguous { .. }
    ));
}

#[test]
fn sanitize_passes_through_normal_text() {
    assert_eq!(
        sanitize_provider_detail("vendor rejected the request: quota exceeded"),
        "vendor rejected the request: quota exceeded"
    );
}

#[test]
fn sanitize_strips_control_characters_and_ansi_escapes() {
    let raw = "conn\u{1b}[31mfailed\u{7}\n\rretry\0now";
    let cleaned = sanitize_provider_detail(raw);
    assert!(!cleaned.chars().any(char::is_control));
    assert_eq!(cleaned, "conn[31mfailed retrynow");
}

#[test]
fn sanitize_collapses_whitespace_runs() {
    assert_eq!(
        sanitize_provider_detail("too   many\t\tspaces"),
        "too many spaces"
    );
}

#[test]
fn sanitize_truncates_overlong_detail_with_marker() {
    let raw = "x".repeat(500);
    let cleaned = sanitize_provider_detail(&raw);
    assert!(cleaned.ends_with(TRUNCATION_MARKER));
    assert_eq!(
        cleaned.len(),
        MAX_PROVIDER_DETAIL_LEN + TRUNCATION_MARKER.len()
    );
}

#[test]
fn sanitize_empty_input_is_empty() {
    assert_eq!(sanitize_provider_detail(""), "");
}

#[test]
fn sanitize_all_control_chars_is_empty() {
    let raw = "\0\u{1}\u{7}\u{1b}\u{7f}";
    assert_eq!(sanitize_provider_detail(raw), "");
}

#[test]
fn sanitize_exactly_at_max_len_is_unchanged() {
    let raw = "x".repeat(MAX_PROVIDER_DETAIL_LEN);
    let cleaned = sanitize_provider_detail(&raw);
    assert_eq!(cleaned, raw);
    assert!(!cleaned.ends_with(TRUNCATION_MARKER));
}

#[test]
fn sanitize_one_over_max_len_is_truncated_with_marker() {
    let raw = "x".repeat(MAX_PROVIDER_DETAIL_LEN + 1);
    let cleaned = sanitize_provider_detail(&raw);
    assert!(cleaned.ends_with(TRUNCATION_MARKER));
    assert_eq!(
        cleaned,
        format!(
            "{}{}",
            "x".repeat(MAX_PROVIDER_DETAIL_LEN),
            TRUNCATION_MARKER
        )
    );
}

#[test]
fn invalid_input_conversion_sanitizes_detail_and_field() {
    let dirty_detail = format!("bad\u{1b}[0mname\n{}", "z".repeat(500));
    let dirty_field = format!("na\u{7}me\t{}", "f".repeat(500));

    let domain_err = DomainError::from(F::InvalidInput {
        detail: dirty_detail,
        field: Some(dirty_field),
    });

    let DomainError::InvalidInput { detail, field } = domain_err else {
        panic!("expected InvalidInput variant");
    };
    assert!(!detail.contains('\u{1b}'));
    assert!(detail.ends_with(TRUNCATION_MARKER));

    let field = field.expect("field must be preserved");
    assert!(!field.contains('\u{7}'));
    assert!(field.ends_with(TRUNCATION_MARKER));
}

#[test]
fn clean_failure_and_ambiguous_conversions_sanitize_detail() {
    let raw = format!("secret=abc123\u{1b}[0m\n{}", "y".repeat(500));

    let upstream = DomainError::from(F::CleanFailure {
        detail: raw.clone(),
    });
    let DomainError::Upstream { detail } = upstream else {
        panic!("expected Upstream variant");
    };
    assert!(!detail.contains('\u{1b}'));
    assert!(detail.ends_with(TRUNCATION_MARKER));

    let ambiguous = DomainError::from(F::Ambiguous { detail: raw });
    let DomainError::Ambiguous { detail } = ambiguous else {
        panic!("expected Ambiguous variant");
    };
    assert!(!detail.contains('\u{1b}'));
    assert!(detail.ends_with(TRUNCATION_MARKER));
}

#[test]
fn sanitize_classifies_every_character_as_std_does() {
    for c in '\0'..=char::MAX {
        let expected = if c.is_ascii_graphic() {
            format!("a{c}b")
        } else if c.is_whitespace() {
            "a b".to_owned()
        } else {
            "ab".to_owned()
        };
        assert_eq!(sanitize_provider_detail(&format!("a{c}b")), expected);
    }
}

#[test]
fn sanitize_trims_and_drops_non_ascii_text() {
    assert_eq!(
        sanitize_provider_detail(" \u{3000} host\u{202e}name\u{a0}\u{e9}\u{200b} down \n"),
        "hostname down"
    );
}

#[test]
fn sanitize_counts_after_collapsing() {
    let raw = format!("{}  \n  {}", "a".repeat(100), "b".repeat(99));
    let cleaned = sanitize_provider_detail(&raw);
    assert_eq!(
        cleaned,
        format!("{} {}", "a".repeat(100), "b".repeat(99))
    );
    assert_eq!(cleaned.len(), MAX_PROVIDER_DETAIL_LEN);
}

#[test]
fn sanitize_twice_is_sanitize_once() {
    let texts = [
        "plain".to_owned(),
        " a \t b\u{7}c ".to_owned(),
        // Cut right behind a space.
        format!("{} tail", "x".repeat(199)),
        format!("{}\u{1b}{}", "y".repeat(150), "z w ".repeat(100)),
    ];
    for text in texts {
        let once = sanitize_provider_detail(&text);
        assert_eq!(sanitize_provider_detail(&once), once);
    }
    assert_eq!(
        sanitize_provider_detail(&format!("{} tail", "x".repeat(199))),
        format!("{} ...(truncated)", "x".repeat(199))
    );
}

#[test]
fn messages_carry_the_detail() {
    let invalid = DomainError::from(F::InvalidInput {
        detail: "quota\nexceeded".into(),
        field: None,
    });
    assert_eq!(invalid.to_string(), "invalid input: quota exceeded");
    assert_eq!(
        DomainError::NotFound.to_string(),
        "service principal not found"
    );
    assert_eq!(DomainError::AccessDenied.to_string(), "access denied");
    assert_eq!(
        DomainError::ProviderUnavailable.to_string(),
        "service-principal provider unavailable"
    );
    let upstream = DomainError::from(F::CleanFailure {
        detail: "down".into(),
    });
    assert_eq!(upstream.to_string(), "upstream unavailable: down");
    let ambiguous = DomainError::from(F::Ambiguous {
        detail: "timeout".into(),
    });
    assert_eq!(
        ambiguous.to_string(),
        "upstream outcome ambiguous: timeout"
    );
}

#[test]
fn each_error_has_its_status() {
    let invalid = DomainError::from(F::InvalidInput {
        detail: "bad".into(),
        field: None,
    });
    assert_eq!(invalid.status(), 400);
    let absent = DomainError::from(F::NotFound {
        detail: "no such client".into(),
    });
    assert_eq!(absent.status(), 404);
    let upstream = DomainError::from(F::CleanFailure { detail: "x".into() });
    assert_eq!(upstream.status(), 503);
    let ambiguous = DomainError::from(F::Ambiguous { detail: "x".into() });
    assert_eq!(ambiguous.status(), 409);
    assert_eq!(DomainError::AccessDenied.status(), 403);
    assert_eq!(DomainError::ProviderUnavailable.status(), 503);
}

#[test]
fn revoking_what_is_gone_succeeds() {
    assert!(revoke_outcome(Ok(())).is_ok());
    assert!(revoke_outcome(Err(F::NotFound {
        detail: "gone".into()
    }))
    .is_ok());
    let ambiguous = revoke_outcome(Err(F::Ambiguous {
        detail: "time\tout".into(),
    }));
    let Err(DomainError::Ambiguous { detail }) = ambiguous else {
        panic!("expected Ambiguous variant");
    };
    assert_eq!(detail, "time out");
    assert!(matches!(
        revoke_outcome(Err(F::InvalidInput {
            detail: "x".into(),
            field: None
        })),
        Err(DomainError::InvalidInput { field: None, .. })
    ));
    assert!(matches!(
        revoke_outcome(Err(F::CleanFailure { detail: "x".into() })),
        Err(DomainError::Upstream { .. })
    ));
}

#[test]
fn ambiguous_outcomes_are_conflicts_with_clean_detail() {
    let raw = format!("conn\u{1b}[31mreset{}", "z".repeat(500));
    let error = DomainError::from(F::Ambiguous {
        detail: raw.clone(),
    });
    assert_eq!(error.status(), 409);
    let message = error.to_string();
    assert!(!message.contains('\u{1b}'));
    assert!(message.len() < raw.len());
    assert!(message.ends_with(TRUNCATION_MARKER));
}
