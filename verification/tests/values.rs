use service_access::ids::Uuid;
use service_access::json::{JsonNumber, JsonValue};
use service_access::pep::compiler::{
    json_to_scope_value, json_to_uuid_scope_value, json_values_to_scope_values,
    json_values_to_uuid_scope_values,
};
use service_access::pep::IntoPropertyValue;
use service_access::scope::ScopeValue;
use service_access::text::{contains_text, join};

const ID: Uuid = Uuid {
    value: 0x67e55044_10b1_426f_9247_bb680e5fe0c8,
};

fn parsed(json: &str) -> serde_json::Value {
    serde_json::from_str(json).expect("valid JSON")
}

fn read(json: &str) -> JsonValue {
    JsonValue::from_serde(&parsed(json))
}

#[test]
fn uuids_are_read_in_four_forms_and_either_case() {
    let forms = [
        "67e5504410b1426f9247bb680e5fe0c8",
        "67e55044-10b1-426f-9247-bb680e5fe0c8",
        "67E55044-10B1-426F-9247-BB680E5FE0C8",
        "{67e55044-10b1-426f-9247-bb680e5fe0c8}",
        "urn:uuid:67e55044-10b1-426f-9247-bb680e5fe0c8",
        "URN:UUID:67E55044-10b1-426f-9247-bb680e5fe0c8",
    ];
    for form in forms {
        assert_eq!(Uuid::parse_str(form), Some(ID), "{form}");
    }
}

#[test]
fn other_texts_are_no_uuids() {
    let texts = [
        "",
        "not-a-uuid",
        "67e5504410b1426f9247bb680e5fe0c",
        "67e5504410b1426f9247bb680e5fe0c8 ",
        "67e5504410b1426f9247bb680e5fe0cg",
        "67e55044-10b1-426f-9247-bb680e5fe0cg",
        "67e55044010b1-426f-9247-bb680e5fe0c8",
        "67e55044-10b1-426f-9247bb-680e5fe0c8",
        "{67e5504410b1426f9247bb680e5fe0c8}",
        "(67e55044-10b1-426f-9247-bb680e5fe0c8)",
        "{67e55044-10b1-426f-9247-bb680e5fe0c8",
        "urn:guid:67e55044-10b1-426f-9247-bb680e5fe0c8",
        "urn:uuid:67e5504410b1426f9247bb680e5fe0c8",
        "+7e5504410b1426f9247bb680e5fe0c8",
        "\u{e9}67e5504410b1426f9247bb680e5fe0",
        "\u{e9}\u{e9}e5504410b1426f9247bb680e5fe0c8",
    ];
    for text in texts {
        assert_eq!(Uuid::parse_str(text), None, "{text}");
    }
}

#[test]
fn uuids_are_written_hyphenated_in_lower_case() {
    assert_eq!(ID.to_string(), "67e55044-10b1-426f-9247-bb680e5fe0c8");
    assert_eq!(
        Uuid { value: 0 }.to_string(),
        "00000000-0000-0000-0000-000000000000"
    );
    assert_eq!(
        Uuid { value: u128::MAX }.to_string(),
        "ffffffff-ffff-ffff-ffff-ffffffffffff"
    );
}

#[test]
fn uuid_text_round_trips() {
    for value in [0, 1, 15, 16, ID.value, u128::MAX] {
        let id = Uuid { value };
        assert_eq!(Uuid::parse_str(&id.to_string()), Some(id));
    }
}

#[test]
fn json_scalars_are_read_by_value() {
    assert_eq!(read("true"), JsonValue::Bool(true));
    assert_eq!(read("false"), JsonValue::Bool(false));
    assert_eq!(read("\"a\\\"b\""), JsonValue::String("a\"b".to_owned()));
    assert_eq!(read("0"), JsonValue::Number(JsonNumber::Int(0)));
    assert_eq!(
        read("-9223372036854775808"),
        JsonValue::Number(JsonNumber::Int(i64::MIN))
    );
    assert_eq!(
        read("9223372036854775807"),
        JsonValue::Number(JsonNumber::Int(i64::MAX))
    );
}

#[test]
fn other_json_is_read_as_text() {
    let number = |text: &str| {
        JsonValue::Number(JsonNumber::Other {
            text: text.to_owned(),
        })
    };
    assert_eq!(read("9223372036854775808"), number("9223372036854775808"));
    assert_eq!(read("1.5"), number("1.5"));
    assert_eq!(read("1.0"), number("1.0"));
    let other = |text: &str| JsonValue::Other {
        text: text.to_owned(),
    };
    assert_eq!(read("null"), other("null"));
    assert_eq!(read("[1, \"x\"]"), other("[1,\"x\"]"));
    assert_eq!(read("{\"a\": {}}"), other("{\"a\":{}}"));
}

#[test]
fn typed_values_become_json() {
    let text = "67e55044-10b1-426f-9247-bb680e5fe0c8";
    assert_eq!(
        ID.into_filter_value(),
        serde_json::Value::String(text.to_owned())
    );
    assert_eq!(
        (&ID).into_filter_value(),
        serde_json::Value::String(text.to_owned())
    );
    assert_eq!("x".to_owned().into_filter_value(), parsed("\"x\""));
    assert_eq!("x".into_filter_value(), parsed("\"x\""));
    assert_eq!(42i64.into_filter_value(), parsed("42"));
    assert_eq!(i64::MIN.into_filter_value(), parsed("-9223372036854775808"));
    assert_eq!(true.into_filter_value(), parsed("true"));
    let value = parsed("[1, null, {\"a\": 1.5}]");
    assert_eq!(value.clone().into_filter_value(), value);
}

#[test]
fn typed_values_round_trip_through_json() {
    let back = |value: serde_json::Value| json_to_scope_value(&JsonValue::from_serde(&value));
    assert_eq!(back(ID.into_filter_value()), Ok(ScopeValue::Uuid(ID)));
    assert_eq!(
        json_to_uuid_scope_value(&JsonValue::from_serde(&ID.into_filter_value()), "id"),
        Ok(ScopeValue::Uuid(ID))
    );
    assert_eq!(back((-3i64).into_filter_value()), Ok(ScopeValue::Int(-3)));
    assert_eq!(back(false.into_filter_value()), Ok(ScopeValue::Bool(false)));
    assert_eq!(
        back("paris".into_filter_value()),
        Ok(ScopeValue::String("paris".to_owned()))
    );
    assert_eq!(
        back("{67e55044-10b1-426f-9247-bb680e5fe0c8}".into_filter_value()),
        Ok(ScopeValue::Uuid(ID))
    );
}

#[test]
fn unsupported_json_is_rejected() {
    assert_eq!(
        json_to_scope_value(&read("1.5")),
        Err("only integer JSON numbers are supported for scope filters, got: 1.5".to_owned())
    );
    assert_eq!(
        json_to_scope_value(&read("18446744073709551615")),
        Err(
            "only integer JSON numbers are supported for scope filters, got: \
             18446744073709551615"
                .to_owned()
        )
    );
    assert_eq!(
        json_to_scope_value(&read("null")),
        Err("unsupported JSON value type for scope filter: null".to_owned())
    );
    assert_eq!(
        json_to_scope_value(&read("[1, 2]")),
        Err("unsupported JSON value type for scope filter: [1,2]".to_owned())
    );
}

#[test]
fn only_uuid_strings_are_uuid_values() {
    let rejected = |json: &str| {
        json_to_uuid_scope_value(&read(json), "group_ids").expect_err("no UUID string")
    };
    assert_eq!(
        rejected("\"a\\\"b\\n\""),
        "group_ids must contain UUID strings, got: \"a\\\"b\\n\" (fail-closed)"
    );
    assert_eq!(
        rejected("7"),
        "group_ids must contain UUID strings, got number (fail-closed)"
    );
    assert_eq!(
        rejected("1.5"),
        "group_ids must contain UUID strings, got number (fail-closed)"
    );
    assert_eq!(
        rejected("true"),
        "group_ids must contain UUID strings, got bool (fail-closed)"
    );
    assert_eq!(
        rejected("null"),
        "group_ids must contain UUID strings, got: null (fail-closed)"
    );
    assert_eq!(
        rejected("{\"a\":1}"),
        "group_ids must contain UUID strings, got: {\"a\":1} (fail-closed)"
    );
}

#[test]
fn lists_stop_at_the_first_bad_value() {
    let id = JsonValue::String(ID.to_string());
    assert_eq!(
        json_values_to_uuid_scope_values(&[id.clone(), id.clone()], "ids"),
        Ok(vec![ScopeValue::Uuid(ID), ScopeValue::Uuid(ID)])
    );
    assert_eq!(
        json_values_to_uuid_scope_values(&[id.clone(), read("1"), read("true")], "ids"),
        Err("ids must contain UUID strings, got number (fail-closed)".to_owned())
    );
    assert_eq!(json_values_to_uuid_scope_values(&[], "ids"), Ok(vec![]));
    assert_eq!(
        json_values_to_scope_values(&[read("1"), id, read("\"x\"")]),
        Ok(vec![
            ScopeValue::Int(1),
            ScopeValue::Uuid(ID),
            ScopeValue::String("x".to_owned())
        ])
    );
    assert_eq!(
        json_values_to_scope_values(&[read("1"), read("null"), read("1.5")]),
        Err("unsupported JSON value type for scope filter: null".to_owned())
    );
}

#[test]
fn texts_are_joined_and_found() {
    let parts = |texts: &[&str]| -> Vec<String> {
        texts.iter().map(|text| (*text).to_owned()).collect()
    };
    assert_eq!(join(&parts(&[]), "; "), "");
    assert_eq!(join(&parts(&["a"]), "; "), "a");
    assert_eq!(join(&parts(&["a", "", "b"]), "; "), "a; ; b");
    assert!(contains_text(&["x", "\u{e9}"], "\u{e9}"));
    assert!(!contains_text(&["x", "\u{e9}"], "X"));
    assert!(!contains_text(&[], ""));
}
