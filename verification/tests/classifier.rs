use delta_struct::diff::compute;
use delta_struct::record::{FieldDelta, FieldValue, Record};
use delta_struct::schema::{
    build_shape, classify, string_to_fieldtype, ClassifiedField, FieldDecl, FieldShape, FieldType,
};

fn decl(name: &str, strategy: Option<&str>) -> FieldDecl {
    FieldDecl {
        name: name.to_string(),
        strategy: strategy.map(|s| s.to_string()),
    }
}

#[test]
fn tokens_resolve_to_strategies() {
    assert_eq!(string_to_fieldtype("ordered"), Some(FieldType::Ordered));
    assert_eq!(string_to_fieldtype("unordered"), Some(FieldType::Unordered));
    assert_eq!(string_to_fieldtype("scalar"), Some(FieldType::Scalar));
    assert_eq!(string_to_fieldtype("delta"), Some(FieldType::Delta));
    assert_eq!(string_to_fieldtype("Scalar"), None);
    assert_eq!(string_to_fieldtype(""), None);
}

#[test]
fn invalid_strategies_are_aggregated_into_one_error() {
    // Two fields with invalid strategies yield one error naming both, not
    // two separate errors.
    let decls = vec![decl("f1", Some("foo")), decl("f2", Some("bar"))];
    let err = classify(&decls, FieldType::Scalar).expect_err("invalid tokens must fail");
    assert_eq!(err, vec!["f1".to_string(), "f2".to_string()]);
}

#[test]
fn invalid_names_keep_declaration_order_among_valid_fields() {
    let decls = vec![
        decl("a", Some("scalar")),
        decl("b", Some("mystery")),
        decl("c", None),
        decl("d", Some("junk")),
    ];
    let err = classify(&decls, FieldType::Unordered).expect_err("invalid tokens must fail");
    assert_eq!(err, vec!["b".to_string(), "d".to_string()]);
}

#[test]
fn overrides_and_default_resolve_per_field() {
    let decls = vec![
        decl("count", None),
        decl("tags", Some("unordered")),
        decl("address", Some("delta")),
    ];
    let classified = classify(&decls, FieldType::Scalar).expect("all tokens are valid");
    assert_eq!(classified.len(), 3);
    assert_eq!(classified[0].name, "count");
    assert_eq!(classified[0].strategy, FieldType::Scalar);
    assert_eq!(classified[1].name, "tags");
    assert_eq!(classified[1].strategy, FieldType::Unordered);
    assert_eq!(classified[2].name, "address");
    assert_eq!(classified[2].strategy, FieldType::Delta);
}

#[test]
fn ordered_fields_are_rejected_at_classification() {
    let decls = vec![decl("log", Some("ordered"))];
    let err = classify(&decls, FieldType::Scalar).expect_err("ordered has no diff semantics");
    assert_eq!(err, vec!["log".to_string()]);

    // An ordered record default rejects every field that relies on it.
    let decls2 = vec![decl("x", None), decl("y", Some("scalar"))];
    let err2 = classify(&decls2, FieldType::Ordered).expect_err("ordered default is rejected");
    assert_eq!(err2, vec!["x".to_string()]);
}

#[test]
fn empty_schema_classifies_to_nothing() {
    let classified = classify(&vec![], FieldType::Scalar).expect("nothing to reject");
    assert!(classified.is_empty());
}

#[test]
fn classified_schema_drives_the_engines() {
    let decls = vec![
        decl("count", None),
        decl("tags", Some("unordered")),
        decl("address", Some("delta")),
    ];
    let classified = classify(&decls, FieldType::Scalar).expect("all tokens are valid");
    let shapes = build_shape(&classified);
    assert_eq!(
        shapes,
        vec![FieldShape::Replacement, FieldShape::AddRemove, FieldShape::NestedDelta]
    );

    // Instances of the classified record, one field value per declared
    // strategy; the delta's entries exhibit exactly the built shapes.
    let old = Record {
        fields: vec![
            FieldValue::Scalar(3),
            FieldValue::Unordered(vec![1, 2, 2]),
            FieldValue::Nested(Record { fields: vec![FieldValue::Scalar(7)] }),
        ],
    };
    let new = Record {
        fields: vec![
            FieldValue::Scalar(5),
            FieldValue::Unordered(vec![2, 3]),
            FieldValue::Nested(Record { fields: vec![FieldValue::Scalar(7)] }),
        ],
    };
    let d = compute(&old, &new).expect("changed fields must yield a delta");
    assert!(matches!(d.fields[0], FieldDelta::Scalar(_)));
    assert!(matches!(d.fields[1], FieldDelta::Unordered { .. }));
    assert!(matches!(d.fields[2], FieldDelta::Nested(_)));
}

#[test]
fn shapes_follow_strategies() {
    let classified = vec![
        ClassifiedField { name: "count".to_string(), strategy: FieldType::Scalar },
        ClassifiedField { name: "tags".to_string(), strategy: FieldType::Unordered },
        ClassifiedField { name: "address".to_string(), strategy: FieldType::Delta },
    ];
    let shapes = build_shape(&classified);
    assert_eq!(
        shapes,
        vec![FieldShape::Replacement, FieldShape::AddRemove, FieldShape::NestedDelta]
    );
}
