//! Tests of argument classification and object-literal parsing.

use policy_autopilot::arguments::{ArgumentExtractor, Parameter, ParameterValue};

#[test]
fn test_classify_value() {
    // String literals - resolved
    assert!(matches!(
        ArgumentExtractor::classify_value("\"my-bucket\""),
        ParameterValue::Resolved(s) if s == "my-bucket"
    ));
    assert!(matches!(
        ArgumentExtractor::classify_value("'my-bucket'"),
        ParameterValue::Resolved(s) if s == "my-bucket"
    ));

    // Template literal without interpolation - resolved
    assert!(matches!(
        ArgumentExtractor::classify_value("`my-bucket`"),
        ParameterValue::Resolved(s) if s == "my-bucket"
    ));

    // Template literal with interpolation - unresolved
    assert!(matches!(
        ArgumentExtractor::classify_value("`bucket-${name}`"),
        ParameterValue::Unresolved(_)
    ));

    // Boolean literals - resolved
    assert!(matches!(
        ArgumentExtractor::classify_value("true"),
        ParameterValue::Resolved(s) if s == "true"
    ));
    assert!(matches!(
        ArgumentExtractor::classify_value("false"),
        ParameterValue::Resolved(s) if s == "false"
    ));

    // Numeric literals - resolved
    assert!(matches!(
        ArgumentExtractor::classify_value("42"),
        ParameterValue::Resolved(s) if s == "42"
    ));
    assert!(matches!(
        ArgumentExtractor::classify_value("3.14"),
        ParameterValue::Resolved(s) if s == "3.14"
    ));

    // null/undefined - resolved
    assert!(matches!(
        ArgumentExtractor::classify_value("null"),
        ParameterValue::Resolved(s) if s == "null"
    ));
    assert!(matches!(
        ArgumentExtractor::classify_value("undefined"),
        ParameterValue::Resolved(s) if s == "undefined"
    ));

    // Identifiers - unresolved
    assert!(matches!(
        ArgumentExtractor::classify_value("bucketName"),
        ParameterValue::Unresolved(s) if s == "bucketName"
    ));

    // Member expressions - unresolved
    assert!(matches!(
        ArgumentExtractor::classify_value("config.bucket"),
        ParameterValue::Unresolved(s) if s == "config.bucket"
    ));

    // Function calls - unresolved
    assert!(matches!(
        ArgumentExtractor::classify_value("getBucket()"),
        ParameterValue::Unresolved(s) if s == "getBucket()"
    ));
}

#[test]
fn test_parse_object_literal_with_resolution() {
    // Test regular properties with mixed resolved/unresolved
    let params = ArgumentExtractor::parse_object_literal_with_resolution(
        r#"{ Bucket: "my-bucket", Key: fileName, Count: 5 }"#,
    );

    assert_eq!(params.len(), 3);

    // Verify Bucket (resolved)
    {
        let Parameter::Keyword {
            name,
            value,
            position,
            ..
        } = &params[0];
        assert_eq!(name, "Bucket");
        assert!(matches!(value, ParameterValue::Resolved(s) if s == "my-bucket"));
        assert_eq!(*position, 0);
    }

    // Verify Key (unresolved)
    {
        let Parameter::Keyword {
            name,
            value,
            position,
            ..
        } = &params[1];
        assert_eq!(name, "Key");
        assert!(matches!(value, ParameterValue::Unresolved(s) if s == "fileName"));
        assert_eq!(*position, 1);
    }

    // Verify Count (resolved)
    {
        let Parameter::Keyword {
            name,
            value,
            position,
            ..
        } = &params[2];
        assert_eq!(name, "Count");
        assert!(matches!(value, ParameterValue::Resolved(s) if s == "5"));
        assert_eq!(*position, 2);
    }
}

#[test]
fn test_parse_shorthand_properties() {
    // Test shorthand: { client } means { client: client }
    let params = ArgumentExtractor::parse_object_literal_with_resolution("{ client, region }");

    assert_eq!(params.len(), 2);

    // Verify client shorthand
    {
        let Parameter::Keyword { name, value, .. } = &params[0];
        assert_eq!(name, "client");
        assert!(matches!(value, ParameterValue::Unresolved(s) if s == "client"));
    }

    // Verify region shorthand
    {
        let Parameter::Keyword { name, value, .. } = &params[1];
        assert_eq!(name, "region");
        assert!(matches!(value, ParameterValue::Unresolved(s) if s == "region"));
    }
}

#[test]
fn test_parse_nested_objects() {
    // Test nested object literals
    let params = ArgumentExtractor::parse_object_literal_with_resolution(
        r#"{ Bucket: "test", Metadata: { Key: "value" } }"#,
    );

    assert_eq!(params.len(), 2);

    // Verify Bucket
    {
        let Parameter::Keyword { name, value, .. } = &params[0];
        assert_eq!(name, "Bucket");
        assert!(matches!(value, ParameterValue::Resolved(s) if s == "test"));
    }

    // Verify Metadata (nested object should be unresolved)
    {
        let Parameter::Keyword { name, value, .. } = &params[1];
        assert_eq!(name, "Metadata");
        assert!(matches!(value, ParameterValue::Unresolved(s) if s.contains("Key")));
    }
}

#[test]
fn test_split_object_properties() {
    // Test basic splitting
    let props = ArgumentExtractor::split_object_properties(r#"Bucket: "test", Key: fileName"#);
    assert_eq!(props.len(), 2);
    assert_eq!(props[0], r#"Bucket: "test""#);
    assert_eq!(props[1], "Key: fileName");

    // Test nested objects
    let props = ArgumentExtractor::split_object_properties(
        r#"Bucket: "test", Config: { RetryMode: "standard" }, Key: "file""#,
    );
    assert_eq!(props.len(), 3);
    assert!(props[1].contains("RetryMode"));

    // Test with arrays
    let props = ArgumentExtractor::split_object_properties(r#"Items: [1, 2, 3], Name: "test""#);
    assert_eq!(props.len(), 2);
    assert!(props[0].contains("[1, 2, 3]"));
}

#[test]
fn test_normalize_property_key() {
    assert_eq!(
        ArgumentExtractor::normalize_property_key("Bucket"),
        "Bucket"
    );
    assert_eq!(
        ArgumentExtractor::normalize_property_key("\"Bucket\""),
        "Bucket"
    );
    assert_eq!(ArgumentExtractor::normalize_property_key("'Key'"), "Key");
    assert_eq!(
        ArgumentExtractor::normalize_property_key(" Region "),
        "Region"
    );
}

#[test]
fn test_find_property_separator() {
    // Basic case
    assert_eq!(
        ArgumentExtractor::find_property_separator("Bucket: value"),
        Some(6)
    );

    // Colon in string should be ignored
    assert_eq!(
        ArgumentExtractor::find_property_separator(r#"Key: "file:name""#),
        Some(3)
    );

    // Colon in nested object should be ignored
    assert_eq!(
        ArgumentExtractor::find_property_separator("Config: { Mode: 'test' }"),
        Some(6)
    );

    // No separator (shorthand)
    assert_eq!(ArgumentExtractor::find_property_separator("client"), None);
}

#[test]
fn test_empty_object() {
    let params = ArgumentExtractor::parse_object_literal_with_resolution("{}");
    assert!(params.is_empty());

    let params = ArgumentExtractor::parse_object_literal_with_resolution("  {  }  ");
    assert!(params.is_empty());
}

#[test]
fn numeric_literal_grammar_edges() {
    assert!(matches!(
        ArgumentExtractor::classify_value("  42  "),
        ParameterValue::Resolved(s) if s == "42"
    ));
    assert!(matches!(
        ArgumentExtractor::classify_value("5e3"),
        ParameterValue::Resolved(s) if s == "5e3"
    ));
    assert!(matches!(
        ArgumentExtractor::classify_value("-0.5"),
        ParameterValue::Resolved(s) if s == "-0.5"
    ));
    assert!(matches!(
        ArgumentExtractor::classify_value(".5"),
        ParameterValue::Resolved(s) if s == ".5"
    ));
    assert!(matches!(
        ArgumentExtractor::classify_value("NaN"),
        ParameterValue::Resolved(s) if s == "NaN"
    ));
    assert!(matches!(
        ArgumentExtractor::classify_value("1.2.3"),
        ParameterValue::Unresolved(s) if s == "1.2.3"
    ));
    assert!(matches!(
        ArgumentExtractor::classify_value("a.b"),
        ParameterValue::Unresolved(s) if s == "a.b"
    ));
    assert!(matches!(
        ArgumentExtractor::classify_value("5e"),
        ParameterValue::Unresolved(s) if s == "5e"
    ));
}

#[test]
fn spread_properties_are_dropped() {
    let params =
        ArgumentExtractor::parse_object_literal_with_resolution("{ ...config, Bucket: \"b\" }");
    assert_eq!(params.len(), 1);
    let Parameter::Keyword { name, position, .. } = &params[0];
    assert_eq!(name, "Bucket");
    // The spread still counts for the position.
    assert_eq!(*position, 1);
}
