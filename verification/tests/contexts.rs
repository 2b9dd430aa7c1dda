//! Tests of ARNs, templates, resource contexts, the catalog walks and
//! the enrichment resolution.

use policy_autopilot::analysis::{join_names, unique_call_names};
use policy_autopilot::arn::{substitute_template, Arn, ArnTemplateInfo};
use policy_autopilot::catalog::{
    collect_input_members, get_action_details, AuthorizedAction, OperationShape, RefAction,
    ServiceDefinition, ServiceReference, ServiceReferenceOperation, SdkMethod, Shape, ShapeRef,
};
use policy_autopilot::config::ServiceConfiguration;
use policy_autopilot::context::{
    group_account_resources, JsonValue, TerraformStateContext,
};
use policy_autopilot::enrichment::{enrich_method_call, SdkMethodCall};
use policy_autopilot::errors::ExtractorError;

#[test]
fn arn_parts_are_read_off() {
    let arn = Arn::new("arn:aws:s3:us-east-1:123456789012:bucket/key".to_string());
    assert_eq!(arn.service, "s3");
    assert_eq!(arn.resource_type, "bucket");
    let wild = Arn::new("*".to_string());
    assert_eq!(wild.service, "*");
    assert_eq!(wild.resource_type, "*");
}

#[test]
fn template_variables_exclude_context_keywords() {
    let info = ArnTemplateInfo::new(
        "arn:${Partition}:s3:${Region}:${Account}:accesspoint/${AccessPointName}".to_string(),
    );
    assert_eq!(
        info.arn_template,
        "arn:${Partition}:s3:${Region}:${Account}:accesspoint/${AccessPointName}"
    );
    assert_eq!(info.arn_variables, vec!["AccessPointName"]);
}

#[test]
fn substitution_honors_context_case_insensitively() {
    let args: Vec<(String, String)> = Vec::new();
    let out = substitute_template(
        "arn:${PARTITION}:s3:${region}:${Account}:bucket/${BucketName}",
        "aws-cn",
        "cn-north-1",
        "123456789012",
        &args,
    );
    assert_eq!(
        out,
        Some("arn:aws-cn:s3:cn-north-1:123456789012:bucket/*".to_string())
    );
}

#[test]
fn unterminated_placeholder_stays_literal() {
    let args: Vec<(String, String)> = Vec::new();
    let out = substitute_template("arn:${Partition}:s3:::${Bucket", "aws", "r", "a", &args);
    assert_eq!(out, Some("arn:aws:s3:::${Bucket".to_string()));
}

#[test]
fn substitution_rejects_empty_placeholder() {
    let args: Vec<(String, String)> = Vec::new();
    let out = substitute_template("arn:${Partition}:s3:${}:x", "aws", "r", "a", &args);
    assert_eq!(out, None);
}

#[test]
fn substitution_prefers_literal_arguments() {
    // Argument keys are matched with case, hyphens and underscores
    // disregarded; unmatched variables degrade to the wildcard.
    let args = vec![("bucketname".to_string(), "my-bucket".to_string())];
    let out = substitute_template(
        "arn:${Partition}:s3:::${BucketName}/${ObjectName}",
        "aws",
        "us-east-1",
        "123456789012",
        &args,
    );
    assert_eq!(out, Some("arn:aws:s3:::my-bucket/*".to_string()));
}

fn state_with(resources: Vec<JsonValue>) -> JsonValue {
    JsonValue::Object(vec![(
        "values".to_string(),
        JsonValue::Object(vec![(
            "root_module".to_string(),
            JsonValue::Object(vec![(
                "resources".to_string(),
                JsonValue::Array(resources),
            )]),
        )]),
    )])
}

fn state_resource(arn: &str) -> JsonValue {
    JsonValue::Object(vec![(
        "values".to_string(),
        JsonValue::Object(vec![(
            "arn".to_string(),
            JsonValue::Text(arn.to_string()),
        )]),
    )])
}

#[test]
fn terraform_state_groups_arns_by_service_and_type() {
    let state = state_with(vec![
        state_resource("arn:aws:dynamodb:us-east-1:123456789012:table/t1"),
        state_resource("arn:aws:dynamodb:us-east-1:123456789012:table/t2"),
        state_resource("arn:aws:sqs:us-east-1:123456789012:queue1"),
    ]);
    let ctx = TerraformStateContext::read_from_terraform_state(&state, "{}").unwrap();
    assert_eq!(ctx.resource_arns.len(), 2);
    assert_eq!(ctx.resource_arns[0].0, "dynamodb:table");
    assert_eq!(ctx.resource_arns[0].1.len(), 2);
    assert_eq!(ctx.resource_arns[1].0, "sqs:queue1");
    assert_eq!(ctx.resource_arns[1].1[0].arn, "arn:aws:sqs:us-east-1:123456789012:queue1");
}

#[test]
fn terraform_state_names_the_missing_field() {
    let state = JsonValue::Object(vec![("other".to_string(), JsonValue::Null)]);
    let err = TerraformStateContext::read_from_terraform_state(&state, "raw output").unwrap_err();
    match err {
        ExtractorError::TerraformStateParseError {
            message,
            terraform_state,
        } => {
            assert_eq!(
                message,
                "Terraform show object does not have values field"
            );
            assert_eq!(terraform_state, "raw output");
        }
        _ => panic!("expected the state parse error"),
    }

    let not_map = JsonValue::Array(vec![]);
    let err2 = TerraformStateContext::read_from_terraform_state(&not_map, "x").unwrap_err();
    match err2 {
        ExtractorError::TerraformStateParseError { message, .. } => {
            assert_eq!(message, "Terraform show object is not a map");
        }
        _ => panic!("expected the state parse error"),
    }
}

#[test]
fn account_resources_group_by_type() {
    let items = vec![
        (
            Some("s3:bucket".to_string()),
            Some("arn:aws:s3:::one".to_string()),
        ),
        (None, Some("arn:aws:s3:::dropped".to_string())),
        (
            Some("s3:bucket".to_string()),
            Some("arn:aws:s3:::two".to_string()),
        ),
        (Some("sqs:queue".to_string()), None),
    ];
    let ctx = group_account_resources(&items);
    assert_eq!(ctx.resource_map.len(), 1);
    assert_eq!(ctx.resource_map[0].0, "s3:bucket");
    assert_eq!(ctx.resource_map[0].1.len(), 2);
    assert_eq!(ctx.resource_map[0].1[1].arn, "arn:aws:s3:::two");
}

fn sample_definition() -> ServiceDefinition {
    ServiceDefinition {
        operations: vec![
            (
                "GetObject".to_string(),
                OperationShape {
                    input: Some(ShapeRef {
                        shape: "GetObjectRequest".to_string(),
                    }),
                },
            ),
            ("ListBuckets".to_string(), OperationShape { input: None }),
        ],
        shapes: vec![
            (
                "GetObjectRequest".to_string(),
                Shape {
                    shape_type: "structure".to_string(),
                    members: vec![
                        (
                            "Bucket".to_string(),
                            ShapeRef {
                                shape: "BucketName".to_string(),
                            },
                        ),
                        (
                            "Key".to_string(),
                            ShapeRef {
                                shape: "ObjectKey".to_string(),
                            },
                        ),
                    ],
                    required: Some(vec!["Bucket".to_string()]),
                },
            ),
            (
                "BucketName".to_string(),
                Shape {
                    shape_type: "string".to_string(),
                    members: Vec::new(),
                    required: None,
                },
            ),
        ],
    }
}

#[test]
fn input_members_record_requiredness_and_types() {
    let def = sample_definition();
    let members = collect_input_members("s3", "2006-03-01", &def).unwrap();
    assert_eq!(members.len(), 2);
    assert_eq!(members[0].member_name, "Bucket");
    assert!(members[0].is_required);
    assert_eq!(members[0].member_shape_type, "string");
    assert_eq!(members[1].member_name, "Key");
    assert!(!members[1].is_required);
    assert_eq!(members[1].member_shape_type, "unknown");
}

#[test]
fn non_structure_input_shape_is_an_error() {
    let def = ServiceDefinition {
        operations: vec![(
            "GetObject".to_string(),
            OperationShape {
                input: Some(ShapeRef {
                    shape: "BucketName".to_string(),
                }),
            },
        )],
        shapes: vec![(
            "BucketName".to_string(),
            Shape {
                shape_type: "string".to_string(),
                members: Vec::new(),
                required: None,
            },
        )],
    };
    let err = collect_input_members("s3", "2006-03-01", &def).unwrap_err();
    let text = err.message();
    assert!(text.contains("to be a structure"));
    assert!(text.contains("s3:GetObject"));
}

fn sample_reference() -> ServiceReference {
    ServiceReference {
        service_name: "s3".to_string(),
        actions: vec![(
            "GetObject".to_string(),
            RefAction {
                name: "GetObject".to_string(),
                resources: vec!["object".to_string(), "missing".to_string()],
                condition_keys: Vec::new(),
            },
        )],
        resources: vec![(
            "object".to_string(),
            vec!["arn:${Partition}:s3:::${BucketName}/${ObjectName}".to_string()],
        )],
        operation_to_authorized_actions: Some(vec![(
            "GetObject".to_string(),
            ServiceReferenceOperation {
                sdk: vec![SdkMethod {
                    name: "get_object".to_string(),
                }],
                authorized_actions: vec![AuthorizedAction {
                    service: "s3".to_string(),
                    name: "GetObject".to_string(),
                }],
            },
        )]),
    }
}

#[test]
fn test_get_action_details() {
    let service_ref = sample_reference();
    let enriched_action = get_action_details(&service_ref, "s3:GetObject");
    assert!(
        enriched_action.is_some(),
        "Should find GetObject action for s3"
    );
    let enriched_action = enriched_action.unwrap();
    assert_eq!(enriched_action.action.name, "GetObject");
    let details = enriched_action
        .resource_details
        .expect("Should have resource details when action has resources");
    assert_eq!(details.len(), 1);
    assert_eq!(details[0].name, "object");
    assert_eq!(details[0].arn[0].arn_variables, vec!["BucketName", "ObjectName"]);
}

#[test]
fn test_get_action_details_nonexistent() {
    let service_ref = sample_reference();
    let action = get_action_details(&service_ref, "s3:NonExistentAction");
    assert!(action.is_none(), "Should not find non-existent action");
}

#[test]
fn enrichment_keeps_every_validated_candidate() {
    let call = SdkMethodCall {
        name: "get_object".to_string(),
        possible_services: vec!["s3".to_string(), "nosuch".to_string()],
        metadata: None,
    };
    let catalog = vec![("s3".to_string(), sample_reference())];
    let config = ServiceConfiguration {
        rename_services_operation_action_map: Vec::new(),
        rename_services_service_reference: Vec::new(),
        smithy_botocore_service_name_mapping: Vec::new(),
        rename_operations: Vec::new(),
        resource_overrides: Vec::new(),
    };
    let enriched = enrich_method_call(&call, &catalog, &config);
    assert_eq!(enriched.len(), 1);
    assert_eq!(enriched[0].service, "s3");
    assert_eq!(enriched[0].actions.len(), 1);
    assert_eq!(enriched[0].actions[0].name, "s3:GetObject");
    let resources = &enriched[0].actions[0].resources;
    assert_eq!(resources.len(), 2);
    assert_eq!(resources[0].resource_type_name, "object");
    assert!(resources[0].arn_templates.is_some());
    assert!(resources[1].arn_templates.is_none());
}

#[test]
fn test_file_system_error_creation() {
    let error = ExtractorError::file_system("read", "/path/to/file", "File not found");
    assert!(matches!(error, ExtractorError::FileSystem { .. }));
    assert!(error.message().contains("read"));
    assert!(error.message().contains("/path/to/file"));
}

#[test]
fn call_names_are_deduplicated_and_joined() {
    let calls = vec![
        SdkMethodCall {
            name: "get_object".to_string(),
            possible_services: Vec::new(),
            metadata: None,
        },
        SdkMethodCall {
            name: "put_object".to_string(),
            possible_services: Vec::new(),
            metadata: None,
        },
        SdkMethodCall {
            name: "get_object".to_string(),
            possible_services: Vec::new(),
            metadata: None,
        },
    ];
    let names = unique_call_names(&calls);
    assert_eq!(names, vec!["get_object", "put_object"]);
    assert_eq!(join_names(&names), "get_object, put_object");
}
