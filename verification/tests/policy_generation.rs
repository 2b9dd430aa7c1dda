//! Tests of policy generation and merging against the engine's AWS
//! context.

use policy_autopilot::enrichment::{Action, EnrichedSdkMethodCall, Explanation, Resource,
    SdkMethodCall};
use policy_autopilot::context::{AccountResource, AccountResourceContext, TerraformStateContext};
use policy_autopilot::errors::ExtractorError;
use policy_autopilot::policy::{Effect, Engine, PolicyMergerConfig};

fn create_test_sdk_call() -> SdkMethodCall {
    SdkMethodCall {
        name: "get_object".to_string(),
        possible_services: vec!["s3".to_string()],
        metadata: None,
    }
}

#[test]
fn test_complete_policy_generation_flow() {
    // Create policy generation engine
    let engine = Engine::new("aws", "us-east-1", "123456789012");

    // Create test enriched method call (simulating enrichment engine output)
    let sdk_call = create_test_sdk_call();
    let enriched_call = EnrichedSdkMethodCall {
        method_name: "get_object".to_string(),
        service: "s3".to_string(),
        actions: vec![
            Action::new(
                "s3:GetObject".to_string(),
                vec![Resource::new(
                    "object".to_string(),
                    Some(vec![
                        "arn:${Partition}:s3:::${BucketName}/${ObjectName}".to_string()
                    ]),
                )],
                vec![],
                Explanation::default(),
            ),
            Action::new(
                "s3:GetObjectVersion".to_string(),
                vec![Resource::new(
                    "object".to_string(),
                    Some(vec![
                        "arn:${Partition}:s3:::${BucketName}/${ObjectName}".to_string()
                    ]),
                )],
                vec![],
                Explanation::default(),
            ),
        ],
        sdk_method_call: &sdk_call,
    };

    // Generate policies
    let result = engine.generate_policies(&[enriched_call]).unwrap();

    // Verify results
    assert_eq!(result.policies.len(), 1);
    let policy = &result.policies[0].policy;

    // Check policy structure
    assert_eq!(policy.version, "2012-10-17");
    assert_eq!(policy.statements.len(), 2);

    // Check first statement
    let stmt1 = &policy.statements[0];
    assert_eq!(stmt1.effect, Effect::Allow);
    assert_eq!(stmt1.action, vec!["s3:GetObject"]);
    assert_eq!(stmt1.resource, vec!["arn:aws:s3:::*/*"]);
    assert_eq!(stmt1.sid, Some("AllowS3GetObject".to_string()));

    // Check second statement
    let stmt2 = &policy.statements[1];
    assert_eq!(stmt2.effect, Effect::Allow);
    assert_eq!(stmt2.action, vec!["s3:GetObjectVersion"]);
    assert_eq!(stmt2.resource, vec!["arn:aws:s3:::*/*"]);
    assert_eq!(stmt2.sid, Some("AllowS3GetObjectVersion1".to_string()));
}

#[test]
fn test_multiple_enriched_calls_generate_multiple_policies() {
    let engine = Engine::new("aws", "us-west-2", "987654321098");

    let sdk_call1 = SdkMethodCall {
        name: "get_object".to_string(),
        possible_services: vec!["s3".to_string()],
        metadata: None,
    };

    let sdk_call2 = SdkMethodCall {
        name: "put_object".to_string(),
        possible_services: vec!["s3".to_string()],
        metadata: None,
    };

    let enriched_calls = vec![
        EnrichedSdkMethodCall {
            method_name: "get_object".to_string(),
            service: "s3".to_string(),
            actions: vec![Action::new(
                "s3:GetObject".to_string(),
                vec![Resource::new(
                    "object".to_string(),
                    Some(vec![
                        "arn:${Partition}:s3:::${BucketName}/${ObjectName}".to_string()
                    ]),
                )],
                vec![],
                Explanation::default(),
            )],
            sdk_method_call: &sdk_call1,
        },
        EnrichedSdkMethodCall {
            method_name: "put_object".to_string(),
            service: "s3".to_string(),
            actions: vec![Action::new(
                "s3:PutObject".to_string(),
                vec![Resource::new(
                    "object".to_string(),
                    Some(vec![
                        "arn:${Partition}:s3:::${BucketName}/${ObjectName}".to_string()
                    ]),
                )],
                vec![],
                Explanation::default(),
            )],
            sdk_method_call: &sdk_call2,
        },
    ];

    let result = engine.generate_policies(&enriched_calls).unwrap();

    // Should generate one policy per enriched call
    assert_eq!(result.policies.len(), 2);

    // Check first policy
    let policy1 = &result.policies[0].policy;
    assert_eq!(policy1.statements.len(), 1);
    assert_eq!(policy1.statements[0].action, vec!["s3:GetObject"]);
    assert_eq!(policy1.statements[0].resource, vec!["arn:aws:s3:::*/*"]);

    // Check second policy
    let policy2 = &result.policies[1].policy;
    assert_eq!(policy2.statements.len(), 1);
    assert_eq!(policy2.statements[0].action, vec!["s3:PutObject"]);
    assert_eq!(policy2.statements[0].resource, vec!["arn:aws:s3:::*/*"]);
}

#[test]
fn test_complex_arn_patterns_with_different_aws_contexts() {
    // Test with China partition
    let engine = Engine::new("aws-cn", "cn-north-1", "123456789012");

    let sdk_call = create_test_sdk_call();
    let enriched_call = EnrichedSdkMethodCall {
        method_name: "get_object".to_string(),
        service: "s3".to_string(),
        actions: vec![
            Action::new(
                "s3:GetObject".to_string(),
                vec![
                    Resource::new(
                        "accesspoint".to_string(),
                        Some(vec![
                            "arn:${Partition}:s3:${Region}:${Account}:accesspoint/${AccessPointName}".to_string()
                        ])
                    ),
                    Resource::new(
                        "object".to_string(),
                        Some(vec![
                            "arn:${Partition}:s3:::${BucketName}/${ObjectName}".to_string()
                        ])
                    )
                ],
                vec![],
                Explanation::default(),
            )
        ],
        sdk_method_call: &sdk_call,
    };

    let result = engine.generate_policies(&[enriched_call]).unwrap();
    let policy = &result.policies[0].policy;
    let statement = &policy.statements[0];

    // Verify ARN patterns are correctly processed for China partition
    assert_eq!(
        statement.resource,
        vec![
            "arn:aws-cn:s3:cn-north-1:123456789012:accesspoint/*",
            "arn:aws-cn:s3:::*/*"
        ]
    );
}

#[test]
fn test_policy_json_serialization() {
    let engine = Engine::new("aws", "us-east-1", "123456789012");

    let sdk_call = create_test_sdk_call();
    let enriched_call = EnrichedSdkMethodCall {
        method_name: "get_object".to_string(),
        service: "s3".to_string(),
        actions: vec![Action::new(
            "s3:GetObject".to_string(),
            vec![Resource::new(
                "object".to_string(),
                Some(vec![
                    "arn:${Partition}:s3:::${BucketName}/${ObjectName}".to_string()
                ]),
            )],
            vec![],
            Explanation::default(),
        )],
        sdk_method_call: &sdk_call,
    };

    let result = engine.generate_policies(&[enriched_call]).unwrap();
    let policy = &result.policies[0];

    // Render the policy document as JSON
    let json = policy.policy.to_json(true);

    // Verify JSON structure (flexible formatting)
    assert!(json.contains("\"Version\": \"2012-10-17\""));
    assert!(json.contains("\"Effect\": \"Allow\""));
    assert!(json.contains("\"s3:GetObject\""));
    assert!(json.contains("\"arn:aws:s3:::*/*\""));
    assert!(json.contains("\"Sid\": \"AllowS3GetObject\""));
}

#[test]
fn test_invalid_arn_pattern_handling() {
    let engine = Engine::new("aws", "us-east-1", "123456789012");

    let sdk_call = create_test_sdk_call();
    let enriched_call = EnrichedSdkMethodCall {
        method_name: "get_object".to_string(),
        service: "s3".to_string(),
        actions: vec![Action::new(
            "s3:GetObject".to_string(),
            vec![Resource::new(
                "object".to_string(),
                Some(vec![
                    "arn:${Partition}:s3:${}:bucket/${ObjectName}".to_string()
                ]), // Invalid empty placeholder
            )],
            vec![],
            Explanation::default(),
        )],
        sdk_method_call: &sdk_call,
    };

    // Should fail due to empty placeholder
    let result = engine.generate_policies(&[enriched_call]);
    assert!(result.is_err());

    if let Err(ExtractorError::PolicyGeneration { message, .. }) = result {
        assert!(message.contains("empty placeholder"));
    } else {
        panic!("Expected PolicyGeneration error for invalid ARN pattern");
    }
}

#[test]
fn test_no_arn_patterns_fallback_to_wildcard() {
    let engine = Engine::new("aws", "us-east-1", "123456789012");

    let sdk_call = create_test_sdk_call();
    let enriched_call = EnrichedSdkMethodCall {
        method_name: "list_buckets".to_string(),
        service: "s3".to_string(),
        actions: vec![Action::new(
            "s3:ListAllMyBuckets".to_string(),
            vec![Resource::new("*".to_string(), None)], // No ARN patterns
            vec![],
            Explanation::default(),
        )],
        sdk_method_call: &sdk_call,
    };

    let result = engine.generate_policies(&[enriched_call]).unwrap();
    let policy = &result.policies[0].policy;
    let statement = &policy.statements[0];

    // Should fallback to wildcard resource
    assert_eq!(statement.resource, vec!["*"]);
    assert_eq!(statement.action, vec!["s3:ListAllMyBuckets"]);
}

#[test]
fn empty_call_list_yields_empty_policy_list() {
    let engine = Engine::new("aws", "us-east-1", "123456789012");
    let result = engine.generate_policies(&[]).unwrap();
    assert!(result.policies.is_empty());
    let merged = engine.merge_policies(&result.policies).unwrap();
    assert!(merged.is_empty());
}

fn enriched_for<'a>(
    call: &'a SdkMethodCall,
    service: &str,
    action: &str,
) -> EnrichedSdkMethodCall<'a> {
    EnrichedSdkMethodCall {
        method_name: call.name.clone(),
        service: service.to_string(),
        actions: vec![Action::new(
            action.to_string(),
            vec![Resource::new("*".to_string(), None)],
            vec![],
            Explanation::default(),
        )],
        sdk_method_call: call,
    }
}

#[test]
fn generation_twice_yields_identical_json() {
    let engine = Engine::new("aws", "us-east-1", "123456789012");
    let sdk_call = create_test_sdk_call();
    let call = enriched_for(&sdk_call, "s3", "s3:GetObject");
    let call2 = enriched_for(&sdk_call, "s3", "s3:GetObject");
    let first = engine.generate_policies(&[call]).unwrap();
    let second = engine.generate_policies(&[call2]).unwrap();
    let json1 = first.policies[0].policy.to_json(false);
    let json2 = second.policies[0].policy.to_json(false);
    assert_eq!(json1, json2);
}

#[test]
fn duplicate_action_resource_pairs_collapse_to_one_statement() {
    let engine = Engine::new("aws", "us-east-1", "123456789012");
    let sdk_call = create_test_sdk_call();
    // One call whose two actions are the identical (action, resource) pair.
    let enriched_call = EnrichedSdkMethodCall {
        method_name: "get_object".to_string(),
        service: "s3".to_string(),
        actions: vec![
            Action::new(
                "s3:GetObject".to_string(),
                vec![Resource::new("*".to_string(), None)],
                vec![],
                Explanation::default(),
            ),
            Action::new(
                "s3:GetObject".to_string(),
                vec![Resource::new("*".to_string(), None)],
                vec![],
                Explanation::default(),
            ),
        ],
        sdk_method_call: &sdk_call,
    };
    let result = engine.generate_policies(&[enriched_call]).unwrap();
    assert_eq!(result.policies[0].policy.statements.len(), 1);

    // Two calls with the identical pair, then merged: one statement.
    let c1 = enriched_for(&sdk_call, "s3", "s3:GetObject");
    let c2 = enriched_for(&sdk_call, "s3", "s3:GetObject");
    let generated = engine.generate_policies(&[c1, c2]).unwrap();
    let merged = engine.merge_policies(&generated.policies).unwrap();
    assert_eq!(merged.len(), 1);
    assert_eq!(merged[0].policy.statements.len(), 1);
    assert_eq!(merged[0].policy.statements[0].action, vec!["s3:GetObject"]);
}

#[test]
fn merge_keeps_services_apart_unless_allowed() {
    let sdk_call = create_test_sdk_call();
    let c1 = enriched_for(&sdk_call, "s3", "s3:GetObject");
    let c2 = enriched_for(&sdk_call, "sqs", "sqs:SendMessage");

    let engine = Engine::new("aws", "us-east-1", "123456789012");
    let generated = engine.generate_policies(&[c1, c2]).unwrap();

    // Off by default: one document per service, nothing merged across.
    let merged = engine.merge_policies(&generated.policies).unwrap();
    assert_eq!(merged.len(), 2);
    assert_eq!(merged[0].service, "s3");
    assert_eq!(merged[0].policy.statements[0].action, vec!["s3:GetObject"]);
    assert_eq!(merged[1].service, "sqs");
    assert_eq!(
        merged[1].policy.statements[0].action,
        vec!["sqs:SendMessage"]
    );

    // Opted in: a single document whose statement takes the union.
    let cross = Engine::with_config(
        "aws",
        "us-east-1",
        "123456789012",
        PolicyMergerConfig {
            allow_cross_service_merging: true,
        },
        false,
        false,
    );
    let merged_cross = cross.merge_policies(&generated.policies).unwrap();
    assert_eq!(merged_cross.len(), 1);
    assert_eq!(merged_cross[0].policy.statements.len(), 1);
    assert_eq!(
        merged_cross[0].policy.statements[0].action,
        vec!["s3:GetObject", "sqs:SendMessage"]
    );
}

#[test]
fn single_context_arn_replaces_wildcarded_expansion() {
    let engine = Engine::new("aws", "us-east-1", "123456789012");
    let sdk_call = create_test_sdk_call();
    let build_call = || EnrichedSdkMethodCall {
        method_name: "get_object".to_string(),
        service: "s3".to_string(),
        actions: vec![Action::new(
            "s3:GetObject".to_string(),
            vec![Resource::new(
                "object".to_string(),
                Some(vec![
                    "arn:${Partition}:s3:::${BucketName}/${ObjectName}".to_string()
                ]),
            )],
            vec![],
            Explanation::default(),
        )],
        sdk_method_call: &sdk_call,
    };

    // Exactly one context ARN under s3:object: it stands in.
    let account = AccountResourceContext {
        resource_map: vec![(
            "s3:object".to_string(),
            vec![AccountResource {
                arn: "arn:aws:s3:::known-bucket/known-key".to_string(),
            }],
        )],
    };
    let empty_tf = TerraformStateContext {
        resource_arns: Vec::new(),
    };
    let result = engine
        .generate_policies_with_context(&[build_call()], &account, &empty_tf)
        .unwrap();
    assert_eq!(
        result.policies[0].policy.statements[0].resource,
        vec!["arn:aws:s3:::known-bucket/known-key"]
    );

    // Two candidates are ambiguous: the wildcards stay.
    let ambiguous = AccountResourceContext {
        resource_map: vec![(
            "s3:object".to_string(),
            vec![
                AccountResource {
                    arn: "arn:aws:s3:::one/k".to_string(),
                },
                AccountResource {
                    arn: "arn:aws:s3:::two/k".to_string(),
                },
            ],
        )],
    };
    let result2 = engine
        .generate_policies_with_context(&[build_call()], &ambiguous, &empty_tf)
        .unwrap();
    assert_eq!(
        result2.policies[0].policy.statements[0].resource,
        vec!["arn:aws:s3:::*/*"]
    );
}

#[test]
fn merge_union_is_order_independent() {
    let sdk_call = create_test_sdk_call();
    let c1 = enriched_for(&sdk_call, "s3", "s3:GetObject");
    let c2 = enriched_for(&sdk_call, "s3", "s3:PutObject");
    let engine = Engine::new("aws", "us-east-1", "123456789012");

    let ab = engine.generate_policies(&[
        enriched_for(&sdk_call, "s3", "s3:GetObject"),
        enriched_for(&sdk_call, "s3", "s3:PutObject"),
    ]);
    let ba = engine.generate_policies(&[c2, c1]);
    let merged_ab = engine.merge_policies(&ab.unwrap().policies).unwrap();
    let merged_ba = engine.merge_policies(&ba.unwrap().policies).unwrap();

    let mut actions_ab = merged_ab[0].policy.statements[0].action.clone();
    let mut actions_ba = merged_ba[0].policy.statements[0].action.clone();
    actions_ab.sort();
    actions_ba.sort();
    assert_eq!(actions_ab, actions_ba);
}
