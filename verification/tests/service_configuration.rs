//! Tests of the service-configuration rename tables.

use policy_autopilot::config::{OperationRename, ServiceConfiguration};

#[test]
fn test_service_configuration_rename_methods() {
    let config = ServiceConfiguration {
        rename_services_operation_action_map: vec![(
            "old-service".to_string(),
            "new-service".to_string(),
        )],
        rename_services_service_reference: Vec::new(),
        smithy_botocore_service_name_mapping: Vec::new(),
        rename_operations: vec![(
            "old:Operation".to_string(),
            OperationRename {
                service: "new".to_string(),
                operation: "NewOperation".to_string(),
            },
        )],
        resource_overrides: Vec::new(),
    };

    // Test service renaming
    assert_eq!(
        config.rename_service_operation_action_map("old-service"),
        "new-service"
    );
    assert_eq!(
        config.rename_service_operation_action_map("unchanged-service"),
        "unchanged-service"
    );

    // Test operation renaming
    assert_eq!(config.rename_operation("old", "Operation"), "NewOperation");
    assert_eq!(
        config.rename_operation("unchanged", "Operation"),
        "Operation"
    );
}

#[test]
fn service_reference_rename_falls_back() {
    let config = ServiceConfiguration {
        rename_services_operation_action_map: Vec::new(),
        rename_services_service_reference: vec![(
            "stepfunctions".to_string(),
            "states".to_string(),
        )],
        smithy_botocore_service_name_mapping: Vec::new(),
        rename_operations: Vec::new(),
        resource_overrides: Vec::new(),
    };
    assert_eq!(
        config.rename_service_service_reference("stepfunctions"),
        "states"
    );
    assert_eq!(config.rename_service_service_reference("s3"), "s3");
}
