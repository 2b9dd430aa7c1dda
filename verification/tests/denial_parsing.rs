//! Tests of the AccessDenied message parser and the single-statement
//! synthesis path.

use policy_autopilot::denial::{
    build_inline_allow, build_single_statement, parse, ApplyError, DenialType,
};
use policy_autopilot::policy::Effect;

#[test]
fn test_parsing_sample_message() {
    let msg = "User: arn:aws:iam::123456789012:user/testuser is not authorized to perform: s3:GetObject on resource: arn:aws:s3:::my-bucket/my-key";
    let parsed = parse(msg).expect("should parse");
    assert_eq!(parsed.action, "s3:GetObject");
    assert_eq!(parsed.resource, "arn:aws:s3:::my-bucket/my-key");
    assert_eq!(
        parsed.principal_arn,
        "arn:aws:iam::123456789012:user/testuser"
    );
}

#[test]
fn test_parsing_sample_message_eusc() {
    let msg = "botocore.exceptions.ClientError: An error occurred (AccessDenied) when calling the GetMetricStatistics operation: User: arn:aws-eusc:iam::123456789012:user/testuser is not authorized to perform: s3:GetObject on resource: arn:aws:s3:::my-bucket/my-key";
    let parsed = parse(msg).expect("should parse");
    assert_eq!(parsed.action, "s3:GetObject");
    assert_eq!(parsed.resource, "arn:aws:s3:::my-bucket/my-key");
    assert_eq!(
        parsed.principal_arn,
        "arn:aws-eusc:iam::123456789012:user/testuser"
    );
}

#[test]
fn test_parsing_sample_message_cn() {
    let msg = "Error: an error occurred invoking 'context deploy'
            with variables: {contexts:[] deployAll:false}
            caused by: 1 context deployment failures
            suggestion: To resolve failure 1, determine the cause of: operation error ECR: ListImages, https response error StatusCode: 400, RequestID: xxx, api error AccessDeniedException: User: arn:aws-cn:iam::680431765560:user/auser is not authorized to perform: ecr:ListImages on resource: arn:aws-cn:ecr:cn-northwest-1:680431765560:repository/aws/cromwell-mirror because no resource-based policy allows the ecr:ListImages action";
    let parsed = parse(msg).expect("should parse");
    assert_eq!(parsed.action, "ecr:ListImages");
    assert_eq!(
        parsed.resource,
        "arn:aws-cn:ecr:cn-northwest-1:680431765560:repository/aws/cromwell-mirror"
    );
    assert_eq!(
        parsed.principal_arn,
        "arn:aws-cn:iam::680431765560:user/auser"
    );
}

#[test]
fn plain_denial_is_implicit_identity() {
    let msg = "User: arn:aws:iam::123456789012:user/testuser is not authorized to perform: s3:GetObject on resource: arn:aws:s3:::my-bucket/my-key";
    let parsed = parse(msg).expect("should parse");
    assert_eq!(parsed.denial_type, DenialType::ImplicitIdentity);
}

#[test]
fn resource_policy_phrasing_is_classified() {
    let msg = "User: arn:aws:iam::123456789012:user/u is not authorized to perform: s3:GetObject on resource: arn:aws:s3:::b/k because no resource-based policy allows the s3:GetObject action";
    let parsed = parse(msg).expect("should parse");
    assert_eq!(parsed.denial_type, DenialType::ResourcePolicy);
}

#[test]
fn explicit_deny_phrasing_is_classified() {
    let msg = "User: arn:aws:iam::123456789012:user/u is not authorized to perform: s3:GetObject on resource: arn:aws:s3:::b/k with an explicit deny in an identity-based policy";
    let parsed = parse(msg).expect("should parse");
    assert_eq!(parsed.denial_type, DenialType::ExplicitIdentity);
}

#[test]
fn identity_policy_phrasing_is_implicit() {
    let msg = "User: arn:aws:iam::123456789012:user/u is not authorized to perform: s3:GetObject on resource: arn:aws:s3:::b/k because no identity-based policy allows the s3:GetObject action";
    let parsed = parse(msg).expect("should parse");
    assert_eq!(parsed.denial_type, DenialType::ImplicitIdentity);
}

#[test]
fn message_without_triple_fails() {
    let result = parse("something went wrong, access denied");
    assert!(result.is_err());
}

#[test]
fn single_statement_allows_the_pair() {
    let st = build_single_statement("s3:GetObject", "arn:aws:s3:::my-bucket/my-key");
    assert_eq!(st.effect, Effect::Allow);
    assert_eq!(st.action, vec!["s3:GetObject"]);
    assert_eq!(st.resource, vec!["arn:aws:s3:::my-bucket/my-key"]);
    assert!(st.sid.is_none());
}

#[test]
fn inline_allow_detects_duplicate() {
    let doc = build_inline_allow(&None, "s3:GetObject", "arn:aws:s3:::b/k").unwrap();
    assert_eq!(doc.version, "2012-10-17");
    assert_eq!(doc.statements.len(), 1);
    let again = build_inline_allow(&Some(doc), "s3:GetObject", "arn:aws:s3:::b/k");
    match again {
        Err(ApplyError::DuplicateStatement { action, resource }) => {
            assert_eq!(action, "s3:GetObject");
            assert_eq!(resource, "arn:aws:s3:::b/k");
        }
        _ => panic!("expected the duplicate-statement condition"),
    }
}
