//! Error types of the extraction, enrichment and policy-generation
//! stages.
//!
//! Each variant carries its context as plain strings; `message` renders
//! the human-readable text that belongs to the variant.

use vstd::prelude::*;
use vstd::string::StringExecFns;

verus! {

/// Errors of the SDK-call extraction and policy-generation pipeline.
#[derive(Debug)]
pub enum ExtractorError {
    /// A file-system operation failed.
    FileSystem { operation: String, path: String, source: String },
    /// JSON text could not be parsed.
    JsonParsing { context: String, source: String },
    /// A file's extension maps to no supported language.
    UnsupportedFileLanguage { path: String, extension: String },
    /// The requested language is not supported.
    UnsupportedLanguage { language: String },
    /// Configuration was invalid.
    Configuration { message: String },
    /// User-provided input failed validation.
    Validation { message: String, field: Option<String> },
    /// SDK-specific processing failed.
    SdkProcessing { sdk_name: String, message: String },
    /// A file could not be parsed as the declared language.
    MethodExtraction { language: String, path: String, message: String },
    /// An operation-FAS map is missing for a service.
    OperationFasMapNotFound { service_name: String, path: String },
    /// An operation-FAS map could not be parsed.
    OperationFasMapParseError { service_name: String, message: String },
    /// An operation-action map is missing for a service.
    OperationActionMapNotFound { service_name: String, path: String },
    /// An operation-action map could not be parsed.
    OperationActionMapParseError { service_name: String, message: String },
    /// A service reference is missing for a service.
    ServiceReferenceNotFound { service_name: String, path: String },
    /// A service reference could not be parsed.
    ServiceReferenceParseError { service_name: String, message: String },
    /// Resource matching failed for a service.
    ResourceMatchError { service_name: String, message: String },
    /// Enrichment failed for a service.
    EnrichmentError { service_name: String, message: String },
    /// Policy generation failed.
    PolicyGeneration { message: String },
    /// User-supplied service hints do not exist.
    InvalidServiceHints { suggestions: String },
    /// The account resource context could not be fetched.
    AccountResourceContext { message: String },
    /// The external state command failed.
    TerraformStateCommandError { command: String, message: String },
    /// The state output could not be parsed.
    TerraformStateParseError { message: String, terraform_state: String },
    /// State extraction failed.
    TerraformStateError { message: String },
}

impl ExtractorError {
    /// The rendered message of each variant.
    pub open spec fn message_spec(&self) -> Seq<char> {
        match self {
            ExtractorError::FileSystem { operation, path, source } =>
                "File system error during "@ + operation@ + " on path '"@ + path@ + "': "@
                    + source@,
            ExtractorError::JsonParsing { context, source } =>
                "JSON parsing error in "@ + context@ + ": "@ + source@,
            ExtractorError::UnsupportedFileLanguage { path, extension } =>
                "Unsupported language for file '"@ + path@ + "' with extension '"@ + extension@
                    + "'. Supported languages: Python, TypeScript, JavaScript, Go"@,
            ExtractorError::UnsupportedLanguage { language } =>
                "Unsupported language. Supported languages: Python, TypeScript, JavaScript, Go"@,
            ExtractorError::Configuration { message } => "Configuration error: "@ + message@,
            ExtractorError::Validation { message, field } => "Validation error: "@ + message@,
            ExtractorError::SdkProcessing { sdk_name, message } =>
                "SDK processing error for '"@ + sdk_name@ + "': "@ + message@,
            ExtractorError::MethodExtraction { language, path, message } =>
                "Method extraction failed for '"@ + language@ + "' in file '"@ + path@ + "': "@
                    + message@,
            ExtractorError::OperationFasMapNotFound { service_name, path } =>
                "OperationFas map not found for service '"@ + service_name@ + "' at path '"@
                    + path@ + "'"@,
            ExtractorError::OperationFasMapParseError { service_name, message } =>
                "Failed to parse OperationFas map for service '"@ + service_name@ + "': "@
                    + message@,
            ExtractorError::OperationActionMapNotFound { service_name, path } =>
                "OperationAction map not found for service '"@ + service_name@ + "' at path '"@
                    + path@ + "'"@,
            ExtractorError::OperationActionMapParseError { service_name, message } =>
                "Failed to parse OperationAction map for service '"@ + service_name@ + "': "@
                    + message@,
            ExtractorError::ServiceReferenceNotFound { service_name, path } =>
                "Service Reference not found for service '"@ + service_name@ + "' at path '"@
                    + path@ + "'"@,
            ExtractorError::ServiceReferenceParseError { service_name, message } =>
                "Failed to parse Service Reference for service '"@ + service_name@ + "': "@
                    + message@,
            ExtractorError::ResourceMatchError { service_name, message } =>
                "Resource matching error for service '"@ + service_name@ + "': "@ + message@,
            ExtractorError::EnrichmentError { service_name, message } =>
                "Enrichment error for service '"@ + service_name@ + "': "@ + message@,
            ExtractorError::PolicyGeneration { message } =>
                "Policy generation error: "@ + message@,
            ExtractorError::InvalidServiceHints { suggestions } =>
                "Provided service hints do not exist:\n"@ + suggestions@,
            ExtractorError::AccountResourceContext { message } =>
                "Fetching account resource context error: "@ + message@,
            ExtractorError::TerraformStateCommandError { command, message } =>
                "Error performing terraform state command `"@ + command@ + "`: "@ + message@,
            ExtractorError::TerraformStateParseError { message, terraform_state } =>
                "Failed to parse terraform state: "@ + message@ + ". Terraform output: "@
                    + terraform_state@,
            ExtractorError::TerraformStateError { message } =>
                "Failed to extract terraform state: "@ + message@,
        }
    }

    /// Renders the message of this error.
    pub fn message(&self) -> (r: String)
        ensures
            r@ == self.message_spec(),
    {
        match self {
            ExtractorError::FileSystem { operation, path, source } => {
                let mut m = String::from_str("File system error during ");
                m.append(operation.as_str());
                m.append(" on path '");
                m.append(path.as_str());
                m.append("': ");
                m.append(source.as_str());
                m
            },
            ExtractorError::JsonParsing { context, source } => {
                let mut m = String::from_str("JSON parsing error in ");
                m.append(context.as_str());
                m.append(": ");
                m.append(source.as_str());
                m
            },
            ExtractorError::UnsupportedFileLanguage { path, extension } => {
                let mut m = String::from_str("Unsupported language for file '");
                m.append(path.as_str());
                m.append("' with extension '");
                m.append(extension.as_str());
                m.append("'. Supported languages: Python, TypeScript, JavaScript, Go");
                m
            },
            ExtractorError::UnsupportedLanguage { language } => {
                String::from_str(
                    "Unsupported language. Supported languages: Python, TypeScript, JavaScript, Go",
                )
            },
            ExtractorError::Configuration { message } => {
                let mut m = String::from_str("Configuration error: ");
                m.append(message.as_str());
                m
            },
            ExtractorError::Validation { message, field } => {
                let mut m = String::from_str("Validation error: ");
                m.append(message.as_str());
                m
            },
            ExtractorError::SdkProcessing { sdk_name, message } => {
                let mut m = String::from_str("SDK processing error for '");
                m.append(sdk_name.as_str());
                m.append("': ");
                m.append(message.as_str());
                m
            },
            ExtractorError::MethodExtraction { language, path, message } => {
                let mut m = String::from_str("Method extraction failed for '");
                m.append(language.as_str());
                m.append("' in file '");
                m.append(path.as_str());
                m.append("': ");
                m.append(message.as_str());
                m
            },
            ExtractorError::OperationFasMapNotFound { service_name, path } => {
                let mut m = String::from_str("OperationFas map not found for service '");
                m.append(service_name.as_str());
                m.append("' at path '");
                m.append(path.as_str());
                m.append("'");
                m
            },
            ExtractorError::OperationFasMapParseError { service_name, message } => {
                let mut m = String::from_str("Failed to parse OperationFas map for service '");
                m.append(service_name.as_str());
                m.append("': ");
                m.append(message.as_str());
                m
            },
            ExtractorError::OperationActionMapNotFound { service_name, path } => {
                let mut m = String::from_str("OperationAction map not found for service '");
                m.append(service_name.as_str());
                m.append("' at path '");
                m.append(path.as_str());
                m.append("'");
                m
            },
            ExtractorError::OperationActionMapParseError { service_name, message } => {
                let mut m = String::from_str(
                    "Failed to parse OperationAction map for service '",
                );
                m.append(service_name.as_str());
                m.append("': ");
                m.append(message.as_str());
                m
            },
            ExtractorError::ServiceReferenceNotFound { service_name, path } => {
                let mut m = String::from_str("Service Reference not found for service '");
                m.append(service_name.as_str());
                m.append("' at path '");
                m.append(path.as_str());
                m.append("'");
                m
            },
            ExtractorError::ServiceReferenceParseError { service_name, message } => {
                let mut m = String::from_str("Failed to parse Service Reference for service '");
                m.append(service_name.as_str());
                m.append("': ");
                m.append(message.as_str());
                m
            },
            ExtractorError::ResourceMatchError { service_name, message } => {
                let mut m = String::from_str("Resource matching error for service '");
                m.append(service_name.as_str());
                m.append("': ");
                m.append(message.as_str());
                m
            },
            ExtractorError::EnrichmentError { service_name, message } => {
                let mut m = String::from_str("Enrichment error for service '");
                m.append(service_name.as_str());
                m.append("': ");
                m.append(message.as_str());
                m
            },
            ExtractorError::PolicyGeneration { message } => {
                let mut m = String::from_str("Policy generation error: ");
                m.append(message.as_str());
                m
            },
            ExtractorError::InvalidServiceHints { suggestions } => {
                let mut m = String::from_str("Provided service hints do not exist:\n");
                m.append(suggestions.as_str());
                m
            },
            ExtractorError::AccountResourceContext { message } => {
                let mut m = String::from_str("Fetching account resource context error: ");
                m.append(message.as_str());
                m
            },
            ExtractorError::TerraformStateCommandError { command, message } => {
                let mut m = String::from_str("Error performing terraform state command `");
                m.append(command.as_str());
                m.append("`: ");
                m.append(message.as_str());
                m
            },
            ExtractorError::TerraformStateParseError { message, terraform_state } => {
                let mut m = String::from_str("Failed to parse terraform state: ");
                m.append(message.as_str());
                m.append(". Terraform output: ");
                m.append(terraform_state.as_str());
                m
            },
            ExtractorError::TerraformStateError { message } => {
                let mut m = String::from_str("Failed to extract terraform state: ");
                m.append(message.as_str());
                m
            },
        }
    }

    /// A file-system error with operation context.
    pub fn file_system(operation: &str, path: &str, source: &str) -> (r: ExtractorError)
        ensures
            r matches ExtractorError::FileSystem { operation: o, path: p, source: s }
                && o@ == operation@ && p@ == path@ && s@ == source@,
    {
        ExtractorError::FileSystem {
            operation: operation.to_owned(),
            path: path.to_owned(),
            source: source.to_owned(),
        }
    }

    /// An unsupported-language error for an explicit language override.
    pub fn unsupported_language_override(language: &str) -> (r: ExtractorError)
        ensures
            r matches ExtractorError::UnsupportedLanguage { language: l } && l@ == language@,
    {
        ExtractorError::UnsupportedLanguage { language: language.to_owned() }
    }

    /// A validation error without a field.
    pub fn validation(message: &str) -> (r: ExtractorError)
        ensures
            r matches ExtractorError::Validation { message: m, field: f } && m@ == message@
                && f is None,
    {
        ExtractorError::Validation { message: message.to_owned(), field: None }
    }

    /// An SDK-processing error with the underlying error's text.
    pub fn sdk_processing_with_source(sdk_name: &str, message: &str) -> (r: ExtractorError)
        ensures
            r matches ExtractorError::SdkProcessing { sdk_name: n, message: m } && n@ == sdk_name@
                && m@ == message@,
    {
        ExtractorError::SdkProcessing {
            sdk_name: sdk_name.to_owned(),
            message: message.to_owned(),
        }
    }

    /// A method-extraction error.
    pub fn method_extraction(language: &str, path: &str, message: &str) -> (r: ExtractorError)
        ensures
            r matches ExtractorError::MethodExtraction { language: l, path: p, message: m }
                && l@ == language@ && p@ == path@ && m@ == message@,
    {
        ExtractorError::MethodExtraction {
            language: language.to_owned(),
            path: path.to_owned(),
            message: message.to_owned(),
        }
    }

    /// A service-reference parse error with the underlying error's text.
    pub fn service_reference_parse_error_with_source(service_name: &str, message: &str) -> (r:
        ExtractorError)
        ensures
            r matches ExtractorError::ServiceReferenceParseError { service_name: n, message: m }
                && n@ == service_name@ && m@ == message@,
    {
        ExtractorError::ServiceReferenceParseError {
            service_name: service_name.to_owned(),
            message: message.to_owned(),
        }
    }

    /// An enrichment error.
    pub fn enrichment_error(service_name: &str, message: &str) -> (r: ExtractorError)
        ensures
            r matches ExtractorError::EnrichmentError { service_name: n, message: m }
                && n@ == service_name@ && m@ == message@,
    {
        ExtractorError::EnrichmentError {
            service_name: service_name.to_owned(),
            message: message.to_owned(),
        }
    }

    /// A policy-generation error.
    pub fn policy_generation(message: &str) -> (r: ExtractorError)
        ensures
            r matches ExtractorError::PolicyGeneration { message: m } && m@ == message@,
    {
        ExtractorError::PolicyGeneration { message: message.to_owned() }
    }

    /// An invalid-service-hints error.
    pub fn invalid_service_hints(suggestions: &str) -> (r: ExtractorError)
        ensures
            r matches ExtractorError::InvalidServiceHints { suggestions: s } && s@ == suggestions@,
    {
        ExtractorError::InvalidServiceHints { suggestions: suggestions.to_owned() }
    }

    /// An account-resource-context error with the underlying error's
    /// text.
    pub fn account_resource_context_with_source(message: &str) -> (r: ExtractorError)
        ensures
            r matches ExtractorError::AccountResourceContext { message: m } && m@ == message@,
    {
        ExtractorError::AccountResourceContext { message: message.to_owned() }
    }

    /// A state-command error.
    pub fn terraform_state_command(command: String, message: String) -> (r: ExtractorError)
        ensures
            r matches ExtractorError::TerraformStateCommandError { command: c, message: m }
                && c@ == command@ && m@ == message@,
    {
        ExtractorError::TerraformStateCommandError { command, message }
    }

    /// A state-parse error.
    pub fn terraform_state_parse(message: String, terraform_state: String) -> (r: ExtractorError)
        ensures
            r matches ExtractorError::TerraformStateParseError {
                message: m,
                terraform_state: t,
            } && m@ == message@ && t@ == terraform_state@,
    {
        ExtractorError::TerraformStateParseError { message, terraform_state }
    }

    /// A state-extraction error with the underlying error's text.
    pub fn terraform_state_with_source(message: String) -> (r: ExtractorError)
        ensures
            r matches ExtractorError::TerraformStateError { message: m } && m@ == message@,
    {
        ExtractorError::TerraformStateError { message }
    }
}

/// Errors of calls against AWS endpoints, as the callers report them.
#[derive(Debug)]
pub enum AwsError {
    /// Configuration could not be loaded.
    ConfigError(String),
    /// A Resource Explorer call failed.
    ResourceExplorerError(String),
    /// Another endpoint call failed.
    SdkError(String),
}

impl AwsError {
    /// The rendered message of each variant.
    pub open spec fn message_spec(&self) -> Seq<char> {
        match self {
            AwsError::ConfigError(m) => "AWS configuration error: "@ + m@,
            AwsError::ResourceExplorerError(m) => "ResourceExplorer client error: "@ + m@,
            AwsError::SdkError(m) => "AWS SDK error: "@ + m@,
        }
    }

    /// Renders the message of this error.
    pub fn message(&self) -> (r: String)
        ensures
            r@ == self.message_spec(),
    {
        match self {
            AwsError::ConfigError(msg) => {
                let mut m = String::from_str("AWS configuration error: ");
                m.append(msg.as_str());
                m
            },
            AwsError::ResourceExplorerError(msg) => {
                let mut m = String::from_str("ResourceExplorer client error: ");
                m.append(msg.as_str());
                m
            },
            AwsError::SdkError(msg) => {
                let mut m = String::from_str("AWS SDK error: ");
                m.append(msg.as_str());
                m
            },
        }
    }
}

/// Results of AWS endpoint calls.
pub type AwsResult<T> = Result<T, AwsError>;

} // verus!
