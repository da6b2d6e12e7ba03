use vstd::prelude::*;

verus! {

/// `std::io::Error`, carried opaque inside [`CoreError::ConfigRead`].
#[verifier::external_type_specification]
#[verifier::external_body]
pub struct ExIoError(std::io::Error);

/// `serde_yaml::Error`, carried opaque inside [`CoreError::ConfigParse`].
#[verifier::external_type_specification]
#[verifier::external_body]
pub struct ExYamlError(serde_yaml::Error);

/// `reqwest::Error`, carried opaque inside [`CoreError::HttpRequest`].
#[verifier::external_type_specification]
#[verifier::external_body]
pub struct ExReqwestError(reqwest::Error);

/// `url::ParseError`, carried opaque inside [`CoreError::InvalidUrl`].
#[verifier::external_type_specification]
#[verifier::external_body]
pub struct ExUrlParseError(url::ParseError);

/// Errors of the library's operations.
#[derive(Debug)]
pub enum CoreError {
    /// The configuration file could not be read.
    ConfigRead { path: String, source: std::io::Error },
    /// The configuration file is not valid YAML for a configuration.
    ConfigParse(serde_yaml::Error),
    /// No rule matches the domain.
    NoMatchingRule(String),
    /// The variable that holds an authentication value is not set.
    MissingEnvVar { name: String, domain: String },
    /// The HTTP request failed.
    HttpRequest(reqwest::Error),
    /// The server answered with a status other than success.
    HttpStatus { status: u16, url: String },
    /// `body_path` could not be followed in the JSON response.
    JsonPathExtract { path: String },
    /// A CSS selector matched nothing.
    SelectorNoMatch(String),
    /// A CSS selector could not be parsed.
    InvalidSelector { selector: String, reason: String },
    /// A URL could not be used.
    InvalidUrl(url::ParseError),
}

} // verus!
