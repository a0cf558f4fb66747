//! The request and response value types of the service interface, and the
//! parts of its behaviour that are pure: the fixed catalogues of backends
//! and presets, defaults, and input validation.

use vstd::prelude::*;
use vstd::string::StringExecFns;

use std::collections::HashMap;

use crate::error::AppError;
use crate::text::{is_blank, spec_is_blank};

verus! {

/// All configuration values, keyed by name.
#[derive(Debug, Clone)]
pub struct ConfigResponse {
    pub config: HashMap<String, String>,
}

/// A batch of configuration values to store.
#[derive(Debug, Clone)]
pub struct UpdateConfigRequest {
    pub config: HashMap<String, String>,
}

/// One configuration value, or nothing when the key is not set.
#[derive(Debug, Clone)]
pub struct ConfigValueResponse {
    pub key: String,
    pub value: Option<String>,
}

/// A single configuration value to store.
#[derive(Debug, Clone)]
pub struct SetConfigValueRequest {
    pub value: String,
}

/// One assistant backend on offer.
#[derive(Debug, Clone)]
pub struct AiBackend {
    pub id: String,
    pub name: String,
    pub description: String,
}

/// The assistant backends on offer.
#[derive(Debug, Clone)]
pub struct BackendsResponse {
    pub backends: Vec<AiBackend>,
}

/// One workflow preset on offer.
#[derive(Debug, Clone)]
pub struct Preset {
    pub id: String,
    pub name: String,
    pub description: String,
}

/// The workflow presets on offer.
#[derive(Debug, Clone)]
pub struct PresetsResponse {
    pub presets: Vec<Preset>,
}

/// Query parameters of the commit log endpoint.
#[derive(Debug, Clone)]
pub struct LogQueryParams {
    /// Most commits to return; twenty when absent.
    pub limit: Option<usize>,
}

impl LogQueryParams {
    /// The number of commits to return: the limit given, or twenty.
    pub fn effective_limit(&self) -> (r: usize)
        ensures
            r == match self.limit {
                Some(n) => n,
                None => 20usize,
            },
    {
        match self.limit {
            Some(n) => n,
            None => 20,
        }
    }
}

/// A commit to make.
#[derive(Debug, Clone)]
pub struct CommitRequest {
    /// The commit message; a blank one is rejected.
    pub message: String,
    /// Whether to stage every change first.
    pub stage_all: bool,
}

impl CommitRequest {
    /// The refusal a blank commit message earns, or nothing when the
    /// request may proceed.
    pub fn validate(&self) -> (r: Option<AppError>)
        ensures
            r is Some <==> spec_is_blank(self.message@),
            r matches Some(e) ==> e matches AppError::BadRequest(m) && m@
                == "Commit message cannot be empty"@,
    {
        if is_blank(self.message.as_str()) {
            Some(AppError::BadRequest(String::from_str("Commit message cannot be empty")))
        } else {
            None
        }
    }
}

/// A reset to confirm; without confirmation it is rejected.
#[derive(Debug, Clone)]
pub struct ResetRequest {
    pub confirm: bool,
}

impl ResetRequest {
    /// The refusal an unconfirmed reset earns, or nothing when the
    /// destructive operation was confirmed.
    pub fn validate(&self) -> (r: Option<AppError>)
        ensures
            r is Some <==> !self.confirm,
            r matches Some(e) ==> e matches AppError::BadRequest(m) && m@
                == "Reset requires confirmation. Set confirm: true to proceed."@,
    {
        if !self.confirm {
            Some(
                AppError::BadRequest(
                    String::from_str("Reset requires confirmation. Set confirm: true to proceed."),
                ),
            )
        } else {
            None
        }
    }
}

/// A branch to check out; a blank name is rejected.
#[derive(Debug, Clone)]
pub struct CheckoutRequest {
    pub branch: String,
}

impl CheckoutRequest {
    /// The refusal a blank branch name earns, or nothing when the request
    /// may proceed.
    pub fn validate(&self) -> (r: Option<AppError>)
        ensures
            r is Some <==> spec_is_blank(self.branch@),
            r matches Some(e) ==> e matches AppError::BadRequest(m) && m@
                == "Branch name cannot be empty"@,
    {
        if is_blank(self.branch.as_str()) {
            Some(AppError::BadRequest(String::from_str("Branch name cannot be empty")))
        } else {
            None
        }
    }
}

/// A repository to add by path, with an optional display name.
#[derive(Debug, Clone)]
pub struct AddRepoRequest {
    pub path: String,
    pub name: Option<String>,
}

/// Directories to scan for repositories, to a bounded depth.
#[derive(Debug, Clone)]
pub struct ScanRequest {
    pub directories: Vec<String>,
    pub depth: usize,
}

/// What a scan found.
#[derive(Debug, Clone)]
pub struct ScanResponse {
    pub found: Vec<FoundRepo>,
}

/// One repository found during a scan.
#[derive(Debug, Clone)]
pub struct FoundRepo {
    pub path: String,
    pub name: String,
}

/// The scan depth used when a request names none.
pub fn default_scan_depth() -> (r: usize)
    ensures
        r == 2usize,
{
    2
}

/// The fixed catalogue of assistant backends, in its exact order. The
/// entries name the vendor API, AWS Bedrock and Google Vertex AI routes
/// to the hosted assistant models.
pub fn list_backends() -> (r: BackendsResponse)
    ensures
        r.backends@.len() == 3,
        r.backends@[0].id@ == "api"@,
        r.backends@[0].name@ == "Vendor API"@,
        r.backends@[0].description@ == "Assistant models via the vendor API"@,
        r.backends@[1].id@ == "bedrock"@,
        r.backends@[1].name@ == "AWS Bedrock"@,
        r.backends@[1].description@ == "Assistant models via AWS Bedrock"@,
        r.backends@[2].id@ == "vertex"@,
        r.backends@[2].name@ == "Google Vertex AI"@,
        r.backends@[2].description@ == "Assistant models via Google Cloud Vertex AI"@,
{
    let mut backends: Vec<AiBackend> = Vec::new();
    backends.push(
        AiBackend {
            id: String::from_str("api"),
            name: String::from_str("Vendor API"),
            description: String::from_str("Assistant models via the vendor API"),
        },
    );
    backends.push(
        AiBackend {
            id: String::from_str("bedrock"),
            name: String::from_str("AWS Bedrock"),
            description: String::from_str("Assistant models via AWS Bedrock"),
        },
    );
    backends.push(
        AiBackend {
            id: String::from_str("vertex"),
            name: String::from_str("Google Vertex AI"),
            description: String::from_str("Assistant models via Google Cloud Vertex AI"),
        },
    );
    BackendsResponse { backends }
}

/// The fixed catalogue of workflow presets, in its exact order.
pub fn list_presets() -> (r: PresetsResponse)
    ensures
        r.presets@.len() == 6,
        r.presets@[0].id@ == "default"@,
        r.presets@[0].name@ == "Default"@,
        r.presets@[0].description@ == "Standard autonomous mode"@,
        r.presets@[1].id@ == "tdd-red-green"@,
        r.presets@[1].name@ == "TDD Red-Green"@,
        r.presets@[1].description@
            == "Test-driven development: write failing test, then implement"@,
        r.presets@[2].id@ == "feature"@,
        r.presets@[2].name@ == "Feature Development"@,
        r.presets@[2].description@ == "Implement a new feature with proper planning"@,
        r.presets@[3].id@ == "debug"@,
        r.presets@[3].name@ == "Debug"@,
        r.presets@[3].description@ == "Investigate and fix bugs"@,
        r.presets@[4].id@ == "refactor"@,
        r.presets@[4].name@ == "Refactor"@,
        r.presets@[4].description@ == "Clean up and improve code structure"@,
        r.presets@[5].id@ == "review"@,
        r.presets@[5].name@ == "Code Review"@,
        r.presets@[5].description@ == "Review code and suggest improvements"@,
{
    let mut presets: Vec<Preset> = Vec::new();
    presets.push(
        Preset {
            id: String::from_str("default"),
            name: String::from_str("Default"),
            description: String::from_str("Standard autonomous mode"),
        },
    );
    presets.push(
        Preset {
            id: String::from_str("tdd-red-green"),
            name: String::from_str("TDD Red-Green"),
            description: String::from_str(
                "Test-driven development: write failing test, then implement",
            ),
        },
    );
    presets.push(
        Preset {
            id: String::from_str("feature"),
            name: String::from_str("Feature Development"),
            description: String::from_str("Implement a new feature with proper planning"),
        },
    );
    presets.push(
        Preset {
            id: String::from_str("debug"),
            name: String::from_str("Debug"),
            description: String::from_str("Investigate and fix bugs"),
        },
    );
    presets.push(
        Preset {
            id: String::from_str("refactor"),
            name: String::from_str("Refactor"),
            description: String::from_str("Clean up and improve code structure"),
        },
    );
    presets.push(
        Preset {
            id: String::from_str("review"),
            name: String::from_str("Code Review"),
            description: String::from_str("Review code and suggest improvements"),
        },
    );
    PresetsResponse { presets }
}

} // verus!
