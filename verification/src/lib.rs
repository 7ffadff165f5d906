//! Requirement-by-requirement implementation loop: an append-only event
//! ledger, the requirement document, a staged validation pipeline, bounded
//! failure feedback and the loop controller that ties them together.

pub mod avro;
pub mod error;
pub mod feedback;
pub mod hook;
pub mod implement;
pub mod ledger;
pub mod plan;
pub mod prd;
pub mod runs;
pub mod status;
pub mod text;
pub mod validation;

pub use error::RalphError;
pub use ledger::{EventStatus, Ledger, LedgerEvent};
pub use prd::{MarkdownPrd, Prd, Requirement, RequirementStatus};
pub use validation::{ValidationConfig, ValidationProfile, ValidationResult, ValidationStage};
