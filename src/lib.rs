//! A deployment orchestrator: targets are looked up in a registry, each request
//! is turned into a plan, and a state machine drives the plan through apply,
//! verify and, on failure, rollback, while an append-only ledger records every
//! attempt.

pub mod error;
pub mod ledger;
pub mod live;
pub mod orchestrator;
pub mod plan;
pub mod target;

pub use error::DeployError;
pub use target::{micro_to_lambda_name, DeploymentTarget, Micro, Registry, TargetKind};
pub use plan::{check_artifact, make_plan, progress_position, steps_for, DeploymentPlan, DeploymentRequest, Step};
pub use ledger::{DeploymentRecord, Ledger, RecordState, Status};
pub use orchestrator::{action_for, decide, Action, Event, Orchestrator, MAX_ATTEMPTS};
pub use live::LiveTarget;
