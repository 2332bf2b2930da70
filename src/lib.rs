//! Reconciliation engine for files kept on remote hosts: logical addresses,
//! mount resolution, planning, the per-host session cache, the remote tree
//! walk and the step-by-step execution of a plan.

pub mod addr;
pub mod config;
pub mod error;
pub mod exec;
pub mod glob;
pub mod listing;
pub mod plan;
pub mod resource;
pub mod segments;
pub mod session;
pub mod walk;

pub use addr::RemoteFsPath;
pub use config::{RemoteFsConfig, RemoteFsHook, RemoteFsHost, RemoteFsMount};
pub use error::RemoteFsError;
pub use exec::{FileMeta, PlanRun, RemoteAction, StepReport};
pub use glob::matches_any_globs;
pub use listing::ScanTarget;
pub use plan::RemoteFsConnectorOp;
pub use resource::{contents_equal, FileContents};
pub use session::{Acquire, ConnectParams, ConnectorSshKeyStorage, SessionCache};
pub use walk::{RemoteEntry, TreeWalk, WalkAction, WalkEvent, WalkPhase};
