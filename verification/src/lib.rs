//! A verified wrapper layer for registering scheduled tasks with an
//! operating-system scheduling service.
//!
//! The scheduling engine itself is an external collaborator reached through a
//! graph of reference-counted interface handles.  What this crate verifies is
//! the discipline a client of such a graph must follow: every handle acquired
//! through a factory call is released exactly once, in reverse acquisition
//! order, on every exit path; the runtime context is torn down exactly once;
//! a definition with no triggers is rejected before any call reaches the
//! engine; and errors from every layer are mapped into a closed taxonomy.

pub mod engine;
pub mod error;
pub mod pipeline;
pub mod triggers;
pub mod wire;

pub use error::{ComError, TaskError, TaskServiceError, WinError};
pub use pipeline::{execute_task, execute_task_at, register_definition};
pub use triggers::{
    Actions, BootTrigger, DailyTrigger, EventTrigger, IdleTrigger, LogonTrigger, MonthlyTrigger,
    RegistrationTrigger, SpecificTimeTrigger, TaskTriggerType, TaskTriggers, TaskTriggersBuilder,
    WeeklyTrigger,
};
