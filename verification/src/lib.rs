//! A task scheduling library: cron-like schedules, steps with retries, run history and
//! runtime control, written as verified state machines.
//!
//! The library decides; a runtime acts. It never waits, sleeps or spawns by itself: a
//! [`TaskDriver`] says which step to invoke or how long to sleep, and a [`TaskScheduler`] says
//! which tasks to start and which to stop.

pub mod blackboard;
pub mod builders;
pub mod driver;
pub mod errors;
pub mod generator;
pub mod handle;
pub mod laws;
pub mod retry;
pub mod run;
pub mod schedule;
pub mod scheduler;
pub mod shared;
pub mod slot;
pub mod task;
pub mod text;
pub mod time;

pub use blackboard::Blackboard;
pub use builders::TaskBuilder;
pub use driver::{Action, Hook, Phase, TaskDriver};
pub use errors::{TaskError, TaskResult};
pub use generator::TaskGenerator;
pub use handle::{SchedulerHandle, TaskHandle, TaskState};
pub use retry::{Backoff, Jitter, RetryPolicy};
pub use run::{Run, Verdict};
pub use schedule::{Schedule, Zone};
pub use scheduler::{Progress, TaskScheduler, TaskSpawner, TickReport, Wake};
pub use shared::{SharedState, TaskShared};
pub use slot::{AnySlot, Slot, Value};
pub use task::{
    Host, OverlapPolicy, RunOutcome, RunRecord, Status, StepState, StepStatus, Task, TaskContext,
};
pub use time::{Duration, Timestamp};
