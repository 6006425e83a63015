//! Generating tasks on a schedule.

use vstd::prelude::*;

use crate::errors::{TaskError, TaskResult};
use crate::schedule::{cron_rejection, Schedule, Zone};
use crate::task::{upcoming, Host, Task};
use crate::time::{present, Timestamp};

verus! {

/// Task generation structure.
///
/// It is run in the given interval, and if a new task is generated, then it is appended in the
/// list of tasks to be executed. `G` is the discovery function, used to retrieve new tasks.
pub struct TaskGenerator<T, G> {
    /// The discovery function.
    pub discovery_function: G,
    /// The execution schedule.
    pub schedule: Schedule,
    /// The task generator's timezone.
    pub timezone: T,
    /// The next execution time; `None` once the schedule has run out.
    pub next_exec: Option<Timestamp>,
}

impl<T: Zone, G> TaskGenerator<T, G> {
    /// A generator on a schedule, given its first execution time. A schedule without one is an
    /// error.
    pub fn starting_at(
        schedule: Schedule,
        timezone: T,
        function: G,
        next: Option<Timestamp>,
    ) -> (made: TaskResult<TaskGenerator<T, G>>)
        ensures
            match next {
                Some(_) => made == Ok::<TaskGenerator<T, G>, TaskError>(
                    TaskGenerator {
                        discovery_function: function,
                        schedule,
                        timezone,
                        next_exec: next,
                    },
                ),
                None => made matches Err(TaskError::InvalidCronExpression(text)) && text@
                    == "The schedule has no upcoming execution"@,
            },
    {
        match next {
            Some(_) => Ok(
                TaskGenerator {
                    discovery_function: function,
                    schedule,
                    timezone,
                    next_exec: next,
                },
            ),
            None => Err(
                TaskError::InvalidCronExpression(
                    "The schedule has no upcoming execution".to_string(),
                ),
            ),
        }
    }

    /// Create a new `TaskGenerator` instance.
    ///
    /// # Arguments
    ///
    /// * expression    - A valid cron expression.
    /// * timezone      - The generator's timezone.
    /// * function      - The discovery function.
    pub fn new(expression: &str, timezone: T, function: G) -> (made: TaskResult<
        TaskGenerator<T, G>,
    >)
        ensures
            match cron_rejection(expression@) {
                None => exists|schedule: Schedule, next: Option<Timestamp>|
                    {
                        &&& schedule@ == expression@
                        &&& #[trigger] upcoming(timezone, schedule, next)
                        &&& match next {
                            Some(_) => made == Ok::<TaskGenerator<T, G>, TaskError>(
                                TaskGenerator {
                                    discovery_function: function,
                                    schedule,
                                    timezone,
                                    next_exec: next,
                                },
                            ),
                            None => made matches Err(TaskError::InvalidCronExpression(text))
                                && text@ == "The schedule has no upcoming execution"@,
                        }
                    },
                Some(reason) => made matches Err(TaskError::InvalidCronExpression(text)) && text@
                    == "Invalid cron expression: "@ + reason,
            },
    {
        match Schedule::parse(expression) {
            Ok(schedule) => {
                let now = present();
                let next = timezone.next_after(&schedule, now);
                assert(upcoming(timezone, schedule, next));
                TaskGenerator::starting_at(schedule, timezone, function, next)
            },
            Err(reason) => Err(
                TaskError::InvalidCronExpression(
                    "Invalid cron expression: ".to_string().concat(reason.as_str()),
                ),
            ),
        }
    }

    /// When the generator's schedule next comes due, counted from the present instant.
    pub fn upcoming(&self) -> (next: Option<Timestamp>)
        ensures
            upcoming(self.timezone, self.schedule, next),
    {
        let now = present();
        self.timezone.next_after(&self.schedule, now)
    }

    /// Run the discovery function and reschedule the generator, given the next occurrence of its
    /// schedule. Where there is none, this was the last time: the generator is not due again.
    pub fn run_at<H: Host>(&mut self, next: Option<Timestamp>) -> (found: Option<
        TaskResult<Task<T, H>>,
    >) where G: FnMut() -> Option<TaskResult<Task<T, H>>>
        requires
            call_requires(old(self).discovery_function, ()),
        ensures
            call_ensures(old(self).discovery_function, (), found),
            *final(self) == (TaskGenerator {
                discovery_function: final(self).discovery_function,
                next_exec: next,
                ..*old(self)
            }),
    {
        self.next_exec = next;
        (self.discovery_function)()
    }

    /// Run the discovery function and reschedule the generator.
    pub fn run<H: Host>(&mut self) -> (found: Option<TaskResult<Task<T, H>>>) where
        G: FnMut() -> Option<TaskResult<Task<T, H>>>,

        requires
            call_requires(old(self).discovery_function, ()),
        ensures
            call_ensures(old(self).discovery_function, (), found),
            upcoming(old(self).timezone, old(self).schedule, final(self).next_exec),
            *final(self) == (TaskGenerator {
                discovery_function: final(self).discovery_function,
                next_exec: final(self).next_exec,
                ..*old(self)
            }),
    {
        let next = self.upcoming();
        self.run_at(next)
    }
}

impl<T, G> TaskGenerator<T, G> {
    /// Whether the generator's next execution time has come.
    pub open spec fn due(self, now: Timestamp) -> bool {
        self.next_exec matches Some(next) && next.at_or_before(now)
    }

    /// Whether the generator is due at `now`.
    pub fn is_due(&self, now: Timestamp) -> (due: bool)
        ensures
            due == self.due(now),
    {
        match &self.next_exec {
            Some(next) => next.is_at_or_before(&now),
            None => false,
        }
    }
}

/// A generator whose schedule has run out is never due again.
pub proof fn law_exhausted_generator_is_never_due<T, G>(
    generator: TaskGenerator<T, G>,
    now: Timestamp,
)
    requires
        generator.next_exec is None,
    ensures
        !generator.due(now),
{
}

/// In UTC, a generator that ran is not due at the instant by which it was rescheduled: an
/// occurrence that was missed is not made up for.
pub proof fn law_rescheduled_generator_is_not_due<G>(
    generator: TaskGenerator<chrono::Utc, G>,
    now: Timestamp,
    next: Option<Timestamp>,
)
    requires
        call_ensures(
            <chrono::Utc as Zone>::next_after,
            (&generator.timezone, &generator.schedule, now),
            next,
        ),
    ensures
        !(TaskGenerator { next_exec: next, ..generator }).due(now),
{
}

} // verus!
