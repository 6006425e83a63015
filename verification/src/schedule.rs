//! Cron schedules and the zones they are read in.
//!
//! A [`Schedule`] holds a cron expression that was accepted. When it next comes due is read
//! in a [`Zone`], since "every day at 09:30" is another instant in each zone.

use std::str::FromStr;

use chrono::TimeZone;
use vstd::prelude::*;

use crate::text::{decimal, render};
use crate::time::Timestamp;

verus! {

/// The first second of the year 10000.
///
/// No cron schedule has an occurrence that late: cron years end in 2100.
pub const HORIZON_SECS: i64 = 253_402_300_800;

/// The text with which a cron expression is rejected, or `None` where it is accepted.
pub uninterp spec fn cron_rejection(expression: Seq<char>) -> Option<Seq<char>>;

/// The first occurrence of a cron expression, read in UTC, after an instant.
pub uninterp spec fn cron_next(expression: Seq<char>, now: Timestamp) -> Option<Timestamp>;

/// The expression for "every `n` seconds".
pub open spec fn seconds_expression(n: nat) -> Seq<char> {
    "*/"@ + decimal(n) + " * * * * * *"@
}

/// The expression for "every `n` minutes".
pub open spec fn minutes_expression(n: nat) -> Seq<char> {
    "0 */"@ + decimal(n) + " * * * * *"@
}

/// The expression for "every `n` hours".
pub open spec fn hours_expression(n: nat) -> Seq<char> {
    "0 0 */"@ + decimal(n) + " * * * *"@
}

/// The expression for "at a given minute of every hour".
pub open spec fn hourly_expression(minute: nat) -> Seq<char> {
    "0 "@ + decimal(minute) + " * * * * *"@
}

/// The expression for "at a given hour and minute of every day".
pub open spec fn daily_expression(hour: nat, minute: nat) -> Seq<char> {
    "0 "@ + decimal(minute) + " "@ + decimal(hour) + " * * * *"@
}

/// Which of the expressions that the schedule helpers write are accepted: a step must lie
/// between one and the largest value of its field, and a minute or an hour must be one.
pub open spec fn accepts_in_range(expression: Seq<char>, accepted: bool) -> bool {
    &&& forall|n: nat|
        expression == #[trigger] seconds_expression(n) ==> (accepted <==> 1 <= n <= 59)
    &&& forall|n: nat|
        expression == #[trigger] minutes_expression(n) ==> (accepted <==> 1 <= n <= 59)
    &&& forall|n: nat|
        expression == #[trigger] hours_expression(n) ==> (accepted <==> 1 <= n <= 23)
    &&& forall|minute: nat|
        expression == #[trigger] hourly_expression(minute) ==> (accepted <==> minute <= 59)
    &&& forall|hour: nat, minute: nat|
        expression == #[trigger] daily_expression(hour, minute) ==> (accepted <==> hour <= 23
            && minute <= 59)
}

/// Parse a cron expression with `cron::Schedule::from_str`; a rejection comes back as the
/// text of the error.
///
/// The parser decides by the expression alone. Of its grammar only this much is stated: a step
/// over a whole field must lie between one and the field's largest value, and a minute or an
/// hour must be one.
#[verifier::external_body]
fn cron_parse(expression: &str) -> (parsed: Result<(), String>)
    ensures
        match parsed {
            Ok(_) => cron_rejection(expression@) is None,
            Err(text) => cron_rejection(expression@) == Some(text@),
        },
        accepts_in_range(expression@, parsed is Ok),
{
    match cron::Schedule::from_str(expression) {
        Ok(_) => Ok(()),
        Err(error) => Err(error.to_string()),
    }
}

/// The first occurrence of a cron expression after `now`, read in UTC: the first item of
/// `cron::Schedule::after`.
///
/// It depends on the expression and the instant alone. An occurrence starts a second, and
/// that second is later than the one `now` lies in. There is none for an expression that does
/// not parse or for an instant that chrono cannot hold.
///
/// `cron` adds a second to the instant first, which overflows at the far end of chrono's
/// range; that end is left out.
#[verifier::external_body]
fn cron_next_utc(expression: &str, now: Timestamp) -> (next: Option<Timestamp>)
    requires
        now.secs < HORIZON_SECS,
    ensures
        next == cron_next(expression@, now),
        next matches Some(at) ==> at.secs > now.secs && at.nanos == 0,
{
    let schedule = cron::Schedule::from_str(expression).ok()?;
    let after = chrono::Utc.timestamp_opt(now.secs, now.nanos).single()?;
    let next = schedule.after(&after).next()?;
    Some(Timestamp { secs: next.timestamp(), nanos: next.timestamp_subsec_nanos() })
}

/// The first occurrence of a cron expression after `now`, read in the machine's local time
/// zone: the first item of `cron::Schedule::after`.
///
/// It depends on the machine's zone, so it is not claimed to be a function of the arguments.
/// An occurrence starts a second, and there is none for an expression that does not parse.
/// Nothing is said of how it lies to `now`: where local time is set back, an occurrence in the
/// repeated hour can come out at its first reading, which may have passed.
#[verifier::external_body]
fn cron_next_local(expression: &str, now: Timestamp) -> (next: Option<Timestamp>)
    requires
        now.secs < HORIZON_SECS,
    ensures
        next matches Some(at) ==> at.nanos == 0,
        cron_rejection(expression@) is Some ==> next is None,
{
    let schedule = cron::Schedule::from_str(expression).ok()?;
    let after = chrono::Local.timestamp_opt(now.secs, now.nanos).single()?;
    let next = schedule.after(&after).next()?;
    Some(Timestamp { secs: next.timestamp(), nanos: next.timestamp_subsec_nanos() })
}

/// Whether `next` is what the search in the machine's local time zone may give, when it is asked
/// for the first occurrence of `expression` after `now`.
pub closed spec fn local_answer(
    expression: Seq<char>,
    now: Timestamp,
    next: Option<Timestamp>,
) -> bool {
    exists|text: &str|
        text@ == expression && #[trigger] call_ensures(cron_next_local, (text, now), next)
}

/// A cron expression that was accepted by [`Schedule::parse`].
///
/// Its view is the expression.
#[derive(Debug)]
pub struct Schedule {
    source: String,
}

impl View for Schedule {
    type V = Seq<char>;

    closed spec fn view(&self) -> Seq<char> {
        self.source@
    }
}

impl Schedule {
    /// When the schedule next comes due after `now`, read in UTC.
    pub open spec fn next_utc(self, now: Timestamp) -> Option<Timestamp> {
        if now.secs < HORIZON_SECS {
            cron_next(self@, now)
        } else {
            None
        }
    }

    /// Parse a cron expression. A rejected expression gives the reason as text.
    pub fn parse(expression: &str) -> (parsed: Result<Schedule, String>)
        ensures
            match parsed {
                Ok(schedule) => cron_rejection(expression@) is None && schedule@ == expression@,
                Err(text) => cron_rejection(expression@) == Some(text@),
            },
            accepts_in_range(expression@, parsed is Ok),
    {
        match cron_parse(expression) {
            Ok(_) => Ok(Schedule { source: expression.to_string() }),
            Err(text) => Err(text),
        }
    }

    /// The expression the schedule was parsed from.
    pub fn source(&self) -> (source: &str)
        ensures
            source@ == self@,
    {
        self.source.as_str()
    }
}

/// The expression for "every `n` seconds".
pub fn every_seconds_text(n: u32) -> (text: String)
    ensures
        text@ == seconds_expression(n as nat),
{
    "*/".to_string().concat(render(n).as_str()).concat(" * * * * * *")
}

/// The expression for "every `n` minutes".
pub fn every_minutes_text(n: u32) -> (text: String)
    ensures
        text@ == minutes_expression(n as nat),
{
    "0 */".to_string().concat(render(n).as_str()).concat(" * * * * *")
}

/// The expression for "every `n` hours".
pub fn every_hours_text(n: u32) -> (text: String)
    ensures
        text@ == hours_expression(n as nat),
{
    "0 0 */".to_string().concat(render(n).as_str()).concat(" * * * *")
}

/// The expression for "at a given minute of every hour".
pub fn hourly_at_text(minute: u32) -> (text: String)
    ensures
        text@ == hourly_expression(minute as nat),
{
    "0 ".to_string().concat(render(minute).as_str()).concat(" * * * * *")
}

/// The expression for "at a given hour and minute of every day".
pub fn daily_at_text(hour: u32, minute: u32) -> (text: String)
    ensures
        text@ == daily_expression(hour as nat, minute as nat),
{
    "0 ".to_string().concat(render(minute).as_str()).concat(" ").concat(
        render(hour).as_str(),
    ).concat(" * * * *")
}

/// A time zone: how a schedule's occurrences lie in it.
pub trait Zone {
    /// The first occurrence of `schedule` after `now`, or `None` where it has no more.
    fn next_after(&self, schedule: &Schedule, now: Timestamp) -> Option<Timestamp>;
}

/// `chrono`'s UTC zone, which holds no data.
#[verifier::external_type_specification]
#[verifier::external_body]
pub struct ExUtc(chrono::Utc);

/// `chrono`'s local zone, whose offsets are the machine's.
#[verifier::external_type_specification]
#[verifier::external_body]
pub struct ExLocal(chrono::Local);

impl Zone for chrono::Utc {
    fn next_after(&self, schedule: &Schedule, now: Timestamp) -> (next: Option<Timestamp>)
        ensures
            next == schedule.next_utc(now),
            next matches Some(at) ==> at.secs > now.secs && at.nanos == 0,
    {
        if now.secs < HORIZON_SECS {
            cron_next_utc(schedule.source(), now)
        } else {
            None
        }
    }
}

impl Zone for chrono::Local {
    fn next_after(&self, schedule: &Schedule, now: Timestamp) -> (next: Option<Timestamp>)
        ensures
            now.secs < HORIZON_SECS ==> local_answer(schedule@, now, next),
            now.secs >= HORIZON_SECS ==> next is None,
            next matches Some(at) ==> at.nanos == 0,
            cron_rejection(schedule@) is Some ==> next is None,
    {
        if now.secs < HORIZON_SECS {
            cron_next_local(schedule.source(), now)
        } else {
            None
        }
    }
}

} // verus!
