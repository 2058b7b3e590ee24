//! Timing and logging of command runs.
use vstd::prelude::*;
use std::time::{Duration, SystemTime, SystemTimeError, UNIX_EPOCH};
use crate::command::{opt_view, CommandResult, CommandResultView};

verus! {

/// The record written for each command that runs.
#[derive(Debug, Clone)]
pub struct LogEvent {
    /// When the command ended (milliseconds since the Unix epoch).
    pub ts_ms: u128,
    /// How long it ran, in milliseconds.
    pub duration_ms: u128,
    pub index: u32,
    pub tag: String,
    pub instruction: String,
    pub status: String,
    pub detail: String,
    pub screenshot_path: Option<String>,
    pub screenshot_data_url: Option<String>,
}

impl LogEvent {
    /// The record of `result`, for a run that started at `start_ms` and ended at `end_ms`: it
    /// is stamped with the end, its duration is the difference (0 if the clock went back), and
    /// it carries every field of the result unchanged.
    pub fn new(result: CommandResult, start_ms: u128, end_ms: u128) -> (r: LogEvent)
        ensures
            r.ts_ms == end_ms,
            r.duration_ms == if end_ms >= start_ms {
                (end_ms - start_ms) as u128
            } else {
                0u128
            },
            (CommandResultView {
                index: r.index,
                tag: r.tag@,
                instruction: r.instruction@,
                status: r.status@,
                detail: r.detail@,
                screenshot_path: opt_view(r.screenshot_path),
                screenshot_data_url: opt_view(r.screenshot_data_url),
            }) == result@,
    {
        LogEvent {
            ts_ms: end_ms,
            duration_ms: end_ms.saturating_sub(start_ms),
            index: result.index,
            tag: result.tag,
            instruction: result.instruction,
            status: result.status,
            detail: result.detail,
            screenshot_path: result.screenshot_path,
            screenshot_data_url: result.screenshot_data_url,
        }
    }
}

#[verifier::external_type_specification]
#[verifier::external_body]
pub struct ExSystemTime(SystemTime);

#[verifier::external_type_specification]
#[verifier::external_body]
pub struct ExSystemTimeError(SystemTimeError);

/// Calls `SystemTime::now`. The clock's reading is not stated.
#[verifier::external_body]
fn system_time_now() -> (r: SystemTime) {
    SystemTime::now()
}

/// Calls `SystemTime::duration_since(UNIX_EPOCH)`. Whether the clock is past the epoch, and
/// by how much, is not stated.
#[verifier::external_body]
fn since_unix_epoch(t: &SystemTime) -> (r: Result<Duration, SystemTimeError>) {
    t.duration_since(UNIX_EPOCH)
}

/// Calls `Duration::as_millis`. A duration's length is not visible here, so nothing is stated
/// of the result.
#[verifier::external_body]
fn whole_millis(d: &Duration) -> (r: u128) {
    d.as_millis()
}

/// The timestamp for a clock reading: the whole milliseconds `elapsed` since the Unix epoch,
/// or 0 when the clock reads earlier than the epoch (`None`).
pub fn epoch_millis(elapsed: Option<u128>) -> (r: u128)
    ensures
        r == match elapsed {
            Some(ms) => ms,
            None => 0,
        },
{
    match elapsed {
        Some(ms) => ms,
        None => 0,
    }
}

/// Milliseconds since the Unix epoch by the system clock, or 0 when the clock reads earlier
/// (see [`epoch_millis`]). The clock's reading is not stated.
pub fn now_ms() -> (r: u128) {
    let now = system_time_now();
    let elapsed = match since_unix_epoch(&now) {
        Ok(d) => Some(whole_millis(&d)),
        Err(_) => None,
    };
    epoch_millis(elapsed)
}

} // verus!
