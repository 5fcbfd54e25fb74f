//! What is recorded of calls to providers, and of the state they are in.
use vstd::prelude::*;

use crate::text::owned;

verus! {

/// The row of a provider's state: available, left alone until, failures.
pub type StateRow = (i32, Option<i64>, i32);

/// The state of a row. A provider is available where the column is not zero.
pub fn provider_state(row: StateRow) -> (r: (bool, Option<i64>, i32))
    ensures
        r == (row.0 != 0, row.1, row.2),
{
    (row.0 != 0, row.1, row.2)
}

/// Whether a provider can be asked: where it is available and not left alone, or
/// where nothing is known of it.
pub open spec fn available_now(row: Option<(i32, Option<i64>)>, now: i64) -> bool {
    match row {
        Some((available, cooldown)) => available != 0 && !(cooldown matches Some(until) && until
            > now),
        None => true,
    }
}

/// Whether a provider can be asked, given the row of its state: available, left
/// alone until.
pub fn is_provider_available(row: Option<(i32, Option<i64>)>, now: i64) -> (r: bool)
    ensures
        r == available_now(row, now),
{
    match row {
        Some((available, Some(until))) => if available != 0 && until > now {
            false
        } else {
            available != 0
        },
        Some((available, None)) => available != 0,
        None => true,
    }
}

/// Until when a provider is left alone.
pub fn cooldown_until(now: i64, cooldown_secs: i64) -> (r: i64)
    requires
        i64::MIN <= now + cooldown_secs <= i64::MAX,
    ensures
        r == now + cooldown_secs,
{
    now + cooldown_secs
}

/// What is recorded of a call: how it ended, and when it began.
#[derive(Debug)]
pub struct CallRecord {
    pub status: String,
    pub started_at: i64,
    pub completed_at: i64,
}

/// The seconds in a number of milliseconds, towards zero.
pub open spec fn whole_seconds(millis: int) -> int {
    if millis < 0 {
        -((-millis) / 1000)
    } else {
        millis / 1000
    }
}

/// What is recorded of a call that ended now and took so many milliseconds.
pub fn record_call(now: i64, latency_ms: i64, success: bool) -> (r: CallRecord)
    requires
        i64::MIN <= now - whole_seconds(latency_ms as int) <= i64::MAX,
    ensures
        r.status@ == (if success {
            "completed"@
        } else {
            "failed"@
        }),
        r.started_at == now - whole_seconds(latency_ms as int),
        r.completed_at == now,
        is_record_of(r, now, latency_ms, success),
{
    let seconds: i64 = if latency_ms < 0 {
        let wide: i128 = latency_ms as i128;
        let positive: u128 = (-wide) as u128;
        let whole: u128 = positive / 1000;
        -(whole as i64)
    } else {
        (latency_ms as u64 / 1000) as i64
    };
    CallRecord {
        status: if success {
            owned("completed")
        } else {
            owned("failed")
        },
        started_at: now - seconds,
        completed_at: now,
    }
}

/// A provider can be asked where nothing is known of it; else where it is available and
/// the time until which it is left alone, if there is one, has come.
pub proof fn providers_are_asked_again(available: i32, until: i64, now: i64)
    ensures
        available_now(None, now),
        available == 0 ==> !available_now(Some((available, None)), now) && !available_now(
            Some((available, Some(until))),
            now,
        ),
        available != 0 ==> available_now(Some((available, None)), now),
        available != 0 ==> (available_now(Some((available, Some(until))), now) <==> now >= until),
{
}

/// A call began as many whole seconds ago as it took.
pub proof fn milliseconds_are_whole_seconds(millis: int)
    requires
        millis >= 0,
    ensures
        0 <= millis - 1000 * whole_seconds(millis) < 1000,
{
}

/// Whether a record is that of a call which ended now, after so long.
pub open spec fn is_record_of(r: CallRecord, now: i64, latency_ms: i64, success: bool) -> bool {
    &&& r.status@ == if success {
        "completed"@
    } else {
        "failed"@
    }
    &&& r.started_at == now - whole_seconds(latency_ms as int)
    &&& r.completed_at == now
}

/// A call is recorded as completed exactly where it succeeded, and as long as it took.
pub proof fn calls_are_recorded(r: CallRecord, now: i64, latency_ms: i64, success: bool)
    requires
        is_record_of(r, now, latency_ms, success),
    ensures
        success ==> r.status@ == "completed"@,
        !success ==> r.status@ == "failed"@,
        r.completed_at == now,
        latency_ms >= 0 ==> r.started_at <= now && 1000 * (now - r.started_at) <= latency_ms
            && latency_ms < 1000 * (now - r.started_at) + 1000,
{
}

} // verus!
