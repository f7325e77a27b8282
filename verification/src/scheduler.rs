//! Scheduling decisions: task identifiers, interval checks, and cron expressions (parsed by the
//! `cron` crate).
use vstd::prelude::*;

use crate::text::owned;

verus! {

/// `cron::Schedule`, a parsed cron expression, carried opaquely to the task that runs on it.
#[verifier::external_type_specification]
#[verifier::external_body]
pub struct ExSchedule(cron::Schedule);

/// Identifies a scheduled task.
#[derive(Debug, Clone, Copy, PartialEq, Eq, Hash)]
pub struct TaskId(pub u64);

/// Hands out task identifiers, counting up from 1 (and wrapping around at the end of `u64`).
pub struct TaskIds {
    next: u64,
}

impl TaskIds {
    pub closed spec fn spec_next(&self) -> u64 {
        self.next
    }

    pub fn new() -> (r: Self)
        ensures
            r.spec_next() == 1,
    {
        TaskIds { next: 1 }
    }

    /// The next identifier.
    pub fn next_task_id(&mut self) -> (r: TaskId)
        ensures
            r == TaskId(old(self).spec_next()),
            final(self).spec_next() == (if old(self).spec_next() == u64::MAX {
                0
            } else {
                old(self).spec_next() + 1
            }),
    {
        let id = TaskId(self.next);
        self.next = self.next.wrapping_add(1);
        id
    }
}

/// Identifiers handed out one after another differ, short of wrapping around.
pub proof fn law_task_ids_differ(next: u64, k: nat)
    requires
        next as int + k < u64::MAX,
        k > 0,
    ensures
        next != (next + k) as u64,
{
}

/// Accepts a repeating task's interval (in nanoseconds) only when it is positive.
pub fn check_interval(interval_nanos: u128) -> (r: Result<(), String>)
    ensures
        r is Ok <==> interval_nanos > 0,
        r matches Err(msg) ==> msg@ == "interval must be greater than zero"@,
{
    if interval_nanos == 0 {
        Err(owned("interval must be greater than zero"))
    } else {
        Ok(())
    }
}

/// Whether `cron::Schedule::from_str` accepts `expr`.
pub uninterp spec fn cron_parses(expr: Seq<char>) -> bool;

/// Parses `expr` with `cron::Schedule::from_str`; the error's text when it fails (what the
/// text says is not stated).
#[verifier::external_body]
fn schedule_from_str(expr: &str) -> (r: Result<cron::Schedule, String>)
    ensures
        r is Ok <==> cron_parses(expr@),
{
    match <cron::Schedule as std::str::FromStr>::from_str(expr) {
        Ok(schedule) => Ok(schedule),
        Err(err) => Err(err.to_string()),
    }
}

/// The schedule of a cron task, or why `expr` is not a cron expression.
pub fn parse_cron(expr: &str) -> (r: Result<cron::Schedule, String>)
    ensures
        r is Ok <==> cron_parses(expr@),
        r matches Err(msg) ==> ("invalid cron expression `"@ + expr@ + "`: "@).is_prefix_of(msg@),
{
    match schedule_from_str(expr) {
        Ok(schedule) => Ok(schedule),
        Err(err) => {
            let mut msg = owned("invalid cron expression `");
            msg.push_str(expr);
            msg.push_str("`: ");
            let ghost head = msg@;
            msg.push_str(err.as_str());
            assert(head.is_prefix_of(msg@)) by {
                assert forall|i: int| 0 <= i < head.len() implies head[i] == msg@[i] by {}
            }
            Err(msg)
        },
    }
}

} // verus!
