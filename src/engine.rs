//! The arithmetic of running a schedule: how long a worker waits before its
//! task starts, how a wait shrinks under a speedup factor, and how much time
//! the whole schedule spans.

use crate::program::ScheduledProgram;
use vstd::prelude::*;

verus! {

/// Why a schedule cannot be run as given.
#[derive(Debug, Clone, Copy, PartialEq, Eq, Structural)]
pub enum EngineError {
    /// A task's start is already in the past when its worker is launched.
    StartInPast,
    /// The schedule holds no task.
    EmptySchedule,
    /// The last task's end lies beyond the range of instants.
    EndOutOfRange,
}

/// Seconds from `now` until `start`, saturated at the largest `u64`; a start
/// in the past is an error, since tasks are never started late.
pub fn time_to_sleep_before_start(start: u64, now: i64) -> (r: Result<u64, EngineError>)
    ensures
        r == if start - now > u64::MAX {
            Ok::<u64, EngineError>(u64::MAX)
        } else if start >= now {
            Ok::<u64, EngineError>((start - now) as u64)
        } else {
            Err(EngineError::StartInPast)
        },
{
    let remaining: i128 = start as i128 - now as i128;
    if remaining < 0 {
        Err(EngineError::StartInPast)
    } else {
        if remaining > u64::MAX as i128 {
            Ok(u64::MAX)
        } else {
            Ok(remaining as u64)
        }
    }
}

/// A wait of `secs` seconds on a timeline compressed by `speedup`, in
/// milliseconds (rounded down).
pub fn scaled_wait_millis(secs: u64, speedup: u64) -> (r: u128)
    requires
        speedup > 0,
    ensures
        r == (secs as int * 1000) / (speedup as int),
{
    (secs as u128 * 1000) / (speedup as u128)
}

/// The end of a task: its start plus its run time.
pub open spec fn end_of(p: ScheduledProgram) -> int {
    p.real_start_time + p.real_execution_duration
}

/// `e` is the earliest start of a non-empty schedule.
pub open spec fn is_earliest_start(q: Seq<ScheduledProgram>, e: int) -> bool {
    &&& forall|i: int| 0 <= i < q.len() ==> e <= #[trigger] q[i].real_start_time
    &&& exists|i: int| 0 <= i < q.len() && e == #[trigger] q[i].real_start_time
}

/// `e` is the latest end of a non-empty schedule.
pub open spec fn is_latest_end(q: Seq<ScheduledProgram>, e: int) -> bool {
    &&& forall|i: int| 0 <= i < q.len() ==> #[trigger] end_of(q[i]) <= e
    &&& exists|i: int| 0 <= i < q.len() && e == #[trigger] end_of(q[i])
}

/// Seconds from the earliest start to the latest end of the schedule, in
/// time order whatever the order of the list.
pub fn total_elapsed_secs(queue: &Vec<ScheduledProgram>) -> (r: Result<u64, EngineError>)
    ensures
        queue@.len() == 0 <==> r == Err::<u64, EngineError>(EngineError::EmptySchedule),
        r == Err::<u64, EngineError>(EngineError::EndOutOfRange) <==> (queue@.len() > 0
            && exists|i: int| 0 <= i < queue@.len() && #[trigger] end_of(queue@[i]) > u64::MAX),
        r matches Ok(d) ==> forall|first: int, last: int|
            #[trigger] is_earliest_start(queue@, first) && #[trigger] is_latest_end(queue@, last)
                ==> d == last - first,
        r is Ok || r == Err::<u64, EngineError>(EngineError::EmptySchedule) || r == Err::<
            u64,
            EngineError,
        >(EngineError::EndOutOfRange),
{
    if queue.len() == 0 {
        return Err(EngineError::EmptySchedule);
    }
    let mut first = queue[0].real_start_time;
    let mut last: u64 = 0;
    let mut k: usize = 0;
    while k < queue.len()
        invariant
            0 < queue@.len(),
            k <= queue@.len(),
            forall|i: int| 0 <= i < k ==> end_of(#[trigger] queue@[i]) <= u64::MAX,
            forall|i: int| 0 <= i < k ==> first <= #[trigger] queue@[i].real_start_time,
            exists|i: int| 0 <= i < queue@.len() && first == #[trigger] queue@[i].real_start_time,
            forall|i: int| 0 <= i < k ==> #[trigger] end_of(queue@[i]) <= last,
            k > 0 ==> exists|i: int| 0 <= i < k && last == #[trigger] end_of(queue@[i]),
        decreases queue@.len() - k,
    {
        let t = &queue[k];
        if t.real_start_time > u64::MAX - t.real_execution_duration {
            assert(end_of(queue@[k as int]) > u64::MAX);
            return Err(EngineError::EndOutOfRange);
        }
        let end = t.real_start_time + t.real_execution_duration;
        if t.real_start_time < first {
            first = t.real_start_time;
        }
        let ghost old_last = last;
        if end > last || k == 0 {
            last = end;
        }
        proof {
            assert(end_of(queue@[k as int]) == end);
            if last != end {
                let j = choose|j: int| 0 <= j < k && old_last == #[trigger] end_of(queue@[j]);
                assert(0 <= j < k + 1 && last == end_of(queue@[j]));
            } else {
                assert(0 <= k < k + 1 && last == end_of(queue@[k as int]));
            }
        }
        k = k + 1;
    }
    proof {
        let i = choose|i: int| 0 <= i < queue@.len() && first == #[trigger] queue@[i].real_start_time;
        assert(end_of(queue@[i]) <= last);
        assert forall|f: int, l: int|
            #[trigger] is_earliest_start(queue@, f) && #[trigger] is_latest_end(queue@, l)
                implies last - first == l - f by {
            let a = choose|a: int| 0 <= a < queue@.len() && f == #[trigger] queue@[a].real_start_time;
            let b = choose|b: int| 0 <= b < queue@.len() && l == #[trigger] end_of(queue@[b]);
            let c = choose|c: int| 0 <= c < queue@.len() && last == #[trigger] end_of(queue@[c]);
            assert(first <= queue@[a].real_start_time);
            assert(f <= queue@[i].real_start_time);
            assert(end_of(queue@[b]) <= last);
            assert(end_of(queue@[c]) <= l);
        }
    }
    Ok(last - first)
}

} // verus!
