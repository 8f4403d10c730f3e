//! Task templates, scheduled tasks, and the scheduler that turns the former
//! into a collision-free timetable of the latter.

use crate::clock::{now_timestamp, random_in_range};
use std::collections::HashSet;
use vstd::prelude::*;

verus! {

broadcast use {vstd::seq_lib::group_to_multiset_ensures, vstd::std_specs::hash::group_hash_axioms};

/// One day, in seconds: the amount by which a whole batch is moved forward.
pub const SECONDS_PER_DAY: u64 = 86400;

/// Two tasks of one resource group must start more than this many seconds apart.
pub const MIN_GROUP_GAP_SECS: u64 = 3600;

/// How often one task is drawn again before the spacing rule is given up on.
pub const MAX_SPACING_ATTEMPTS: u32 = 10000;

/// How many scheduling passes are made before the batch is given up on.
pub const MAX_PASSES: u32 = 1000;

/// The nominal description of a task, before randomization.
#[derive(Debug, Clone)]
pub struct UnscheduledProgram {
    pub name: String,
    /// Nominal start, in seconds since the Unix epoch.
    pub default_start_time: u64,
    /// Largest start offset, in seconds, either way.
    pub start_time_randomization_secs: u32,
    /// Nominal run time, in seconds.
    pub default_execution_secs: u64,
    /// Largest run-time offset, in seconds, either way.
    pub execution_time_randomization_secs: u32,
    /// Resource group: tasks sharing it are kept apart.
    pub program_id: String,
}

/// A task with a concrete start and run time, and the template it came from.
#[derive(Debug, Clone)]
pub struct ScheduledProgram {
    pub name: String,
    /// Start, in seconds since the Unix epoch.
    pub real_start_time: u64,
    /// Run time, in seconds.
    pub real_execution_duration: u64,
    pub program_id: String,
    pub created_from: UnscheduledProgram,
}

/// Why no schedule could be produced.
#[derive(Debug, Clone, Copy, PartialEq, Eq, Structural)]
pub enum ScheduleError {
    /// A run time plus its drawn offset came out below zero.
    NegativeDuration,
    /// A start plus its drawn offset, or a shift by a day, left the range of instants.
    StartOutOfRange,
    /// A run time plus its drawn offset came out above the largest `u64`.
    DurationOutOfRange,
    /// No draw kept a task more than an hour from its group's previous start.
    SpacingRetriesExhausted,
    /// Whole-batch retries (day shifts and minute collisions) did not settle.
    PassesExhausted,
}

/// What one scheduling pass over a sorted batch came to.
pub enum PassOutcome {
    /// Every invariant holds: this is the final schedule.
    Done(Vec<ScheduledProgram>),
    /// The first task would start in the past: the batch belongs to tomorrow.
    ShiftDay,
    /// Two starts of this draw fell into the same minute: the whole batch is
    /// drawn again.
    Collision(Vec<ScheduledProgram>),
}

pub open spec fn within(value: int, center: int, radius: int) -> bool {
    center - radius <= value <= center + radius
}

/// `p` is a draw from template `t`: same labels, start and run time inside
/// the template's windows.
pub open spec fn derived_from(p: ScheduledProgram, t: UnscheduledProgram) -> bool {
    &&& p.created_from == t
    &&& p.name == t.name
    &&& p.program_id == t.program_id
    &&& within(
        p.real_start_time as int,
        t.default_start_time as int,
        t.start_time_randomization_secs as int,
    )
    &&& within(
        p.real_execution_duration as int,
        t.default_execution_secs as int,
        t.execution_time_randomization_secs as int,
    )
}

/// A scheduled task is consistent with the template it carries.
pub open spec fn well_formed(p: ScheduledProgram) -> bool {
    derived_from(p, p.created_from)
}

pub open spec fn same_group(a: ScheduledProgram, b: ScheduledProgram) -> bool {
    a.program_id@ == b.program_id@
}

/// `p` starts more than an hour after every task of its group in `schedule`.
pub open spec fn spaced_after(p: ScheduledProgram, schedule: Seq<ScheduledProgram>) -> bool {
    forall|i: int|
        0 <= i < schedule.len() && #[trigger] same_group(schedule[i], p) ==> p.real_start_time
            > schedule[i].real_start_time + MIN_GROUP_GAP_SECS
}

/// Within each group, every task starts more than an hour after all earlier ones.
pub open spec fn group_spaced(s: Seq<ScheduledProgram>) -> bool {
    forall|i: int, j: int|
        0 <= i < j < s.len() && #[trigger] same_group(s[i], s[j]) ==> s[j].real_start_time
            > s[i].real_start_time + MIN_GROUP_GAP_SECS
}

/// The start minute of an instant: the instant truncated to minute precision.
pub open spec fn minute_of(t: u64) -> int {
    t as int / 60
}

/// No two tasks start in the same minute.
pub open spec fn minute_distinct(s: Seq<ScheduledProgram>) -> bool {
    forall|i: int, j: int|
        0 <= i < s.len() && 0 <= j < s.len() && i != j ==> minute_of(#[trigger] s[i].real_start_time)
            != minute_of(#[trigger] s[j].real_start_time)
}

/// Templates in non-decreasing order of nominal start.
pub open spec fn sorted_by_start(s: Seq<UnscheduledProgram>) -> bool {
    forall|i: int, j: int|
        0 <= i <= j < s.len() ==> #[trigger] s[i].default_start_time
            <= #[trigger] s[j].default_start_time
}

pub open spec fn has_duplicate(s: Seq<u64>) -> bool {
    exists|i: int, j: int| 0 <= i < j < s.len() && s[i] == s[j]
}

/// A template whose run-time window reaches below zero.
pub open spec fn duration_may_go_negative(t: UnscheduledProgram) -> bool {
    t.execution_time_randomization_secs > t.default_execution_secs
}

/// A template whose start window reaches outside the range of instants.
pub open spec fn start_may_leave_range(t: UnscheduledProgram) -> bool {
    t.default_start_time < t.start_time_randomization_secs || t.default_start_time
        + t.start_time_randomization_secs > u64::MAX
}

/// A template whose run-time window reaches above the largest `u64`.
pub open spec fn duration_may_leave_range(t: UnscheduledProgram) -> bool {
    t.default_execution_secs + t.execution_time_randomization_secs > u64::MAX
}

/// Template `t` moved forward by `days` whole days.
pub open spec fn shifted(t: UnscheduledProgram, days: int) -> UnscheduledProgram {
    UnscheduledProgram {
        default_start_time: (t.default_start_time + days * SECONDS_PER_DAY) as u64,
        ..t
    }
}

/// Template `t`, moved forward by `days` days, has a start window that
/// reaches outside the range of instants, or cannot be moved one day further.
pub open spec fn start_leaves_range_after(t: UnscheduledProgram, days: int) -> bool {
    ||| start_may_leave_range(shifted(t, days))
    ||| t.default_start_time + (days + 1) * SECONDS_PER_DAY > u64::MAX
}

/// A batch whose draws are all fixed (no jitter) and already meet every
/// invariant: groups spaced, starts in distinct minutes, the first start not
/// before `now`.
pub open spec fn fixed_batch_fits(t: Seq<UnscheduledProgram>, now: int) -> bool {
    &&& forall|i: int|
        0 <= i < t.len() ==> (#[trigger] t[i]).start_time_randomization_secs == 0
            && t[i].execution_time_randomization_secs == 0
    &&& forall|i: int, j: int|
        0 <= i < j < t.len() && (#[trigger] t[i]).program_id@ == (#[trigger] t[j]).program_id@
            ==> t[j].default_start_time > t[i].default_start_time + MIN_GROUP_GAP_SECS
    &&& forall|i: int, j: int|
        0 <= i < t.len() && 0 <= j < t.len() && i != j ==> minute_of(
            (#[trigger] t[i]).default_start_time,
        ) != minute_of((#[trigger] t[j]).default_start_time)
    &&& t.len() > 0 ==> t[0].default_start_time >= now
}

/// A finalized schedule: each task drawn from its template, templates in
/// order of nominal start, no two starts in one minute, groups spaced.
pub open spec fn finalized(s: Seq<ScheduledProgram>) -> bool {
    &&& forall|i: int| 0 <= i < s.len() ==> well_formed(#[trigger] s[i])
    &&& sorted_by_start(s.map_values(|p: ScheduledProgram| p.created_from))
    &&& minute_distinct(s)
    &&& group_spaced(s)
}

/// Schedule `s` comes from the batch `input`: `base` is the batch stably
/// sorted by nominal start, and task `i` was drawn from `base[i]` moved
/// forward by `days` days.
pub open spec fn drawn_from_batch(
    s: Seq<ScheduledProgram>,
    input: Seq<UnscheduledProgram>,
    days: int,
    base: Seq<UnscheduledProgram>,
) -> bool {
    &&& 0 <= days
    &&& stable_sort_of(base, input)
    &&& base.len() == s.len()
    &&& forall|i: int| 0 <= i < s.len() ==> (#[trigger] s[i]).created_from == shifted(base[i], days)
}

impl UnscheduledProgram {
    /// A field-by-field copy.
    pub fn duplicate(&self) -> (r: UnscheduledProgram)
        ensures
            r == *self,
    {
        UnscheduledProgram {
            name: self.name.clone(),
            default_start_time: self.default_start_time,
            start_time_randomization_secs: self.start_time_randomization_secs,
            default_execution_secs: self.default_execution_secs,
            execution_time_randomization_secs: self.execution_time_randomization_secs,
            program_id: self.program_id.clone(),
        }
    }

    /// Draws a start and a run time inside this template's windows.
    pub fn schedule_program(self) -> (r: Result<ScheduledProgram, ScheduleError>)
        ensures
            r matches Ok(p) ==> derived_from(p, self),
            self.start_time_randomization_secs == 0 && self.execution_time_randomization_secs
                == 0 ==> r == Ok::<ScheduledProgram, ScheduleError>(
                ScheduledProgram {
                    name: self.name,
                    real_start_time: self.default_start_time,
                    real_execution_duration: self.default_execution_secs,
                    program_id: self.program_id,
                    created_from: self,
                },
            ),
            r == Err::<ScheduledProgram, ScheduleError>(ScheduleError::StartOutOfRange)
                ==> start_may_leave_range(self),
            r == Err::<ScheduledProgram, ScheduleError>(ScheduleError::NegativeDuration)
                ==> duration_may_go_negative(self),
            r == Err::<ScheduledProgram, ScheduleError>(ScheduleError::DurationOutOfRange)
                ==> duration_may_leave_range(self),
            r matches Err(e) ==> e == ScheduleError::StartOutOfRange || e
                == ScheduleError::NegativeDuration || e == ScheduleError::DurationOutOfRange,
    {
        let start_delta = generate_randomized_delta(self.start_time_randomization_secs);
        let execution_delta = generate_randomized_delta(self.execution_time_randomization_secs);
        self.schedule_program_with_deltas(start_delta, execution_delta)
    }

    /// The task that this template gives for a start offset of `start_delta`
    /// and a run-time offset of `execution_delta` seconds. A start outside the
    /// range of instants and a run time below zero or above `u64` are errors;
    /// nothing is clamped.
    pub fn schedule_program_with_deltas(self, start_delta: i64, execution_delta: i64) -> (r: Result<
        ScheduledProgram,
        ScheduleError,
    >)
        ensures
            0 <= self.default_start_time + start_delta <= u64::MAX && 0
                <= self.default_execution_secs + execution_delta <= u64::MAX ==> r == Ok::<
                ScheduledProgram,
                ScheduleError,
            >(
                ScheduledProgram {
                    name: self.name,
                    real_start_time: (self.default_start_time + start_delta) as u64,
                    real_execution_duration: (self.default_execution_secs
                        + execution_delta) as u64,
                    program_id: self.program_id,
                    created_from: self,
                },
            ),
            !(0 <= self.default_start_time + start_delta <= u64::MAX) ==> r == Err::<
                ScheduledProgram,
                ScheduleError,
            >(ScheduleError::StartOutOfRange),
            0 <= self.default_start_time + start_delta <= u64::MAX
                && self.default_execution_secs + execution_delta < 0 ==> r == Err::<
                ScheduledProgram,
                ScheduleError,
            >(ScheduleError::NegativeDuration),
            0 <= self.default_start_time + start_delta <= u64::MAX
                && self.default_execution_secs + execution_delta > u64::MAX ==> r == Err::<
                ScheduledProgram,
                ScheduleError,
            >(ScheduleError::DurationOutOfRange),
    {
        let real_start_time = match apply_delta_to_start_moment(self.default_start_time, start_delta) {
            Ok(t) => t,
            Err(e) => return Err(e),
        };
        let real_execution_duration = match apply_delta_to_execution_time(
            self.default_execution_secs,
            execution_delta,
        ) {
            Ok(d) => d,
            Err(e) => return Err(e),
        };
        Ok(
            ScheduledProgram {
                name: self.name.clone(),
                real_start_time,
                real_execution_duration,
                program_id: self.program_id.clone(),
                created_from: self,
            },
        )
    }
}

/// A random offset in seconds, anywhere in `-max..=max`.
pub fn generate_randomized_delta(max: u32) -> (r: i64)
    ensures
        -(max as int) <= r <= max as int,
{
    let m = max as i64;
    random_in_range(-m, m)
}

/// A nominal start moved by `delta` seconds; an instant outside `u64` is an error.
pub fn apply_delta_to_start_moment(start: u64, delta: i64) -> (r: Result<u64, ScheduleError>)
    ensures
        r == if 0 <= start + delta <= u64::MAX {
            Ok::<u64, ScheduleError>((start + delta) as u64)
        } else {
            Err(ScheduleError::StartOutOfRange)
        },
{
    let moved: i128 = start as i128 + delta as i128;
    if moved < 0 || moved > u64::MAX as i128 {
        Err(ScheduleError::StartOutOfRange)
    } else {
        Ok(moved as u64)
    }
}

/// A nominal run time moved by `delta` seconds; a negative result is an error,
/// never clamped.
pub fn apply_delta_to_execution_time(duration: u64, delta: i64) -> (r: Result<u64, ScheduleError>)
    ensures
        r == if 0 <= duration + delta <= u64::MAX {
            Ok::<u64, ScheduleError>((duration + delta) as u64)
        } else if duration + delta < 0 {
            Err(ScheduleError::NegativeDuration)
        } else {
            Err(ScheduleError::DurationOutOfRange)
        },
{
    let moved: i128 = duration as i128 + delta as i128;
    if moved < 0 {
        Err(ScheduleError::NegativeDuration)
    } else if moved > u64::MAX as i128 {
        Err(ScheduleError::DurationOutOfRange)
    } else {
        Ok(moved as u64)
    }
}


impl ScheduledProgram {
    /// Keeps this draw if it starts more than an hour after every task of its
    /// group already in `schedule`; otherwise draws again from the same
    /// template, up to `MAX_SPACING_ATTEMPTS` times.
    pub fn check_against_the_schedule_and_reschedule_if_necessary(
        self,
        schedule: &Vec<ScheduledProgram>,
    ) -> (r: Result<ScheduledProgram, ScheduleError>)
        requires
            well_formed(self),
        ensures
            r matches Ok(p) ==> derived_from(p, self.created_from) && spaced_after(p, schedule@),
            spaced_after(self, schedule@) ==> r == Ok::<ScheduledProgram, ScheduleError>(self),
            r == Err::<ScheduledProgram, ScheduleError>(ScheduleError::StartOutOfRange)
                ==> start_may_leave_range(self.created_from),
            r == Err::<ScheduledProgram, ScheduleError>(ScheduleError::NegativeDuration)
                ==> duration_may_go_negative(self.created_from),
            r == Err::<ScheduledProgram, ScheduleError>(ScheduleError::DurationOutOfRange)
                ==> duration_may_leave_range(self.created_from),
            r != Err::<ScheduledProgram, ScheduleError>(ScheduleError::PassesExhausted),
    {
        let latest = latest_start_in_group(schedule, &self.program_id);
        let ghost template = self.created_from;
        let mut candidate = self;
        let mut attempts: u32 = 0;
        while attempts < MAX_SPACING_ATTEMPTS
            invariant
                derived_from(candidate, template),
                attempts > 0 ==> !spaced_after(self, schedule@),
                attempts == 0 ==> candidate == self,
                candidate.program_id@ == self.program_id@,
                template == self.created_from,
                latest matches Some(l) ==> (forall|i: int|
                    0 <= i < schedule@.len() && #[trigger] schedule@[i].program_id@ == self.program_id@
                        ==> schedule@[i].real_start_time <= l) && (exists|i: int|
                    0 <= i < schedule@.len() && #[trigger] schedule@[i].program_id@ == self.program_id@
                        && schedule@[i].real_start_time == l),
                latest is None ==> forall|i: int|
                    0 <= i < schedule@.len() ==> #[trigger] schedule@[i].program_id@ != self.program_id@,
            decreases MAX_SPACING_ATTEMPTS - attempts,
        {
            let fits = match latest {
                None => true,
                Some(l) => candidate.real_start_time > l && candidate.real_start_time - l
                    > MIN_GROUP_GAP_SECS,
            };
            if fits {
                assert(spaced_after(candidate, schedule@)) by {
                    assert forall|i: int|
                        0 <= i < schedule@.len() && #[trigger] same_group(
                            schedule@[i],
                            candidate,
                        ) implies candidate.real_start_time > schedule@[i].real_start_time
                        + MIN_GROUP_GAP_SECS by {
                        assert(schedule@[i].program_id@ == self.program_id@);
                    }
                }
                return Ok(candidate);
            }
            if attempts == 0 {
                assert(!spaced_after(self, schedule@)) by {
                    if let Some(l) = latest {
                        let i = choose|i: int|
                            0 <= i < schedule@.len() && #[trigger] schedule@[i].program_id@ == self.program_id@
                                && schedule@[i].real_start_time == l;
                        assert(same_group(schedule@[i], self));
                    }
                }
            }
            candidate = match candidate.created_from.duplicate().schedule_program() {
                Ok(p) => p,
                Err(e) => return Err(e),
            };
            attempts = attempts + 1;
        }
        Err(ScheduleError::SpacingRetriesExhausted)
    }
}

/// The latest start among the tasks of `schedule` in group `id`, if any.
pub fn latest_start_in_group(schedule: &Vec<ScheduledProgram>, id: &String) -> (r: Option<u64>)
    ensures
        r matches Some(l) ==> (forall|i: int|
            0 <= i < schedule@.len() && #[trigger] schedule@[i].program_id@ == id@
                ==> schedule@[i].real_start_time <= l) && (exists|i: int|
            0 <= i < schedule@.len() && #[trigger] schedule@[i].program_id@ == id@
                && schedule@[i].real_start_time == l),
        r is None ==> forall|i: int|
            0 <= i < schedule@.len() ==> #[trigger] schedule@[i].program_id@ != id@,
{
    let mut latest: Option<u64> = None;
    let mut k: usize = 0;
    while k < schedule.len()
        invariant
            k <= schedule@.len(),
            latest matches Some(l) ==> (forall|i: int|
                0 <= i < k && #[trigger] schedule@[i].program_id@ == id@
                    ==> schedule@[i].real_start_time <= l) && (exists|i: int|
                0 <= i < k && #[trigger] schedule@[i].program_id@ == id@
                    && schedule@[i].real_start_time == l),
            latest is None ==> forall|i: int|
                0 <= i < k ==> #[trigger] schedule@[i].program_id@ != id@,
        decreases schedule@.len() - k,
    {
        let t = &schedule[k];
        if t.program_id == *id {
            match latest {
                None => {
                    latest = Some(t.real_start_time);
                },
                Some(l) => {
                    if t.real_start_time > l {
                        latest = Some(t.real_start_time);
                    }
                },
            }
        }
        k = k + 1;
    }
    latest
}

/// Whether any value occurs twice in `v`.
pub fn has_duplicates(v: Vec<u64>) -> (r: bool)
    ensures
        r == has_duplicate(v@),
{
    let mut seen: HashSet<u64> = HashSet::new();
    let mut k: usize = 0;
    while k < v.len()
        invariant
            k <= v@.len(),
            seen@ == v@.subrange(0, k as int).to_set(),
            !has_duplicate(v@.subrange(0, k as int)),
        decreases v@.len() - k,
    {
        let x = v[k];
        proof {
            assert(v@.subrange(0, k + 1) == v@.subrange(0, k as int).push(x));
            v@.subrange(0, k as int).lemma_push_to_set_commute(x);
        }
        if !seen.insert(x) {
            assert(has_duplicate(v@)) by {
                assert(v@.subrange(0, k as int).contains(x));
                let i = choose|i: int| 0 <= i < k && v@.subrange(0, k as int)[i] == x;
                assert(v@[i] == v@[k as int]);
            }
            return true;
        }
        proof {
            let next = v@.subrange(0, k + 1);
            if has_duplicate(next) {
                let (i, j) = choose|i: int, j: int| 0 <= i < j < next.len() && next[i] == next[j];
                if j == k {
                    assert(v@.subrange(0, k as int)[i] == next[i]);
                    assert(v@.subrange(0, k as int).contains(x));
                } else {
                    assert(v@.subrange(0, k as int)[i] == next[i]);
                    assert(v@.subrange(0, k as int)[j] == next[j]);
                }
            }
        }
        k = k + 1;
    }
    assert(v@.subrange(0, k as int) == v@);
    false
}

/// The templates of `s` whose nominal start is `k`, in their order in `s`.
pub open spec fn with_start(s: Seq<UnscheduledProgram>, k: u64) -> Seq<UnscheduledProgram> {
    s.filter(|t: UnscheduledProgram| t.default_start_time == k)
}

/// `r` is `v` stably sorted by nominal start: in start order, and templates
/// with equal starts in their order in `v`.
pub open spec fn stable_sort_of(r: Seq<UnscheduledProgram>, v: Seq<UnscheduledProgram>) -> bool {
    &&& sorted_by_start(r)
    &&& r.to_multiset() == v.to_multiset()
    &&& forall|k: u64| #[trigger] with_start(r, k) == with_start(v, k)
}

proof fn lemma_filter_none<A>(s: Seq<A>, p: spec_fn(A) -> bool)
    requires
        forall|i: int| 0 <= i < s.len() ==> !p(#[trigger] s[i]),
    ensures
        s.filter(p) == Seq::<A>::empty(),
    decreases s.len(),
{
    reveal(Seq::filter);
    if s.len() > 0 {
        lemma_filter_none(s.drop_last(), p);
    }
}

proof fn lemma_filter_single<A>(a: A, p: spec_fn(A) -> bool)
    ensures
        seq![a].filter(p) == if p(a) {
            seq![a]
        } else {
            Seq::<A>::empty()
        },
{
    reveal_with_fuel(Seq::filter, 2);
    assert(seq![a].drop_last() =~= Seq::<A>::empty());
    assert(Seq::<A>::empty().push(a) =~= seq![a]);
}

/// The templates in non-decreasing order of nominal start; templates with
/// equal starts keep their input order.
pub fn sort_by_default_start(v: Vec<UnscheduledProgram>) -> (r: Vec<UnscheduledProgram>)
    ensures
        stable_sort_of(r@, v@),
{
    let mut rest = v;
    let mut out: Vec<UnscheduledProgram> = Vec::new();
    while rest.len() > 0
        invariant
            sorted_by_start(out@),
            out@.to_multiset().add(rest@.to_multiset()) == v@.to_multiset(),
            forall|k: u64| with_start(out@, k) + with_start(rest@, k) == #[trigger] with_start(v@, k),
        decreases rest@.len(),
    {
        let ghost before = rest@;
        let t = rest.remove(0);
        let mut pos: usize = out.len();
        while pos > 0 && out[pos - 1].default_start_time > t.default_start_time
            invariant
                pos <= out@.len(),
                forall|k: int| pos <= k < out@.len() ==> #[trigger] out@[k].default_start_time
                    > t.default_start_time,
            decreases pos,
        {
            pos = pos - 1;
        }
        let ghost old_out = out@;
        out.insert(pos, t);
        proof {
            assert(before.to_multiset().remove(before[0]) == rest@.to_multiset());
            assert(before.to_multiset().contains(before[0]));
            assert(old_out.to_multiset().add(before.to_multiset()) == v@.to_multiset());
            assert(out@.to_multiset() == old_out.to_multiset().insert(t));
            assert(out@.to_multiset().add(rest@.to_multiset()) =~= v@.to_multiset());
            let a = old_out.subrange(0, pos as int);
            let b = old_out.subrange(pos as int, old_out.len() as int);
            assert(old_out =~= a + b);
            assert(out@ =~= a + seq![t] + b);
            assert(before =~= seq![t] + rest@);
            assert forall|k: u64| with_start(out@, k) + with_start(rest@, k) == #[trigger] with_start(
                v@,
                k,
            ) by {
                let p = |x: UnscheduledProgram| x.default_start_time == k;
                assert(with_start(old_out, k) + with_start(before, k) == with_start(v@, k));
                Seq::filter_distributes_over_add(a, b, p);
                Seq::filter_distributes_over_add(a, seq![t], p);
                Seq::filter_distributes_over_add(a + seq![t], b, p);
                Seq::filter_distributes_over_add(seq![t], rest@, p);
                lemma_filter_single(t, p);
                if t.default_start_time == k {
                    assert forall|i: int| 0 <= i < b.len() implies !p(#[trigger] b[i]) by {
                        assert(old_out[pos + i].default_start_time > t.default_start_time);
                    }
                    lemma_filter_none(b, p);
                }
                assert(with_start(out@, k) + with_start(rest@, k) =~= with_start(old_out, k)
                    + with_start(before, k));
            }
            assert forall|i: int, j: int| 0 <= i <= j < out@.len() implies #[trigger] out@[i].default_start_time
                <= #[trigger] out@[j].default_start_time by {
                if pos > 0 {
                    assert(old_out[pos - 1].default_start_time <= t.default_start_time);
                }
                if i < pos && j > pos {
                    assert(old_out[i].default_start_time <= old_out[j - 1].default_start_time);
                }
                if i < pos && j == pos {
                    assert(old_out[i].default_start_time <= old_out[pos - 1].default_start_time);
                }
            }
        }
    }
    proof {
        assert(rest@ =~= Seq::<UnscheduledProgram>::empty());
        assert(out@.to_multiset().add(rest@.to_multiset()) =~= out@.to_multiset());
        assert forall|k: u64| #[trigger] with_start(out@, k) == with_start(v@, k) by {
            assert(with_start(out@, k) + with_start(rest@, k) == with_start(v@, k));
            lemma_filter_none(rest@, |x: UnscheduledProgram| x.default_start_time == k);
            assert(with_start(out@, k) + with_start(rest@, k) =~= with_start(out@, k));
        }
    }
    out
}

/// Every template moved forward by one day; an instant beyond `u64` is an error.
pub fn shift_by_one_day(templates: &Vec<UnscheduledProgram>) -> (r: Result<
    Vec<UnscheduledProgram>,
    ScheduleError,
>)
    ensures
        r matches Ok(s) ==> s@.len() == templates@.len() && forall|i: int|
            0 <= i < s@.len() ==> #[trigger] s@[i] == shifted(templates@[i], 1),
        r is Err <==> exists|i: int|
            0 <= i < templates@.len() && #[trigger] templates@[i].default_start_time
                + SECONDS_PER_DAY > u64::MAX,
        r matches Err(e) ==> e == ScheduleError::StartOutOfRange,
{
    let mut out: Vec<UnscheduledProgram> = Vec::new();
    let mut k: usize = 0;
    while k < templates.len()
        invariant
            k <= templates@.len(),
            out@.len() == k,
            forall|i: int| 0 <= i < k ==> #[trigger] out@[i] == shifted(templates@[i], 1),
            forall|i: int|
                0 <= i < k ==> #[trigger] templates@[i].default_start_time + SECONDS_PER_DAY
                    <= u64::MAX,
        decreases templates@.len() - k,
    {
        let t = &templates[k];
        if t.default_start_time > u64::MAX - SECONDS_PER_DAY {
            return Err(ScheduleError::StartOutOfRange);
        }
        let mut moved = t.duplicate();
        moved.default_start_time = t.default_start_time + SECONDS_PER_DAY;
        out.push(moved);
        k = k + 1;
    }
    Ok(out)
}

/// Whether the first task of a batch, starting at `first_start`, is already
/// in the past at `now`, so that the batch belongs to the next day.
pub fn needs_day_shift(first_start: u64, now: i64) -> (r: bool)
    ensures
        r == (first_start < now),
{
    (first_start as i128) < (now as i128)
}

/// The start minute of each task, in order.
pub fn start_minutes(schedule: &Vec<ScheduledProgram>) -> (r: Vec<u64>)
    ensures
        r@.len() == schedule@.len(),
        forall|i: int| 0 <= i < r@.len() ==> r@[i] == minute_of(#[trigger] schedule@[i].real_start_time),
{
    let mut out: Vec<u64> = Vec::new();
    let mut k: usize = 0;
    while k < schedule.len()
        invariant
            k <= schedule@.len(),
            out@.len() == k,
            forall|i: int| 0 <= i < k ==> out@[i] == minute_of(#[trigger] schedule@[i].real_start_time),
        decreases schedule@.len() - k,
    {
        out.push(schedule[k].real_start_time / 60);
        k = k + 1;
    }
    out
}

/// One scheduling pass over a sorted batch, with `now` the current moment.
/// Each template is drawn in turn and kept apart from its group; the first
/// task, once placed, decides whether the batch moves to the next day; at the
/// end, two starts in one minute send the whole batch back for new draws.
pub fn schedule_pass(templates: &Vec<UnscheduledProgram>, now: i64) -> (r: Result<
    PassOutcome,
    ScheduleError,
>)
    requires
        sorted_by_start(templates@),
    ensures
        r matches Ok(PassOutcome::Done(s)) ==> {
            &&& finalized(s@)
            &&& s@.len() == templates@.len()
            &&& forall|i: int| 0 <= i < s@.len() ==> (#[trigger] s@[i]).created_from == templates@[i]
            &&& s@.len() > 0 ==> s@[0].real_start_time >= now
        },
        r matches Ok(PassOutcome::ShiftDay) ==> templates@.len() > 0
            && templates@[0].default_start_time < now + templates@[0].start_time_randomization_secs,
        r matches Ok(PassOutcome::Collision(s)) ==> {
            &&& s@.len() == templates@.len()
            &&& forall|i: int| 0 <= i < s@.len() ==> well_formed(#[trigger] s@[i])
            &&& forall|i: int| 0 <= i < s@.len() ==> (#[trigger] s@[i]).created_from == templates@[i]
            &&& group_spaced(s@)
            &&& exists|i: int, j: int|
                0 <= i < j < s@.len() && minute_of((#[trigger] s@[i]).real_start_time) == minute_of(
                    (#[trigger] s@[j]).real_start_time,
                )
        },
        templates@.len() == 0 ==> (r matches Ok(PassOutcome::Done(s)) && s@.len() == 0),
        fixed_batch_fits(templates@, now as int) ==> (r matches Ok(PassOutcome::Done(s))
            && forall|i: int|
            0 <= i < s@.len() ==> (#[trigger] s@[i]).real_start_time
                == templates@[i].default_start_time && s@[i].real_execution_duration
                == templates@[i].default_execution_secs),
        r == Err::<PassOutcome, ScheduleError>(ScheduleError::SpacingRetriesExhausted)
            ==> templates@.len() >= 2,
        r == Err::<PassOutcome, ScheduleError>(ScheduleError::StartOutOfRange) ==> exists|i: int|
            0 <= i < templates@.len() && start_may_leave_range(#[trigger] templates@[i]),
        r == Err::<PassOutcome, ScheduleError>(ScheduleError::NegativeDuration) ==> exists|i: int|
            0 <= i < templates@.len() && duration_may_go_negative(#[trigger] templates@[i]),
        r == Err::<PassOutcome, ScheduleError>(ScheduleError::DurationOutOfRange) ==> exists|i: int|
            0 <= i < templates@.len() && duration_may_leave_range(#[trigger] templates@[i]),
        r != Err::<PassOutcome, ScheduleError>(ScheduleError::PassesExhausted),
{
    let mut schedule: Vec<ScheduledProgram> = Vec::new();
    let mut k: usize = 0;
    while k < templates.len()
        invariant
            k <= templates@.len(),
            schedule@.len() == k,
            sorted_by_start(templates@),
            forall|i: int| 0 <= i < k ==> well_formed(#[trigger] schedule@[i]),
            forall|i: int| 0 <= i < k ==> (#[trigger] schedule@[i]).created_from == templates@[i],
            group_spaced(schedule@),
            k > 0 ==> schedule@[0].real_start_time >= now,
            fixed_batch_fits(templates@, now as int) ==> forall|i: int|
                0 <= i < k ==> (#[trigger] schedule@[i]).real_start_time
                    == templates@[i].default_start_time && schedule@[i].real_execution_duration
                    == templates@[i].default_execution_secs,
        decreases templates@.len() - k,
    {
        let t = templates[k].duplicate();
        let drawn = match t.schedule_program() {
            Ok(p) => p,
            Err(e) => return Err(e),
        };
        proof {
            if fixed_batch_fits(templates@, now as int) {
                assert(templates@[k as int].start_time_randomization_secs == 0);
                assert forall|i: int|
                    0 <= i < schedule@.len() && #[trigger] same_group(schedule@[i], drawn)
                    implies drawn.real_start_time > schedule@[i].real_start_time
                    + MIN_GROUP_GAP_SECS by {
                    assert(templates@[i].program_id@ == templates@[k as int].program_id@);
                }
            }
        }
        let accepted = match drawn.check_against_the_schedule_and_reschedule_if_necessary(&schedule) {
            Ok(p) => p,
            Err(e) => return Err(e),
        };
        if k == 0 && needs_day_shift(accepted.real_start_time, now) {
            return Ok(PassOutcome::ShiftDay);
        }
        let ghost old_schedule = schedule@;
        schedule.push(accepted);
        proof {
            assert forall|i: int, j: int|
                0 <= i < j < schedule@.len() && #[trigger] same_group(schedule@[i], schedule@[j])
                implies schedule@[j].real_start_time > schedule@[i].real_start_time
                + MIN_GROUP_GAP_SECS by {
                if j == k {
                    assert(same_group(old_schedule[i], accepted));
                } else {
                    assert(same_group(old_schedule[i], old_schedule[j]));
                }
            }
        }
        k = k + 1;
    }
    let minutes = start_minutes(&schedule);
    proof {
        if fixed_batch_fits(templates@, now as int) {
            if has_duplicate(minutes@) {
                let (i, j) = choose|i: int, j: int|
                    0 <= i < j < minutes@.len() && minutes@[i] == minutes@[j];
                assert(minute_of(templates@[i].default_start_time) != minute_of(
                    templates@[j].default_start_time,
                ));
            }
        }
    }
    if has_duplicates(minutes) {
        proof {
            let (i, j) = choose|i: int, j: int|
                0 <= i < j < minutes@.len() && minutes@[i] == minutes@[j];
            assert(minutes@[i] == minute_of(schedule@[i].real_start_time));
            assert(minutes@[j] == minute_of(schedule@[j].real_start_time));
            assert(0 <= i < j < schedule@.len() && minute_of(schedule@[i].real_start_time)
                == minute_of(schedule@[j].real_start_time));
        }
        return Ok(PassOutcome::Collision(schedule));
    }
    proof {
        assert(schedule@.map_values(|p: ScheduledProgram| p.created_from) =~= templates@);
        assert forall|i: int, j: int|
            0 <= i < schedule@.len() && 0 <= j < schedule@.len() && i != j implies minute_of(
            #[trigger] schedule@[i].real_start_time,
        ) != minute_of(#[trigger] schedule@[j].real_start_time) by {
            if i < j {
                assert(minutes@[i] != minutes@[j]);
            } else {
                assert(minutes@[j] != minutes@[i]);
            }
        }
    }
    Ok(PassOutcome::Done(schedule))
}

/// Turns a batch of templates into a finalized schedule. The templates are
/// sorted by nominal start; passes are repeated, each with fresh draws for
/// every task, moving the whole batch one day forward whenever its first task
/// would start in the past, until a pass meets every invariant or
/// `MAX_PASSES` passes have been made.
pub fn schedule_programs(unscheduled_programs: Vec<UnscheduledProgram>) -> (r: Result<
    Vec<ScheduledProgram>,
    ScheduleError,
>)
    ensures
        r matches Ok(s) ==> {
            &&& finalized(s@)
            &&& s@.len() == unscheduled_programs@.len()
            &&& exists|days: int, base: Seq<UnscheduledProgram>|
                #[trigger] drawn_from_batch(s@, unscheduled_programs@, days, base)
        },
        unscheduled_programs@.len() == 0 ==> (r matches Ok(s) && s@.len() == 0),
        r == Err::<Vec<ScheduledProgram>, ScheduleError>(ScheduleError::SpacingRetriesExhausted)
            ==> unscheduled_programs@.len() >= 2,
        r == Err::<Vec<ScheduledProgram>, ScheduleError>(ScheduleError::PassesExhausted)
            ==> unscheduled_programs@.len() >= 1,
        r == Err::<Vec<ScheduledProgram>, ScheduleError>(ScheduleError::NegativeDuration)
            ==> exists|i: int|
            0 <= i < unscheduled_programs@.len() && duration_may_go_negative(
                #[trigger] unscheduled_programs@[i],
            ),
        r == Err::<Vec<ScheduledProgram>, ScheduleError>(ScheduleError::StartOutOfRange)
            ==> exists|i: int, days: int|
            0 <= i < unscheduled_programs@.len() && 0 <= days && #[trigger] start_leaves_range_after(
                unscheduled_programs@[i],
                days,
            ),
        r == Err::<Vec<ScheduledProgram>, ScheduleError>(ScheduleError::DurationOutOfRange)
            ==> exists|i: int|
            0 <= i < unscheduled_programs@.len() && duration_may_leave_range(
                #[trigger] unscheduled_programs@[i],
            ),
{
    let ghost input = unscheduled_programs@;
    let mut templates = sort_by_default_start(unscheduled_programs);
    let ghost base = templates@;
    let ghost mut days: int = 0;
    let mut pass: u32 = 0;
    proof {
        vstd::seq_lib::to_multiset_len(base);
        vstd::seq_lib::to_multiset_len(input);
        assert forall|i: int| 0 <= i < base.len() implies #[trigger] templates@[i] == shifted(
            base[i],
            days,
        ) by {}
        assert forall|i: int| 0 <= i < base.len() implies input.contains(#[trigger] base[i]) by {
            assert(base.to_multiset().count(base[i]) > 0);
        }
    }
    while pass < MAX_PASSES
        invariant
            input == unscheduled_programs@,
            stable_sort_of(base, input),
            input.len() > 0 || pass == 0,
            base.to_multiset() == input.to_multiset(),
            base.len() == input.len(),
            templates@.len() == base.len(),
            0 <= days,
            sorted_by_start(templates@),
            forall|i: int| 0 <= i < base.len() ==> #[trigger] templates@[i] == shifted(base[i], days),
            forall|i: int| 0 <= i < base.len() ==> base[i].default_start_time + days * SECONDS_PER_DAY
                <= u64::MAX,
            forall|i: int| 0 <= i < base.len() ==> input.contains(#[trigger] base[i]),
        decreases MAX_PASSES - pass,
    {
        let now = now_timestamp();
        let outcome = match schedule_pass(&templates, now) {
            Ok(o) => o,
            Err(e) => {
                proof {
                    if e == ScheduleError::NegativeDuration {
                        let i = choose|i: int|
                            0 <= i < templates@.len() && duration_may_go_negative(
                                #[trigger] templates@[i],
                            );
                        assert(input.contains(base[i]));
                        let j = choose|j: int| 0 <= j < input.len() && input[j] == base[i];
                        assert(duration_may_go_negative(input[j]));
                    }
                    if e == ScheduleError::DurationOutOfRange {
                        let i = choose|i: int|
                            0 <= i < templates@.len() && duration_may_leave_range(
                                #[trigger] templates@[i],
                            );
                        assert(input.contains(base[i]));
                        let j = choose|j: int| 0 <= j < input.len() && input[j] == base[i];
                        assert(duration_may_leave_range(input[j]));
                    }
                    if e == ScheduleError::StartOutOfRange {
                        let i = choose|i: int|
                            0 <= i < templates@.len() && start_may_leave_range(
                                #[trigger] templates@[i],
                            );
                        assert(input.contains(base[i]));
                        let j = choose|j: int| 0 <= j < input.len() && input[j] == base[i];
                        assert(start_leaves_range_after(input[j], days));
                    }
                }
                return Err(e);
            },
        };
        match outcome {
            PassOutcome::Done(s) => {
                assert(finalized(s@));
                assert(s@.len() == templates@.len());
                assert forall|i: int| 0 <= i < s@.len() implies (#[trigger] s@[i]).created_from
                    == shifted(base[i], days) by {
                    assert(s@[i].created_from == templates@[i]);
                }
                assert(drawn_from_batch(s@, input, days, base));
                return Ok(s);
            },
            PassOutcome::ShiftDay => {
                let ghost before = templates@;
                templates = match shift_by_one_day(&templates) {
                    Ok(t) => t,
                    Err(e) => {
                        proof {
                            let i = choose|i: int|
                                0 <= i < before.len() && #[trigger] before[i].default_start_time
                                    + SECONDS_PER_DAY > u64::MAX;
                            assert(before[i] == shifted(base[i], days));
                            assert(input.contains(base[i]));
                            let j = choose|j: int| 0 <= j < input.len() && input[j] == base[i];
                            assert(start_leaves_range_after(input[j], days));
                        }
                        return Err(e);
                    },
                };
                proof {
                    assert forall|i: int| 0 <= i < base.len() implies base[i].default_start_time
                        + (days + 1) * SECONDS_PER_DAY <= u64::MAX by {
                        assert(before[i] == shifted(base[i], days));
                        assert(before[i].default_start_time + SECONDS_PER_DAY <= u64::MAX);
                    }
                    assert forall|i: int| 0 <= i < base.len() implies #[trigger] templates@[i]
                        == shifted(base[i], days + 1) by {
                        assert(before[i] == shifted(base[i], days));
                        assert(templates@[i] == shifted(before[i], 1));
                    }
                    assert forall|i: int, j: int| 0 <= i <= j < templates@.len() implies #[trigger] templates@[i].default_start_time
                        <= #[trigger] templates@[j].default_start_time by {
                        assert(before[i].default_start_time <= before[j].default_start_time);
                        assert(templates@[i] == shifted(before[i], 1));
                        assert(templates@[j] == shifted(before[j], 1));
                    }
                    days = days + 1;
                }
            },
            PassOutcome::Collision(_) => {},
        }
        pass = pass + 1;
    }
    Err(ScheduleError::PassesExhausted)
}

/// In a finalized schedule no two tasks start in the same minute.
pub proof fn lemma_finalized_minutes_distinct(s: Seq<ScheduledProgram>, i: int, j: int)
    requires
        finalized(s),
        0 <= i < s.len(),
        0 <= j < s.len(),
        i != j,
    ensures
        minute_of(s[i].real_start_time) != minute_of(s[j].real_start_time),
{
}

/// In a finalized schedule any two tasks of one resource group start more than
/// an hour apart, whichever of the two comes first; so do consecutive starts
/// of a group in start order.
pub proof fn lemma_finalized_group_gap(s: Seq<ScheduledProgram>, i: int, j: int)
    requires
        finalized(s),
        0 <= i < s.len(),
        0 <= j < s.len(),
        i != j,
        s[i].program_id@ == s[j].program_id@,
    ensures
        s[i].real_start_time > s[j].real_start_time + MIN_GROUP_GAP_SECS || s[j].real_start_time
            > s[i].real_start_time + MIN_GROUP_GAP_SECS,
{
    if i < j {
        assert(same_group(s[i], s[j]));
    } else {
        assert(same_group(s[j], s[i]));
    }
}

/// With no start and no run-time jitter, scheduling a single template gives
/// one task at the template's nominal start (moved by whole days only if the
/// batch was shifted) with its nominal run time.
pub proof fn lemma_zero_jitter_single_template(
    s: Seq<ScheduledProgram>,
    t: UnscheduledProgram,
    days: int,
    base: Seq<UnscheduledProgram>,
)
    requires
        finalized(s),
        drawn_from_batch(s, seq![t], days, base),
        t.start_time_randomization_secs == 0,
        t.execution_time_randomization_secs == 0,
        t.default_start_time + days * SECONDS_PER_DAY <= u64::MAX,
    ensures
        s.len() == 1,
        s[0].real_start_time == t.default_start_time + days * SECONDS_PER_DAY,
        s[0].real_execution_duration == t.default_execution_secs,
{
    vstd::seq_lib::to_multiset_len(base);
    vstd::seq_lib::to_multiset_len(seq![t]);
    assert(seq![t].to_multiset().count(base[0]) > 0) by {
        assert(base.to_multiset().count(base[0]) > 0);
    }
    assert(seq![t].contains(base[0]));
    assert(base[0] == t);
    assert(well_formed(s[0]));
}

/// After the batch is moved one day forward, a task drawn from a template
/// whose moved start window lies wholly at or after `now` starts no earlier
/// than `now`.
pub proof fn lemma_day_shift_starts_in_future(t: UnscheduledProgram, p: ScheduledProgram, now: int)
    requires
        derived_from(p, shifted(t, 1)),
        t.default_start_time + SECONDS_PER_DAY <= u64::MAX,
        t.default_start_time + SECONDS_PER_DAY - t.start_time_randomization_secs >= now,
    ensures
        p.real_start_time >= now,
{
}

} // verus!
