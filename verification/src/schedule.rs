//! The capture trigger: once per polling tick, decide whether the current
//! wall-clock second matches a configured schedule entry, firing at most
//! one capture per poll, and never twice for the same instant.

use vstd::prelude::*;
use crate::config::ScheduleTime;
use chrono::Datelike;
use chrono::Timelike;

verus! {

/// The wall-clock instant a poll sees, truncated to whole seconds:
/// calendar fields for matching and filenames, plus the same instant on a
/// single linear scale (whole seconds since the epoch) for the cooldown.
#[derive(Debug, Clone, Copy, PartialEq, Eq)]
pub struct ClockTime {
    pub year: i32,
    pub month: u32,
    pub day: u32,
    pub hour: u32,
    pub minute: u32,
    pub second: u32,
    pub epoch_seconds: i64,
}

impl ClockTime {
    pub open spec fn wf(self) -> bool {
        &&& 1 <= self.month <= 12
        &&& 1 <= self.day <= 31
        &&& self.hour <= 23
        &&& self.minute <= 59
        &&& self.second <= 59
    }
}

/// Relies on chrono::Local::now and its Datelike/Timelike accessors for
/// the current local time: hour is 0-23, minute and second 0-59, month
/// 1-12, day of month 1-31, and timestamp is the same instant in whole
/// seconds since the Unix epoch.
#[verifier::external_body]
fn now_local() -> (t: ClockTime)
    ensures
        t.wf(),
{
    let now = chrono::Local::now();
    ClockTime {
        year: now.year(),
        month: now.month(),
        day: now.day(),
        hour: now.hour(),
        minute: now.minute(),
        second: now.second(),
        epoch_seconds: now.timestamp(),
    }
}

/// Debounce state: the instant (whole seconds) at which the trigger last
/// fired, if it ever has.
#[derive(Debug, Clone, Copy, PartialEq, Eq)]
pub struct TriggerState {
    pub last_fired: Option<i64>,
}

impl TriggerState {
    /// A fresh trigger that has never fired.
    pub fn new() -> (s: TriggerState)
        ensures
            s.last_fired.is_none(),
    {
        TriggerState { last_fired: None }
    }
}

/// A schedule entry matches an instant when all three time-of-day fields
/// agree exactly.
pub open spec fn schedule_matches(e: ScheduleTime, t: ClockTime) -> bool {
    e.hour == t.hour && e.minute == t.minute && e.second == t.second
}

/// The index of the first entry, in stored order, that matches `t`.
pub open spec fn first_match(ss: Seq<ScheduleTime>, t: ClockTime) -> Option<int>
    decreases ss.len(),
{
    if ss.len() == 0 {
        None
    } else if schedule_matches(ss[0], t) {
        Some(0)
    } else {
        match first_match(ss.drop_first(), t) {
            Some(i) => Some(i + 1),
            None => None,
        }
    }
}

/// The cooldown: after firing at instant `f`, the trigger may fire again
/// only at a strictly later instant, so the same wall-clock second can
/// never re-match.
pub open spec fn can_fire(st: TriggerState, t: ClockTime) -> bool {
    match st.last_fired {
        None => true,
        Some(f) => t.epoch_seconds > f,
    }
}

/// What one poll fires: the first matching entry, unless the cooldown is
/// still in force. At most one entry can fire per poll.
pub open spec fn poll_fires(st: TriggerState, t: ClockTime, ss: Seq<ScheduleTime>) -> Option<int> {
    if can_fire(st, t) {
        first_match(ss, t)
    } else {
        None
    }
}

/// The debounce state after one poll: a fire records its instant, a quiet
/// poll changes nothing.
pub open spec fn poll_next(st: TriggerState, t: ClockTime, ss: Seq<ScheduleTime>) -> TriggerState {
    if poll_fires(st, t, ss) is Some {
        TriggerState { last_fired: Some(t.epoch_seconds) }
    } else {
        st
    }
}

/// `first_match` returns exactly the first matching index: the entry at
/// the returned index matches, no earlier entry does, and a `None` means
/// no entry matches at all.
pub proof fn lemma_first_match_characterization(ss: Seq<ScheduleTime>, t: ClockTime)
    ensures
        match first_match(ss, t) {
            Some(i) => 0 <= i < ss.len() && schedule_matches(ss[i], t)
                && (forall|j: int| 0 <= j < i ==> !schedule_matches(ss[j], t)),
            None => forall|j: int| 0 <= j < ss.len() ==> !schedule_matches(ss[j], t),
        },
    decreases ss.len(),
{
    if ss.len() > 0 && !schedule_matches(ss[0], t) {
        let tail = ss.drop_first();
        lemma_first_match_characterization(tail, t);
        match first_match(tail, t) {
            Some(i) => {
                assert(ss[i + 1] == tail[i]);
                assert forall|j: int| 0 <= j < i + 1 implies !schedule_matches(ss[j], t) by {
                    if j > 0 {
                        assert(ss[j] == tail[j - 1]);
                    }
                }
            },
            None => {
                assert forall|j: int| 0 <= j < ss.len() implies !schedule_matches(ss[j], t) by {
                    if j > 0 {
                        assert(ss[j] == tail[j - 1]);
                    }
                }
            },
        }
    }
}

/// One poll of the capture trigger: evaluate the schedule list against
/// the given instant. Returns the index of the entry that fired, if any;
/// fires at most once, picks the first matching entry in stored order,
/// and respects the cooldown since the previous fire.
pub fn poll_schedule(st: &mut TriggerState, t: &ClockTime, schedules: &Vec<ScheduleTime>) -> (r:
    Option<usize>)
    ensures
        *final(st) == poll_next(*old(st), *t, schedules@),
        match r {
            Some(i) => poll_fires(*old(st), *t, schedules@) == Some(i as int),
            None => poll_fires(*old(st), *t, schedules@) is None,
        },
{
    proof {
        lemma_first_match_characterization(schedules@, *t);
    }
    let allowed: bool = match st.last_fired {
        None => true,
        Some(f) => t.epoch_seconds > f,
    };
    if !allowed {
        return None;
    }
    let n = schedules.len();
    let mut i: usize = 0;
    while i < n
        invariant
            n == schedules@.len(),
            0 <= i <= n,
            forall|j: int| 0 <= j < i ==> !schedule_matches(schedules@[j], *t),
            can_fire(*st, *t),
            *st == *old(st),
            match first_match(schedules@, *t) {
                Some(k) => 0 <= k < schedules@.len() && schedule_matches(schedules@[k], *t)
                    && (forall|j: int| 0 <= j < k ==> !schedule_matches(schedules@[j], *t)),
                None => forall|j: int| 0 <= j < schedules@.len()
                    ==> !schedule_matches(schedules@[j], *t),
            },
        decreases n - i,
    {
        let e = &schedules[i];
        if e.hour == t.hour && e.minute == t.minute && e.second == t.second {
            st.last_fired = Some(t.epoch_seconds);
            proof {
                let k = first_match(schedules@, *t)->Some_0;
                assert(schedule_matches(schedules@[i as int], *t));
                assert(first_match(schedules@, *t) is Some);
                assert(k <= i) by {
                    if k > i {
                        assert(!schedule_matches(schedules@[i as int], *t));
                    }
                }
                assert(k >= i) by {
                    if k < i {
                        assert(!schedule_matches(schedules@[k], *t));
                    }
                }
            }
            return Some(i);
        }
        i += 1;
    }
    None
}

/// Reads the local wall clock and evaluates the schedule against it.
/// Returns the instant it saw together with the index of the entry that
/// fired, if any.
pub fn poll_schedule_now(st: &mut TriggerState, schedules: &Vec<ScheduleTime>) -> (r: (
    ClockTime,
    Option<usize>,
))
    ensures
        r.0.wf(),
        *final(st) == poll_next(*old(st), r.0, schedules@),
        match r.1 {
            Some(i) => poll_fires(*old(st), r.0, schedules@) == Some(i as int),
            None => poll_fires(*old(st), r.0, schedules@) is None,
        },
{
    let t = now_local();
    let fired = poll_schedule(st, &t, schedules);
    (t, fired)
}

/// The trigger fires at most one entry per poll, and the entry it fires
/// is the first matching one in stored order.
pub proof fn lemma_poll_fires_first_match(st: TriggerState, t: ClockTime, ss: Seq<ScheduleTime>)
    ensures
        match poll_fires(st, t, ss) {
            Some(i) => can_fire(st, t) && 0 <= i < ss.len() && schedule_matches(ss[i], t)
                && (forall|j: int| 0 <= j < i ==> !schedule_matches(ss[j], t)),
            None => !can_fire(st, t) || (forall|j: int| 0 <= j < ss.len()
                ==> !schedule_matches(ss[j], t)),
        },
{
    lemma_first_match_characterization(ss, t);
}

/// Once the trigger has fired, no poll at the same instant (or any
/// instant not later than it) can fire again, whatever the schedule list
/// then holds: the cooldown window suppresses duplicate fires.
pub proof fn lemma_cooldown_blocks_refire(
    st: TriggerState,
    t: ClockTime,
    ss: Seq<ScheduleTime>,
    t2: ClockTime,
    ss2: Seq<ScheduleTime>,
)
    requires
        poll_fires(st, t, ss) is Some,
        t2.epoch_seconds <= t.epoch_seconds,
    ensures
        poll_fires(poll_next(st, t, ss), t2, ss2) is None,
{
}

} // verus!
