//! The days that a list of lessons covers.
//!
//! The calendar is asked for what it holds between the first second of the
//! day on which the earliest lesson starts and the last second of the day on
//! which the latest lesson ends. Days are those of the local clock: "earliest"
//! and "latest" compare the civil times that the lessons carry.
//!
//! The two seconds are looked up in the local time zone. A zone that changes
//! its clock at midnight may not have one of them, or have it twice; the
//! second is then taken on the clock that the lesson itself shows, so that a
//! list with lessons always has its days.

use crate::lesson::{all_wf, Lesson};
use crate::local_time::{with_hour, with_minute, with_second};
use crate::timestamp::{
    lemma_clock, lemma_day_and_second, lemma_same_day_is_valid, Timestamp, DAY,
};
use vstd::prelude::*;

verus! {

/// Where the lesson stands that starts earliest on the local clock; the
/// first of them where several do.
pub open spec fn earliest_start(list: Seq<Lesson>) -> int
    decreases list.len(),
{
    if list.len() <= 1 {
        0
    } else {
        let before = earliest_start(list.drop_last());
        if list.last().start.local_seconds() < list[before].start.local_seconds() {
            list.len() - 1
        } else {
            before
        }
    }
}

/// Where the lesson stands that ends latest on the local clock; the first of
/// them where several do.
pub open spec fn latest_end(list: Seq<Lesson>) -> int
    decreases list.len(),
{
    if list.len() <= 1 {
        0
    } else {
        let before = latest_end(list.drop_last());
        if list.last().end.local_seconds() > list[before].end.local_seconds() {
            list.len() - 1
        } else {
            before
        }
    }
}

/// No lesson starts before the one at `earliest_start`.
pub proof fn lemma_earliest_start(list: Seq<Lesson>)
    requires
        list.len() > 0,
    ensures
        0 <= earliest_start(list) < list.len(),
        forall|i: int|
            0 <= i < list.len() ==> list[earliest_start(list)].start.local_seconds() <= (
            #[trigger] list[i]).start.local_seconds(),
    decreases list.len(),
{
    if list.len() > 1 {
        lemma_earliest_start(list.drop_last());
        assert forall|i: int| 0 <= i < list.len() implies list[earliest_start(
            list,
        )].start.local_seconds() <= (#[trigger] list[i]).start.local_seconds() by {
            if i < list.len() - 1 {
                assert(list.drop_last()[i] == list[i]);
            }
        }
    }
}

/// No lesson ends after the one at `latest_end`.
pub proof fn lemma_latest_end(list: Seq<Lesson>)
    requires
        list.len() > 0,
    ensures
        0 <= latest_end(list) < list.len(),
        forall|i: int|
            0 <= i < list.len() ==> (#[trigger] list[i]).end.local_seconds() <= list[latest_end(
                list,
            )].end.local_seconds(),
    decreases list.len(),
{
    if list.len() > 1 {
        lemma_latest_end(list.drop_last());
        assert forall|i: int| 0 <= i < list.len() implies (
        #[trigger] list[i]).end.local_seconds() <= list[latest_end(list)].end.local_seconds() by {
            if i < list.len() - 1 {
                assert(list.drop_last()[i] == list[i]);
            }
        }
    }
}

/// Local seconds at which the day of `t` begins.
pub open spec fn day_start(t: Timestamp) -> int {
    t.local_seconds() - t.seconds_of_day()
}

/// Local seconds of the last second of the day of `t`.
pub open spec fn day_end(t: Timestamp) -> int {
    day_start(t) + DAY - 1
}

/// `t` with hour, minute and second set, one after the other.
fn on_same_day(t: &Timestamp, hour: u32, minute: u32, second: u32) -> (r: Option<Timestamp>)
    requires
        t.wf(),
        hour < 24,
        minute < 60,
        second < 60,
    ensures
        r matches Some(u) ==> {
            &&& u.wf()
            &&& u.nanos == t.nanos
            &&& u.local_seconds() == day_start(*t) + hour * 3600 + minute * 60 + second
            &&& u.seconds_of_day() == hour * 3600 + minute * 60 + second
        },
{
    let on_hour = match with_hour(t, hour) {
        Some(u) => u,
        None => { return None; },
    };
    proof {
        lemma_same_day_is_valid(*t, on_hour);
    }
    let on_minute = match with_minute(&on_hour, minute) {
        Some(u) => u,
        None => { return None; },
    };
    proof {
        lemma_same_day_is_valid(*t, on_minute);
    }
    let on_second = match with_second(&on_minute, second) {
        Some(u) => u,
        None => { return None; },
    };
    proof {
        lemma_same_day_is_valid(*t, on_second);
        lemma_clock(*t);
        lemma_clock(on_second);
    }
    Some(on_second)
}

/// The second `of_day` of the day of `t`, at the offset of `t` itself.
pub fn on_own_clock(t: &Timestamp, of_day: u32) -> (r: Timestamp)
    requires
        t.wf(),
        of_day < DAY,
    ensures
        r.wf(),
        r.nanos == t.nanos,
        r.offset == t.offset,
        r.local_seconds() == day_start(*t) + of_day,
        r.seconds_of_day() == of_day,
{
    let secs: i64 = t.secs - t.time_of_day() as i64 + of_day as i64;
    let r = Timestamp { secs, nanos: t.nanos, offset: t.offset };
    proof {
        lemma_clock(*t);
        lemma_day_and_second(r, t.local_day(), of_day as int);
        lemma_same_day_is_valid(*t, r);
    }
    r
}

/// Takes what the time zone gave for the second `of_day` of the day of `t`:
/// that, where it gave one, and else the second at the offset of `t` itself.
pub fn bound_of(zone: Option<Timestamp>, t: &Timestamp, of_day: u32) -> (r: Timestamp)
    requires
        t.wf(),
        of_day < DAY,
    ensures
        zone matches Some(u) ==> r == u,
        zone is None ==> {
            &&& r.wf()
            &&& r.offset == t.offset
            &&& r.nanos == t.nanos
            &&& r.local_seconds() == day_start(*t) + of_day
            &&& r.seconds_of_day() == of_day
        },
{
    match zone {
        Some(u) => u,
        None => on_own_clock(t, of_day),
    }
}

/// The given time on the day of `t`: in the local time zone where it has
/// that time exactly once, and at the offset of `t` where it has not.
fn day_bound(t: &Timestamp, hour: u32, minute: u32, second: u32) -> (r: Timestamp)
    requires
        t.wf(),
        hour < 24,
        minute < 60,
        second < 60,
    ensures
        r.wf(),
        r.nanos == t.nanos,
        r.local_seconds() == day_start(*t) + hour * 3600 + minute * 60 + second,
        r.seconds_of_day() == hour * 3600 + minute * 60 + second,
{
    bound_of(on_same_day(t, hour, minute, second), t, hour * 3600 + minute * 60 + second)
}

/// Finds the lesson that starts earliest on the local clock.
fn earliest(lessons: &Vec<Lesson>) -> (r: usize)
    requires
        all_wf(lessons@),
        lessons@.len() > 0,
    ensures
        r == earliest_start(lessons@),
        r < lessons@.len(),
{
    let mut best: usize = 0;
    let mut i: usize = 1;
    assert(lessons@.take(1).len() == 1);
    while i < lessons.len()
        invariant
            1 <= i <= lessons.len(),
            best < i,
            all_wf(lessons@),
            best == earliest_start(lessons@.take(i as int)),
        decreases lessons.len() - i,
    {
        proof {
            assert(lessons@.take(i + 1).drop_last() =~= lessons@.take(i as int));
            assert(lessons@[i as int].wf() && lessons@[best as int].wf());
        }
        if lessons[i].start.local() < lessons[best].start.local() {
            best = i;
        }
        i += 1;
    }
    assert(lessons@.take(i as int) =~= lessons@);
    best
}

/// Finds the lesson that ends latest on the local clock.
fn latest(lessons: &Vec<Lesson>) -> (r: usize)
    requires
        all_wf(lessons@),
        lessons@.len() > 0,
    ensures
        r == latest_end(lessons@),
        r < lessons@.len(),
{
    let mut best: usize = 0;
    let mut i: usize = 1;
    assert(lessons@.take(1).len() == 1);
    while i < lessons.len()
        invariant
            1 <= i <= lessons.len(),
            best < i,
            all_wf(lessons@),
            best == latest_end(lessons@.take(i as int)),
        decreases lessons.len() - i,
    {
        proof {
            assert(lessons@.take(i + 1).drop_last() =~= lessons@.take(i as int));
            assert(lessons@[i as int].wf() && lessons@[best as int].wf());
        }
        if lessons[i].end.local() > lessons[best].end.local() {
            best = i;
        }
        i += 1;
    }
    assert(lessons@.take(i as int) =~= lessons@);
    best
}

/// The first second of the local day on which the earliest lesson starts.
///
/// There is none for an empty list, and one for every other list.
pub fn get_from(lessons: &Vec<Lesson>) -> (r: Option<Timestamp>)
    requires
        all_wf(lessons@),
    ensures
        r is Some <==> lessons@.len() > 0,
        r matches Some(t) ==> {
            &&& t.wf()
            &&& t.nanos == lessons@[earliest_start(lessons@)].start.nanos
            &&& t.local_seconds() == day_start(lessons@[earliest_start(lessons@)].start)
            &&& t.seconds_of_day() == 0
        },
{
    if lessons.len() == 0 {
        return None;
    }
    let first = earliest(lessons);
    assert(lessons@[first as int].wf());
    Some(day_bound(&lessons[first].start, 0, 0, 0))
}

/// The last second of the local day on which the latest lesson ends.
///
/// There is none for an empty list, and one for every other list.
pub fn get_to(lessons: &Vec<Lesson>) -> (r: Option<Timestamp>)
    requires
        all_wf(lessons@),
    ensures
        r is Some <==> lessons@.len() > 0,
        r matches Some(t) ==> {
            &&& t.wf()
            &&& t.nanos == lessons@[latest_end(lessons@)].end.nanos
            &&& t.local_seconds() == day_end(lessons@[latest_end(lessons@)].end)
            &&& t.seconds_of_day() == DAY - 1
        },
{
    if lessons.len() == 0 {
        return None;
    }
    let last = latest(lessons);
    assert(lessons@[last as int].wf());
    Some(day_bound(&lessons[last].end, 23, 59, 59))
}

/// The span of whole local days that holds every lesson of the list.
///
/// There is none for an empty list, and one for every other list. It begins
/// at 00:00:00 and ends at 23:59:59 on the local clock, and no lesson starts
/// before it or ends after it.
pub fn derive_window(lessons: &Vec<Lesson>) -> (r: Option<(Timestamp, Timestamp)>)
    requires
        all_wf(lessons@),
    ensures
        r is Some <==> lessons@.len() > 0,
        r matches Some((from, to)) ==> {
            &&& from.wf() && to.wf()
            &&& from.nanos == lessons@[earliest_start(lessons@)].start.nanos
            &&& to.nanos == lessons@[latest_end(lessons@)].end.nanos
            &&& from.local_seconds() == day_start(lessons@[earliest_start(lessons@)].start)
            &&& to.local_seconds() == day_end(lessons@[latest_end(lessons@)].end)
            &&& from.seconds_of_day() == 0
            &&& to.seconds_of_day() == DAY - 1
            &&& forall|i: int|
                0 <= i < lessons@.len() ==> {
                    &&& from.local_seconds() <= (#[trigger] lessons@[i]).start.local_seconds()
                    &&& lessons@[i].end.local_seconds() <= to.local_seconds()
                }
        },
{
    let from = match get_from(lessons) {
        Some(t) => t,
        None => { return None; },
    };
    let to = match get_to(lessons) {
        Some(t) => t,
        None => { return None; },
    };
    proof {
        lemma_earliest_start(lessons@);
        lemma_latest_end(lessons@);
    }
    Some((from, to))
}

} // verus!
