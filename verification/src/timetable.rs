//! The timetable of one week as the feed gives it, and its reading into
//! lessons.
//!
//! The feed names a day by day and month only. The year is supplied by the
//! caller; `get_lessons` takes the one that the system's clock shows, so a
//! week must be read in the calendar year it lies in.

use crate::fragments::{
    day_and_month, hour_and_minute, parse_day_and_month, parse_hour_and_minute,
};
use crate::lesson::{all_wf, Lesson};
use crate::order::{in_start_order, sort_by_start, sorted_by_start};
use crate::calendar::{civil_midnight, is_date, lemma_four_digit_years};
use crate::local_time::{current_year, local_midnight, with_hour, with_minute};
use crate::timestamp::{lemma_clock, lemma_same_day_is_valid, Timestamp};
use vstd::prelude::*;

verus! {

/// The clock times between which the lessons of one position in the day run,
/// each as `HH:MM`. One list of these serves every day of the week.
pub struct ScheduleSlotDefinition {
    pub from: String,
    pub to: String,
}

/// What the feed says of one class held in a slot. Several of these in one
/// slot are groups taught side by side.
pub struct LessonDetails {
    pub name: String,
    pub room: String,
    pub teacher: String,
}

impl Clone for LessonDetails {
    fn clone(&self) -> (r: Self)
        ensures
            r == *self,
    {
        LessonDetails {
            name: self.name.clone(),
            room: self.room.clone(),
            teacher: self.teacher.clone(),
        }
    }
}

/// One day of the feed: its date as `DD.MM.` and its slots in order, each
/// with the classes held in it, possibly none.
pub struct RawDayLessons {
    pub date: String,
    pub lessons: Vec<Vec<LessonDetails>>,
}

/// One week of the feed.
pub struct ClassWeek {
    pub schedule_definitions: Vec<ScheduleSlotDefinition>,
    pub days: Vec<RawDayLessons>,
}

/// Why a class of the feed gave no lesson.
#[derive(Clone, Copy, Debug, PartialEq, Eq, Structural)]
pub enum ParseFailure {
    /// The week has no slot definition at the position of the class.
    MissingDefinition,
    /// The date does not name a day and a month.
    MalformedDate,
    /// A clock time of the slot does not name an hour and a minute.
    MalformedTime,
    /// An hour above 23 or a minute above 59.
    TimeOutOfRange,
    /// The slot does not end after it begins.
    EndNotAfterStart,
    /// The class has no name.
    MissingName,
    /// The local calendar has no such day, or none with a four-digit year.
    UnresolvedDate,
    /// The local time zone has no such time on that day, or has it twice,
    /// or does not put the start before the end.
    UnresolvedTime,
}

/// An hour and a minute that a clock can show.
pub open spec fn on_clock(time: (u32, u32)) -> bool {
    time.0 < 24 && time.1 < 60
}

/// The first clock time is earlier in the day than the second.
pub open spec fn clock_before(from: (u32, u32), to: (u32, u32)) -> bool {
    from.0 < to.0 || (from.0 == to.0 && from.1 < to.1)
}

/// What keeps a class in a slot from being a lesson, whatever the day: a
/// slot that does not end after it begins, or, with a sound slot, a class
/// without a name.
pub open spec fn slot_defect(details: LessonDetails, from: (u32, u32), to: (u32, u32)) -> Option<
    ParseFailure,
> {
    if !clock_before(from, to) {
        Some(ParseFailure::EndNotAfterStart)
    } else if details.name@.len() == 0 {
        Some(ParseFailure::MissingName)
    } else {
        None
    }
}

/// What is wrong with the texts of a class, if anything: the date is looked
/// at first, then the form of the two clock times, then their range, then
/// their order, then the name of the class.
pub open spec fn text_defect(
    details: LessonDetails,
    date: Seq<char>,
    def: ScheduleSlotDefinition,
) -> Option<ParseFailure> {
    if day_and_month(date) is None {
        Some(ParseFailure::MalformedDate)
    } else if hour_and_minute(def.from@) is None || hour_and_minute(def.to@) is None {
        Some(ParseFailure::MalformedTime)
    } else if !on_clock(hour_and_minute(def.from@)->0) || !on_clock(hour_and_minute(def.to@)->0) {
        Some(ParseFailure::TimeOutOfRange)
    } else {
        slot_defect(details, hour_and_minute(def.from@)->0, hour_and_minute(def.to@)->0)
    }
}

/// The calendar has the day `date` in `year`, and `year` has four digits.
pub open spec fn day_exists(year: int, date: (u32, u32)) -> bool {
    0 <= year <= 9999 && is_date(year, date.1 as int, date.0 as int)
}

/// Seconds from the epoch to a clock time on a day of `year`, counted on the
/// local clock.
pub open spec fn civil_seconds(year: int, date: (u32, u32), time: (u32, u32)) -> int {
    civil_midnight(year, date.1 as int, date.0 as int) + time.0 * 3600 + time.1 * 60
}

/// `lesson` is the class `details`, held on the day `date` of `year` in the
/// slot `def`: the three texts are taken over as they are, it has no
/// identifier, its two ends show the slot's clock times on that day, and it
/// starts before it ends.
pub open spec fn reads_as(
    details: LessonDetails,
    date: Seq<char>,
    def: ScheduleSlotDefinition,
    year: i32,
    lesson: Lesson,
) -> bool {
    let day = day_and_month(date)->0;
    &&& text_defect(details, date, def) is None
    &&& day_exists(year as int, day)
    &&& lesson.id is None
    &&& lesson.subject == details.name
    &&& lesson.classroom == details.room
    &&& lesson.teacher == details.teacher
    &&& lesson.wf()
    &&& lesson.start.nanos == 0
    &&& lesson.end.nanos == 0
    &&& lesson.start.local_seconds() == civil_seconds(
        year as int,
        day,
        hour_and_minute(def.from@)->0,
    )
    &&& lesson.end.local_seconds() == civil_seconds(year as int, day, hour_and_minute(def.to@)->0)
}

/// What reading a class may give.
///
/// A defect in the texts gives that defect. With sound texts, a day that the
/// calendar does not have, or a year without four digits, gives
/// `UnresolvedDate`. Else the class gives the lesson, unless the local time
/// zone has no place for it: `UnresolvedDate` where it lacks the first second
/// of the day, `UnresolvedTime` where it lacks one of the two times or does
/// not put the start before the end.
pub open spec fn details_outcome(
    details: LessonDetails,
    date: Seq<char>,
    def: ScheduleSlotDefinition,
    year: i32,
    result: Result<Lesson, ParseFailure>,
) -> bool {
    match result {
        Ok(lesson) => reads_as(details, date, def, year, lesson),
        Err(error) => match text_defect(details, date, def) {
            Some(defect) => error == defect,
            None => error == ParseFailure::UnresolvedDate || (error == ParseFailure::UnresolvedTime
                && day_exists(year as int, day_and_month(date)->0)),
        },
    }
}

/// The time `hour:minute` on the day that begins at `midnight`.
fn at_clock(midnight: &Timestamp, hour: u32, minute: u32) -> (r: Option<Timestamp>)
    requires
        midnight.wf(),
        midnight.seconds_of_day() == 0,
        hour < 24,
        minute < 60,
    ensures
        r matches Some(t) ==> {
            &&& t.wf()
            &&& t.nanos == midnight.nanos
            &&& t.local_seconds() == midnight.local_seconds() + hour * 3600 + minute * 60
        },
{
    let on_hour = match with_hour(midnight, hour) {
        Some(t) => t,
        None => { return None; },
    };
    proof {
        lemma_same_day_is_valid(*midnight, on_hour);
    }
    let on_minute = match with_minute(&on_hour, minute) {
        Some(t) => t,
        None => { return None; },
    };
    proof {
        lemma_same_day_is_valid(*midnight, on_minute);
        lemma_clock(*midnight);
        lemma_clock(on_minute);
    }
    Some(on_minute)
}

/// `lesson` is the class `details`, held from `from` to `to` on the day
/// that begins at `midnight`.
pub open spec fn held_on(
    details: LessonDetails,
    midnight: Timestamp,
    from: (u32, u32),
    to: (u32, u32),
    lesson: Lesson,
) -> bool {
    &&& lesson.id is None
    &&& lesson.subject == details.name
    &&& lesson.classroom == details.room
    &&& lesson.teacher == details.teacher
    &&& lesson.wf()
    &&& lesson.start.nanos == midnight.nanos
    &&& lesson.end.nanos == midnight.nanos
    &&& lesson.start.local_seconds() == midnight.local_seconds() + from.0 * 3600 + from.1 * 60
    &&& lesson.end.local_seconds() == midnight.local_seconds() + to.0 * 3600 + to.1 * 60
}

/// Tests `slot_defect`.
pub fn check_slot(details: &LessonDetails, from: (u32, u32), to: (u32, u32)) -> (r: Option<
    ParseFailure,
>)
    ensures
        r == slot_defect(*details, from, to),
{
    if !(from.0 < to.0 || (from.0 == to.0 && from.1 < to.1)) {
        Some(ParseFailure::EndNotAfterStart)
    } else if details.name.as_str().unicode_len() == 0 {
        Some(ParseFailure::MissingName)
    } else {
        None
    }
}

/// Takes what the time zone gave for the first second of a day: a
/// well-formed timestamp is that second, and anything else is
/// `UnresolvedDate`.
pub fn day_from(midnight: Option<Timestamp>) -> (r: Result<Timestamp, ParseFailure>)
    ensures
        r is Ok <==> midnight is Some && midnight->0.wf(),
        r matches Ok(t) ==> Some(t) == midnight,
        r matches Err(error) ==> error == ParseFailure::UnresolvedDate,
{
    match midnight {
        Some(t) => if t.is_valid() {
            Ok(t)
        } else {
            Err(ParseFailure::UnresolvedDate)
        },
        None => Err(ParseFailure::UnresolvedDate),
    }
}

/// Takes what the time zone gave for the two ends of a class and makes the
/// lesson of them.
///
/// A class without a name gives `MissingName`. Two well-formed ends, the
/// first before the second, give the lesson. Anything else is
/// `UnresolvedTime`.
pub fn lesson_between(
    details: LessonDetails,
    start: Option<Timestamp>,
    end: Option<Timestamp>,
) -> (r: Result<Lesson, ParseFailure>)
    ensures
        r is Ok <==> details.name@.len() > 0 && start is Some && end is Some && start->0.wf()
            && end->0.wf() && start->0.earlier_than(end->0),
        r matches Ok(lesson) ==> {
            &&& lesson.id is None
            &&& lesson.subject == details.name
            &&& lesson.classroom == details.room
            &&& lesson.teacher == details.teacher
            &&& Some(lesson.start) == start
            &&& Some(lesson.end) == end
            &&& lesson.wf()
        },
        r matches Err(error) ==> error == if details.name@.len() == 0 {
            ParseFailure::MissingName
        } else {
            ParseFailure::UnresolvedTime
        },
{
    if details.name.as_str().unicode_len() == 0 {
        return Err(ParseFailure::MissingName);
    }
    let (start, end) = match (start, end) {
        (Some(start), Some(end)) => (start, end),
        _ => { return Err(ParseFailure::UnresolvedTime); },
    };
    if !start.is_valid() || !end.is_valid() || !start.is_earlier_than(&end) {
        return Err(ParseFailure::UnresolvedTime);
    }
    Ok(
        Lesson {
            id: None,
            subject: details.name,
            classroom: details.room,
            teacher: details.teacher,
            start,
            end,
        },
    )
}

/// Makes the lesson of a class from the first second of its day and the two
/// clock times of its slot.
///
/// A slot that does not end after it begins, or a class without a name,
/// gives that defect. Else the only failure is `UnresolvedTime`: the local
/// time zone does not have one of the two times exactly once, or does not
/// put the start before the end.
pub fn lesson_on(
    details: LessonDetails,
    midnight: &Timestamp,
    from: (u32, u32),
    to: (u32, u32),
) -> (r: Result<Lesson, ParseFailure>)
    requires
        midnight.wf(),
        midnight.seconds_of_day() == 0,
        on_clock(from),
        on_clock(to),
    ensures
        match r {
            Ok(lesson) => slot_defect(details, from, to) is None && held_on(
                details,
                *midnight,
                from,
                to,
                lesson,
            ),
            Err(error) => match slot_defect(details, from, to) {
                Some(defect) => error == defect,
                None => error == ParseFailure::UnresolvedTime,
            },
        },
{
    match check_slot(&details, from, to) {
        Some(defect) => { return Err(defect); },
        None => {},
    }
    let start = at_clock(midnight, from.0, from.1);
    let end = at_clock(midnight, to.0, to.1);
    lesson_between(details, start, end)
}

/// Reads one class of the feed as a lesson of the given year.
pub fn parse_details(
    details: LessonDetails,
    date: String,
    def: &ScheduleSlotDefinition,
    year: i32,
) -> (r: Result<Lesson, ParseFailure>)
    ensures
        details_outcome(details, date@, *def, year, r),
{
    let (day, month) = match parse_day_and_month(date.as_str()) {
        Some(pair) => pair,
        None => { return Err(ParseFailure::MalformedDate); },
    };
    let from = parse_hour_and_minute(def.from.as_str());
    let to = parse_hour_and_minute(def.to.as_str());
    let (from, to) = match (from, to) {
        (Some(from), Some(to)) => (from, to),
        _ => { return Err(ParseFailure::MalformedTime); },
    };
    if from.0 >= 24 || from.1 >= 60 || to.0 >= 24 || to.1 >= 60 {
        return Err(ParseFailure::TimeOutOfRange);
    }
    match check_slot(&details, from, to) {
        Some(defect) => { return Err(defect); },
        None => {},
    }
    let midnight = match day_from(local_midnight(year, month, day)) {
        Ok(t) => t,
        Err(error) => { return Err(error); },
    };
    proof {
        lemma_four_digit_years(year as int, month as int, day as int);
    }
    lesson_on(details, &midnight, from, to)
}

/// What became of one class of the feed, and where in the week it stands:
/// the day, the slot within the day, and the class within the slot, each
/// counted from zero.
pub struct Outcome {
    pub day: usize,
    pub slot: usize,
    pub record: usize,
    pub result: Result<Lesson, ParseFailure>,
}

/// A class that gave no lesson, with its place in the week and the reason.
#[derive(Clone, Copy, Debug, PartialEq, Eq, Structural)]
pub struct Skipped {
    pub day: usize,
    pub slot: usize,
    pub record: usize,
    pub error: ParseFailure,
}

/// The lessons of a week by start, and the classes that gave none.
pub struct WeekLessons {
    pub lessons: Vec<Lesson>,
    pub skipped: Vec<Skipped>,
}

/// The places of the classes of one slot, in order.
pub open spec fn slot_places(day: int, slot: int, records: int) -> Seq<(int, int, int)> {
    Seq::new(records as nat, |k: int| (day, slot, k))
}

/// The places of the classes of one day, slot by slot.
pub open spec fn day_places(day: int, slots: Seq<Vec<LessonDetails>>) -> Seq<(int, int, int)>
    decreases slots.len(),
{
    if slots.len() == 0 {
        Seq::empty()
    } else {
        day_places(day, slots.drop_last()) + slot_places(
            day,
            slots.len() - 1,
            slots.last()@.len() as int,
        )
    }
}

/// The places of the classes of a week, day by day.
pub open spec fn week_places(days: Seq<RawDayLessons>) -> Seq<(int, int, int)>
    decreases days.len(),
{
    if days.len() == 0 {
        Seq::empty()
    } else {
        week_places(days.drop_last()) + day_places(days.len() - 1, days.last().lessons@)
    }
}

/// `outcome` stands at a place that the week has, and says of the class
/// there what reading it may give. A class in a slot without a definition
/// gives `MissingDefinition` and is not read.
pub open spec fn outcome_fits(week: ClassWeek, year: i32, outcome: Outcome) -> bool {
    let day = outcome.day as int;
    let slot = outcome.slot as int;
    let record = outcome.record as int;
    &&& day < week.days@.len()
    &&& slot < week.days@[day].lessons@.len()
    &&& record < week.days@[day].lessons@[slot]@.len()
    &&& if slot < week.schedule_definitions@.len() {
        details_outcome(
            week.days@[day].lessons@[slot]@[record],
            week.days@[day].date@,
            week.schedule_definitions@[slot],
            year,
            outcome.result,
        )
    } else {
        outcome.result == Err::<Lesson, ParseFailure>(ParseFailure::MissingDefinition)
    }
}

/// `outcomes` holds one outcome for each class of the week, in the order of
/// the feed, and each fits its class.
pub open spec fn resolves(week: ClassWeek, year: i32, outcomes: Seq<Outcome>) -> bool {
    let places = week_places(week.days@);
    &&& outcomes.len() == places.len()
    &&& forall|n: int|
        0 <= n < outcomes.len() ==> {
            &&& places[n] == (
                (#[trigger] outcomes[n]).day as int,
                outcomes[n].slot as int,
                outcomes[n].record as int,
            )
            &&& outcome_fits(week, year, outcomes[n])
        }
}

/// The lessons among `outcomes`, in their order.
pub open spec fn lessons_of(outcomes: Seq<Outcome>) -> Seq<Lesson>
    decreases outcomes.len(),
{
    if outcomes.len() == 0 {
        Seq::empty()
    } else {
        match outcomes.last().result {
            Ok(lesson) => lessons_of(outcomes.drop_last()).push(lesson),
            Err(_) => lessons_of(outcomes.drop_last()),
        }
    }
}

/// The failures among `outcomes`, in their order, each with its place.
pub open spec fn skipped_of(outcomes: Seq<Outcome>) -> Seq<Skipped>
    decreases outcomes.len(),
{
    if outcomes.len() == 0 {
        Seq::empty()
    } else {
        let last = outcomes.last();
        match last.result {
            Ok(_) => skipped_of(outcomes.drop_last()),
            Err(error) => skipped_of(outcomes.drop_last()).push(
                Skipped { day: last.day, slot: last.slot, record: last.record, error },
            ),
        }
    }
}

/// What a week of outcomes comes to: the lessons by start, and the failures
/// in the order of the feed.
pub open spec fn gathers(outcomes: Seq<Outcome>, week: WeekLessons) -> bool {
    &&& week.lessons@ == in_start_order(lessons_of(outcomes))
    &&& week.skipped@ == skipped_of(outcomes)
}

/// Every lesson among `outcomes` is the result of one of them.
pub proof fn lemma_lessons_of_come_from(outcomes: Seq<Outcome>, lesson: Lesson)
    requires
        lessons_of(outcomes).contains(lesson),
    ensures
        exists|n: int|
            0 <= n < outcomes.len() && (#[trigger] outcomes[n]).result == Ok::<
                Lesson,
                ParseFailure,
            >(lesson),
    decreases outcomes.len(),
{
    if outcomes.len() > 0 {
        let rest = outcomes.drop_last();
        let found = lessons_of(outcomes);
        let at = choose|i: int| 0 <= i < found.len() && found[i] == lesson;
        if outcomes.last().result is Ok && at == found.len() - 1 {
            assert(outcomes[outcomes.len() - 1].result == Ok::<Lesson, ParseFailure>(lesson));
        } else {
            assert(lessons_of(rest)[at] == lesson);
            lemma_lessons_of_come_from(rest, lesson);
            let n = choose|n: int|
                0 <= n < rest.len() && (#[trigger] rest[n]).result == Ok::<Lesson, ParseFailure>(
                    lesson,
                );
            assert(outcomes[n].result == Ok::<Lesson, ParseFailure>(lesson));
        }
    }
}

/// Two lessons agree in everything but the offsets of their ends: the texts,
/// the identifier, and what the local clock shows at either end.
pub open spec fn same_reading(a: Lesson, b: Lesson) -> bool {
    &&& a.id == b.id
    &&& a.subject == b.subject
    &&& a.classroom == b.classroom
    &&& a.teacher == b.teacher
    &&& a.start.local_seconds() == b.start.local_seconds()
    &&& a.start.nanos == b.start.nanos
    &&& a.end.local_seconds() == b.end.local_seconds()
    &&& a.end.nanos == b.end.nanos
}

/// A failure that the local time zone decides.
pub open spec fn by_zone(error: ParseFailure) -> bool {
    error == ParseFailure::UnresolvedDate || error == ParseFailure::UnresolvedTime
}

/// Two results for one class differ only in what the time zone decides: two
/// lessons agree in everything but the offsets, and a failure that the zone
/// does not decide is the same in both.
pub open spec fn results_agree(
    a: Result<Lesson, ParseFailure>,
    b: Result<Lesson, ParseFailure>,
) -> bool {
    match (a, b) {
        (Ok(first), Ok(second)) => same_reading(first, second),
        (Err(first), Err(second)) => first == second || (by_zone(first) && by_zone(second)),
        (Ok(_), Err(error)) => by_zone(error),
        (Err(error), Ok(_)) => by_zone(error),
    }
}

/// Reading one week twice in one year gives the same outcome for every
/// class, but for what the time zone decides: whether a sound class of an
/// existing day gives a lesson, and the offsets of its two ends.
pub proof fn lemma_readings_agree(
    week: ClassWeek,
    year: i32,
    first: Seq<Outcome>,
    second: Seq<Outcome>,
)
    requires
        resolves(week, year, first),
        resolves(week, year, second),
    ensures
        first.len() == second.len(),
        forall|n: int|
            0 <= n < first.len() ==> {
                &&& (#[trigger] first[n]).day == (#[trigger] second[n]).day
                &&& first[n].slot == second[n].slot
                &&& first[n].record == second[n].record
                &&& results_agree(first[n].result, second[n].result)
            },
{
    assert forall|n: int| 0 <= n < first.len() implies {
        &&& (#[trigger] first[n]).day == (#[trigger] second[n]).day
        &&& first[n].slot == second[n].slot
        &&& first[n].record == second[n].record
        &&& results_agree(first[n].result, second[n].result)
    } by {
        assert(outcome_fits(week, year, first[n]));
        assert(outcome_fits(week, year, second[n]));
    }
}

/// Reads every class of the week as a lesson of the given year. A class that
/// cannot be read does not stop the others.
pub fn resolve(week: &ClassWeek, year: i32) -> (r: Vec<Outcome>)
    ensures
        resolves(*week, year, r@),
{
    let mut out: Vec<Outcome> = Vec::new();
    let ghost mut done: Seq<(int, int, int)> = Seq::empty();
    let mut day: usize = 0;
    assert(week.days@.take(0) =~= Seq::<RawDayLessons>::empty());
    while day < week.days.len()
        invariant
            day <= week.days.len(),
            done == week_places(week.days@.take(day as int)),
            out@.len() == done.len(),
            forall|n: int|
                0 <= n < out@.len() ==> {
                    &&& done[n] == (
                        (#[trigger] out@[n]).day as int,
                        out@[n].slot as int,
                        out@[n].record as int,
                    )
                    &&& outcome_fits(*week, year, out@[n])
                },
        decreases week.days.len() - day,
    {
        let slots = &week.days[day].lessons;
        let ghost before_day = done;
        let mut slot: usize = 0;
        assert(slots@.take(0) =~= Seq::<Vec<LessonDetails>>::empty());
        assert(done =~= before_day + day_places(day as int, slots@.take(0)));
        while slot < slots.len()
            invariant
                day < week.days.len(),
                slots == &week.days@[day as int].lessons,
                slot <= slots.len(),
                done == before_day + day_places(day as int, slots@.take(slot as int)),
                out@.len() == done.len(),
                forall|n: int|
                    0 <= n < out@.len() ==> {
                        &&& done[n] == (
                            (#[trigger] out@[n]).day as int,
                            out@[n].slot as int,
                            out@[n].record as int,
                        )
                        &&& outcome_fits(*week, year, out@[n])
                    },
            decreases slots.len() - slot,
        {
            let records = &slots[slot];
            let ghost before_slot = done;
            let mut record: usize = 0;
            assert(done =~= before_slot + slot_places(day as int, slot as int, 0));
            while record < records.len()
                invariant
                    day < week.days.len(),
                    slots == &week.days@[day as int].lessons,
                    slot < slots.len(),
                    records == &slots@[slot as int],
                    record <= records.len(),
                    done == before_slot + slot_places(day as int, slot as int, record as int),
                    out@.len() == done.len(),
                    forall|n: int|
                        0 <= n < out@.len() ==> {
                            &&& done[n] == (
                                (#[trigger] out@[n]).day as int,
                                out@[n].slot as int,
                                out@[n].record as int,
                            )
                            &&& outcome_fits(*week, year, out@[n])
                        },
                decreases records.len() - record,
            {
                let result = if slot < week.schedule_definitions.len() {
                    parse_details(
                        records[record].clone(),
                        week.days[day].date.clone(),
                        &week.schedule_definitions[slot],
                        year,
                    )
                } else {
                    Err(ParseFailure::MissingDefinition)
                };
                out.push(Outcome { day, slot, record, result });
                proof {
                    done = done.push((day as int, slot as int, record as int));
                    assert(done =~= before_slot + slot_places(
                        day as int,
                        slot as int,
                        record + 1,
                    ));
                }
                record += 1;
            }
            proof {
                assert(slots@.take(slot + 1).drop_last() =~= slots@.take(slot as int));
                assert(done =~= before_day + day_places(day as int, slots@.take(slot + 1)));
            }
            slot += 1;
        }
        proof {
            assert(slots@.take(slot as int) =~= slots@);
            assert(week.days@.take(day + 1).drop_last() =~= week.days@.take(day as int));
        }
        day += 1;
    }
    assert(week.days@.take(day as int) =~= week.days@);
    out
}

/// Gathers the lessons of a week in the order of their starts, and lists
/// the classes that gave none.
pub fn collect(outcomes: &Vec<Outcome>) -> (r: WeekLessons)
    ensures
        gathers(outcomes@, r),
        sorted_by_start(r.lessons@),
        r.lessons@.len() + r.skipped@.len() == outcomes@.len(),
        r.lessons@.to_multiset() == lessons_of(outcomes@).to_multiset(),
{
    let mut lessons: Vec<Lesson> = Vec::new();
    let mut skipped: Vec<Skipped> = Vec::new();
    let mut i: usize = 0;
    assert(outcomes@.take(0) =~= Seq::<Outcome>::empty());
    while i < outcomes.len()
        invariant
            i <= outcomes.len(),
            lessons@ == lessons_of(outcomes@.take(i as int)),
            skipped@ == skipped_of(outcomes@.take(i as int)),
            lessons@.len() + skipped@.len() == i,
        decreases outcomes.len() - i,
    {
        assert(outcomes@.take(i + 1).drop_last() =~= outcomes@.take(i as int));
        let outcome = &outcomes[i];
        match &outcome.result {
            Ok(lesson) => {
                lessons.push(lesson.clone());
            },
            Err(error) => {
                skipped.push(
                    Skipped {
                        day: outcome.day,
                        slot: outcome.slot,
                        record: outcome.record,
                        error: *error,
                    },
                );
            },
        }
        i += 1;
    }
    assert(outcomes@.take(i as int) =~= outcomes@);
    WeekLessons { lessons: sort_by_start(&lessons), skipped }
}

/// Reads the timetable of a week that lies in `year`.
///
/// Every class of the feed is read on its own. Those that can be read come
/// back as lessons, sorted by start; the others are listed with the reason.
pub fn parse(week: &ClassWeek, year: i32) -> (r: WeekLessons)
    ensures
        exists|outcomes: Seq<Outcome>| #[trigger]
            resolves(*week, year, outcomes) && gathers(outcomes, r),
        sorted_by_start(r.lessons@),
        all_wf(r.lessons@),
        r.lessons@.len() + r.skipped@.len() == week_places(week.days@).len(),
{
    let outcomes = resolve(week, year);
    let r = collect(&outcomes);
    proof {
        broadcast use vstd::seq_lib::to_multiset_contains;

        assert forall|i: int| 0 <= i < r.lessons@.len() implies (#[trigger] r.lessons@[i]).wf() by {
            let lesson = r.lessons@[i];
            assert(r.lessons@.contains(lesson));
            assert(lessons_of(outcomes@).to_multiset().count(lesson) > 0);
            lemma_lessons_of_come_from(outcomes@, lesson);
            let n = choose|n: int|
                0 <= n < outcomes@.len() && (#[trigger] outcomes@[n]).result == Ok::<
                    Lesson,
                    ParseFailure,
                >(lesson);
            assert(outcome_fits(*week, year, outcomes@[n]));
        }
    }
    r
}

/// Reads the timetable of a week that lies in the year which the system's
/// clock shows.
pub fn get_lessons(week: &ClassWeek) -> (r: WeekLessons)
    ensures
        exists|year: i32, outcomes: Seq<Outcome>| #[trigger]
            resolves(*week, year, outcomes) && gathers(outcomes, r),
        sorted_by_start(r.lessons@),
        all_wf(r.lessons@),
        r.lessons@.len() + r.skipped@.len() == week_places(week.days@).len(),
{
    parse(week, current_year())
}

} // verus!
