//! Calendar entries, and how lessons are read from them and written as them.
//!
//! An entry carries its two ends as RFC 3339 text. Of an entry only what a
//! lesson needs is kept here: the identifier, the summary, the location and
//! the two ends.

use crate::lesson::{all_wf, Lesson};
use crate::local_time::{parse_date_time, parsed_instant, rfc3339_text, to_rfc3339};
use crate::timestamp::{instant_before, Timestamp, DAY, MAX_LOCAL, MIN_LOCAL};
use vstd::prelude::*;

verus! {

/// One end of a calendar entry.
pub struct EventDateTime {
    pub date_time: Option<String>,
}

/// A calendar entry.
pub struct Event {
    pub id: Option<String>,
    pub summary: Option<String>,
    pub location: Option<String>,
    pub start: Option<EventDateTime>,
    pub end: Option<EventDateTime>,
}

/// Why a calendar entry gave no lesson.
#[derive(Clone, Copy, Debug, PartialEq, Eq, Structural)]
pub enum EventError {
    MissingSummary,
    /// The summary is there and holds nothing.
    EmptySummary,
    MissingLocation,
    MissingStart,
    MissingStartDateTime,
    InvalidStart,
    MissingEnd,
    MissingEndDateTime,
    InvalidEnd,
    /// The entry does not end after it begins.
    EndNotAfterStart,
    /// The start has no four-digit year on the local clock.
    StartOutOfRange,
    /// The end has no four-digit year on the local clock.
    EndOutOfRange,
}

/// The calendar gave no list of entries at all.
#[derive(Clone, Copy, Debug, PartialEq, Eq, Structural)]
pub struct NoLessons;

fn copy_of(text: &Option<String>) -> (r: Option<String>)
    ensures
        r == *text,
{
    match text {
        Some(text) => Some(text.clone()),
        None => None,
    }
}

impl Clone for EventDateTime {
    fn clone(&self) -> (r: Self)
        ensures
            r == *self,
    {
        EventDateTime { date_time: copy_of(&self.date_time) }
    }
}

impl Clone for Event {
    fn clone(&self) -> (r: Self)
        ensures
            r == *self,
    {
        let start = match &self.start {
            Some(at) => Some(at.clone()),
            None => None,
        };
        let end = match &self.end {
            Some(at) => Some(at.clone()),
            None => None,
        };
        Event {
            id: copy_of(&self.id),
            summary: copy_of(&self.summary),
            location: copy_of(&self.location),
            start,
            end,
        }
    }
}

impl EventError {
    /// The reason in words.
    pub fn message(&self) -> (r: &'static str)
        ensures
            r@ == match *self {
                EventError::MissingSummary => "summary field is missing"@,
                EventError::EmptySummary => "summary field is empty"@,
                EventError::MissingLocation => "location field is missing"@,
                EventError::MissingStart => "start time missing"@,
                EventError::MissingStartDateTime => "date_time field is missing"@,
                EventError::InvalidStart => "start time is not a date and time"@,
                EventError::MissingEnd => "end time is missing"@,
                EventError::MissingEndDateTime => "date_time field is missing"@,
                EventError::InvalidEnd => "end time is not a date and time"@,
                EventError::EndNotAfterStart => "end time is not after start time"@,
                EventError::StartOutOfRange => "start time is out of range"@,
                EventError::EndOutOfRange => "end time is out of range"@,
            },
    {
        match self {
            EventError::MissingSummary => "summary field is missing",
            EventError::EmptySummary => "summary field is empty",
            EventError::MissingLocation => "location field is missing",
            EventError::MissingStart => "start time missing",
            EventError::MissingStartDateTime => "date_time field is missing",
            EventError::InvalidStart => "start time is not a date and time",
            EventError::MissingEnd => "end time is missing",
            EventError::MissingEndDateTime => "date_time field is missing",
            EventError::InvalidEnd => "end time is not a date and time",
            EventError::EndNotAfterStart => "end time is not after start time",
            EventError::StartOutOfRange => "start time is out of range",
            EventError::EndOutOfRange => "end time is out of range",
        }
    }
}

/// What an end of an entry lacks to give an instant, if anything.
pub open spec fn end_defect(
    at: Option<EventDateTime>,
    missing: EventError,
    no_text: EventError,
    invalid: EventError,
) -> Option<EventError> {
    match at {
        None => Some(missing),
        Some(at) => match at.date_time {
            None => Some(no_text),
            Some(text) => if parsed_instant(text@) is None {
                Some(invalid)
            } else {
                None
            },
        },
    }
}

/// The instant that the text of an end names.
pub open spec fn instant_of(at: Option<EventDateTime>) -> (int, int) {
    parsed_instant(at->0.date_time->0@)->0
}

/// What an entry lacks to give a lesson, if anything. The summary is looked
/// at first, then the location, the start, the end, and the order of the two.
pub open spec fn first_defect(e: Event) -> Option<EventError> {
    let start = end_defect(
        e.start,
        EventError::MissingStart,
        EventError::MissingStartDateTime,
        EventError::InvalidStart,
    );
    let end = end_defect(
        e.end,
        EventError::MissingEnd,
        EventError::MissingEndDateTime,
        EventError::InvalidEnd,
    );
    if e.summary is None {
        Some(EventError::MissingSummary)
    } else if e.summary->0@.len() == 0 {
        Some(EventError::EmptySummary)
    } else if e.location is None {
        Some(EventError::MissingLocation)
    } else if start is Some {
        start
    } else if end is Some {
        end
    } else if !instant_before(instant_of(e.start), instant_of(e.end)) {
        Some(EventError::EndNotAfterStart)
    } else {
        None
    }
}

/// An instant that lies in the four-digit years whatever the offset: at
/// least a day after they begin and a day before they end.
pub open spec fn well_inside(instant: (int, int)) -> bool {
    MIN_LOCAL + DAY <= instant.0 <= MAX_LOCAL - DAY
}

/// `lesson` is the entry `e` read as a lesson: identifier, summary and
/// location are taken over, the teacher is empty, and the two ends are the
/// instants that the texts of the entry name.
pub open spec fn read_from(e: Event, lesson: Lesson) -> bool {
    &&& first_defect(e) is None
    &&& lesson.id == e.id
    &&& lesson.subject == e.summary->0
    &&& lesson.classroom == e.location->0
    &&& lesson.teacher@ == Seq::<char>::empty()
    &&& lesson.wf()
    &&& lesson.start.instant() == instant_of(e.start)
    &&& lesson.end.instant() == instant_of(e.end)
}

/// What reading an entry may give.
///
/// An entry with a defect gives that defect. One without gives the lesson,
/// unless an end has no four-digit year on the local clock. That can only be
/// where the instant lies within a day of the ends of those years: for every
/// other entry without defect the lesson is owed.
pub open spec fn event_outcome(e: Event, result: Result<Lesson, EventError>) -> bool {
    match result {
        Ok(lesson) => read_from(e, lesson),
        Err(error) => match first_defect(e) {
            Some(defect) => error == defect,
            None => {
                ||| error == EventError::StartOutOfRange && !well_inside(instant_of(e.start))
                ||| error == EventError::EndOutOfRange && !well_inside(instant_of(e.end))
            },
        },
    }
}

/// `e` is the lesson written as a calendar entry: summary and location are
/// the subject and the room, the two ends are written as RFC 3339 text, and
/// there is no identifier.
pub open spec fn written_as(lesson: Lesson, e: Event) -> bool {
    &&& e.id is None
    &&& e.summary == Some(lesson.subject)
    &&& e.location == Some(lesson.classroom)
    &&& e.start matches Some(at) && at.date_time matches Some(text) && text@ == rfc3339_text(
        lesson.start.secs as int,
        lesson.start.nanos as int,
        lesson.start.offset as int,
    )
    &&& e.end matches Some(at) && at.date_time matches Some(text) && text@ == rfc3339_text(
        lesson.end.secs as int,
        lesson.end.nanos as int,
        lesson.end.offset as int,
    )
}

impl Timestamp {
    /// The timestamp as RFC 3339 text, such as `2024-03-15T08:00:00+01:00`.
    pub fn to_rfc3339(&self) -> (r: String)
        requires
            self.wf(),
        ensures
            r@ == rfc3339_text(self.secs as int, self.nanos as int, self.offset as int),
    {
        to_rfc3339(self)
    }
}

/// Reads one end of an entry.
fn read_end(
    at: Option<EventDateTime>,
    missing: EventError,
    no_text: EventError,
    invalid: EventError,
) -> (r: Result<Timestamp, EventError>)
    ensures
        match r {
            Ok(t) => {
                &&& end_defect(at, missing, no_text, invalid) is None
                &&& parsed_instant(at->0.date_time->0@) == Some(t.instant())
                &&& t.nanos < 2_000_000_000
                &&& -DAY < t.offset < DAY
            },
            Err(error) => end_defect(at, missing, no_text, invalid) == Some(error),
        },
{
    let at = match at {
        Some(at) => at,
        None => { return Err(missing); },
    };
    let text = match at.date_time {
        Some(text) => text,
        None => { return Err(no_text); },
    };
    match parse_date_time(text.as_str()) {
        Ok(t) => Ok(t),
        Err(_) => Err(invalid),
    }
}

/// What keeps the parts of an entry from being a lesson, if anything: an
/// empty subject, an end that does not come after the start, a start that is
/// not well formed, an end that is not, looked at in this order.
pub open spec fn parts_defect(subject: String, start: Timestamp, end: Timestamp) -> Option<
    EventError,
> {
    if subject@.len() == 0 {
        Some(EventError::EmptySummary)
    } else if !start.earlier_than(end) {
        Some(EventError::EndNotAfterStart)
    } else if !start.wf() {
        Some(EventError::StartOutOfRange)
    } else if !end.wf() {
        Some(EventError::EndOutOfRange)
    } else {
        None
    }
}

impl Lesson {
    /// Makes the lesson of a calendar entry from the entry's texts and the
    /// two ends as they were read.
    pub fn stored(
        id: Option<String>,
        subject: String,
        classroom: String,
        start: Timestamp,
        end: Timestamp,
    ) -> (r: Result<Lesson, EventError>)
        ensures
            match r {
                Ok(lesson) => {
                    &&& parts_defect(subject, start, end) is None
                    &&& lesson.id == id
                    &&& lesson.subject == subject
                    &&& lesson.classroom == classroom
                    &&& lesson.teacher@ == Seq::<char>::empty()
                    &&& lesson.start == start
                    &&& lesson.end == end
                    &&& lesson.wf()
                },
                Err(error) => parts_defect(subject, start, end) == Some(error),
            },
    {
        if subject.as_str().unicode_len() == 0 {
            return Err(EventError::EmptySummary);
        }
        if !start.is_earlier_than(&end) {
            return Err(EventError::EndNotAfterStart);
        }
        if !start.is_valid() {
            return Err(EventError::StartOutOfRange);
        }
        if !end.is_valid() {
            return Err(EventError::EndOutOfRange);
        }
        Ok(Lesson { id, subject, classroom, teacher: String::new(), start, end })
    }

    /// Reads a calendar entry as a lesson.
    pub fn try_from(e: Event) -> (r: Result<Lesson, EventError>)
        ensures
            event_outcome(e, r),
    {
        let subject = match e.summary {
            Some(text) => text,
            None => { return Err(EventError::MissingSummary); },
        };
        if subject.as_str().unicode_len() == 0 {
            return Err(EventError::EmptySummary);
        }
        let classroom = match e.location {
            Some(text) => text,
            None => { return Err(EventError::MissingLocation); },
        };
        let start = match read_end(
            e.start,
            EventError::MissingStart,
            EventError::MissingStartDateTime,
            EventError::InvalidStart,
        ) {
            Ok(t) => t,
            Err(error) => { return Err(error); },
        };
        let end = match read_end(
            e.end,
            EventError::MissingEnd,
            EventError::MissingEndDateTime,
            EventError::InvalidEnd,
        ) {
            Ok(t) => t,
            Err(error) => { return Err(error); },
        };
        Lesson::stored(e.id, subject, classroom, start, end)
    }

    /// Writes the lesson as a calendar entry.
    pub fn into(self) -> (r: Event)
        requires
            self.wf(),
        ensures
            written_as(self, r),
    {
        let start = self.start.to_rfc3339();
        let end = self.end.to_rfc3339();
        Event {
            id: None,
            summary: Some(self.subject),
            location: Some(self.classroom),
            start: Some(EventDateTime { date_time: Some(start) }),
            end: Some(EventDateTime { date_time: Some(end) }),
        }
    }
}

/// The lessons among the results of reading entries, in their order.
pub open spec fn kept(outcomes: Seq<Result<Lesson, EventError>>) -> Seq<Lesson>
    decreases outcomes.len(),
{
    if outcomes.len() == 0 {
        Seq::empty()
    } else {
        match outcomes.last() {
            Ok(lesson) => kept(outcomes.drop_last()).push(lesson),
            Err(_) => kept(outcomes.drop_last()),
        }
    }
}

/// `outcomes` holds, for each entry in turn, what reading it may give.
pub open spec fn reads(events: Seq<Event>, outcomes: Seq<Result<Lesson, EventError>>) -> bool {
    &&& outcomes.len() == events.len()
    &&& forall|i: int| 0 <= i < events.len() ==> event_outcome(events[i], #[trigger] outcomes[i])
}

/// Reads the entries that the calendar listed, and drops those that give no
/// lesson. Fails where the calendar gave no list.
pub fn list_lessons(items: &Option<Vec<Event>>) -> (r: Result<Vec<Lesson>, NoLessons>)
    ensures
        r is Err <==> *items is None,
        r matches Ok(lessons) ==> {
            &&& all_wf(lessons@)
            &&& exists|outcomes: Seq<Result<Lesson, EventError>>| #[trigger]
                reads(items->0@, outcomes) && lessons@ == kept(outcomes)
        },
{
    let events = match items {
        Some(events) => events,
        None => { return Err(NoLessons); },
    };
    let mut lessons: Vec<Lesson> = Vec::new();
    let ghost mut outcomes: Seq<Result<Lesson, EventError>> = Seq::empty();
    let mut i: usize = 0;
    while i < events.len()
        invariant
            i <= events.len(),
            outcomes.len() == i,
            forall|k: int| 0 <= k < i ==> event_outcome(events@[k], #[trigger] outcomes[k]),
            lessons@ == kept(outcomes),
            all_wf(lessons@),
        decreases events.len() - i,
    {
        let result = Lesson::try_from(events[i].clone());
        proof {
            let ghost before = outcomes;
            outcomes = outcomes.push(result);
            assert(outcomes.drop_last() =~= before);
        }
        match result {
            Ok(lesson) => {
                lessons.push(lesson);
            },
            Err(_) => {},
        }
        i += 1;
    }
    assert(reads(events@, outcomes));
    Ok(lessons)
}

} // verus!
