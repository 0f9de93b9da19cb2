//! One run of the synchronisation, as a sequence of decisions.
//!
//! The run itself talks to nobody. It says what is to be asked next, of the
//! timetable service or of the calendar, and is told the answer; from the
//! answer it decides the next request, until it says that the run is over.
//! Whoever drives it sends each request and hands back the reply.
//!
//! A failure to read the timetable or to list the calendar ends the run. A
//! failure to delete or add one lesson is noted and the run goes on with the
//! next lesson. Deletions come before additions.

use crate::event::{kept, list_lessons, reads, written_as, Event, EventError};
use crate::lesson::{all_valid, all_wf, has_match, Lesson};
use crate::queries::{
    current_week_of, get_current_week, get_timetable, timetable_of, AnswerError, ClassWeekData,
    ClassWeekQuery, CurrentWeekData, Variables,
};
use crate::order::in_start_order;
use crate::reconcile::{reconcile, unmatched};
use crate::timestamp::{Timestamp, DAY};
use crate::timetable::{
    gathers, get_lessons, lessons_of, resolves, skipped_of, Outcome, Skipped,
};
use crate::window::{day_end, day_start, derive_window, earliest_start, latest_end};
use vstd::prelude::*;

verus! {

/// Where a run stands.
#[derive(Clone, Copy, Debug, PartialEq, Eq, Structural)]
pub enum Phase {
    /// Nothing has been asked yet.
    Idle,
    /// The current week has been asked for.
    AwaitingCurrentWeek,
    /// The timetable has been asked for.
    AwaitingWeek,
    /// The calendar has been asked for what it holds.
    AwaitingList,
    /// A deletion is under way.
    Deleting,
    /// An addition is under way.
    Adding,
    /// The run is over.
    Done,
}

/// Why a run ended without bringing the calendar in step.
pub enum SyncError {
    /// The service did not answer the question for the current week.
    CurrentWeekFailed(String),
    /// The service's answer gave no usable current week.
    CurrentWeekRefused(AnswerError),
    /// The service did not answer the question for the timetable.
    FetchFailed(String),
    /// The service's answer gave no timetable.
    FetchRefused(AnswerError),
    /// The timetable gave no lesson, so there are no days to look at.
    NoLessons,
    /// The calendar did not answer.
    ListFailed(String),
    /// The calendar's answer held no list of entries.
    ListRefused,
    /// The reply does not answer what was asked.
    Unexpected,
}

/// What is to be done next.
pub enum Request {
    /// Ask the service for the current week.
    CurrentWeek,
    /// Ask the service for a timetable.
    Week { variables: Variables },
    /// Ask the calendar for its entries between two points in time.
    List { from: Timestamp, to: Timestamp },
    /// Have the calendar delete the entry with this identifier.
    Delete { id: String },
    /// Have the calendar add this entry.
    Insert { event: Event },
    /// Nothing more: the run is over, with this result.
    Finish { result: Result<(), SyncError> },
}

/// The answer to a request: what came back, or why nothing did.
pub enum Reply {
    CurrentWeek(Result<Option<CurrentWeekData>, String>),
    Week(Result<Option<ClassWeekData>, String>),
    Listed(Result<Option<Vec<Event>>, String>),
    Deleted(Result<(), String>),
    Inserted(Result<(), String>),
}

/// Something worth telling the user.
pub enum Notice {
    /// A class of the timetable gave no lesson.
    Skipped(Skipped),
    /// A lesson was deleted from the calendar.
    Deleted { subject: String },
    /// A lesson was added to the calendar.
    Added { subject: String },
    /// A lesson to delete has no identifier and was left in the calendar.
    NoIdentity { subject: String },
    /// The calendar failed to delete a lesson.
    NotDeleted { subject: String, reason: String },
    /// The calendar failed to add a lesson.
    NotAdded { subject: String, reason: String },
}

/// What a reply leads to: what to tell the user, and what to do next.
pub struct Step {
    pub notices: Vec<Notice>,
    pub request: Request,
}

/// A run of the synchronisation.
pub struct EACal {
    pub phase: Phase,
    /// The class whose timetable is wanted.
    pub class: String,
    /// The lessons of the timetable, by start.
    pub fetched: Vec<Lesson>,
    /// The calendar's lessons that are to go.
    pub to_delete: Vec<Lesson>,
    /// The timetable's lessons that are to come.
    pub to_add: Vec<Lesson>,
    /// Where in `to_delete` or `to_add` the lesson stands that is under way.
    pub next: usize,
}

/// The notices for the lessons of `to_delete` from `from` up to `to`, none
/// of which has an identifier.
pub open spec fn unidentified(to_delete: Seq<Lesson>, from: int, to: int) -> Seq<Notice> {
    Seq::new((to - from) as nat, |k: int| Notice::NoIdentity { subject: to_delete[from + k].subject })
}

/// Where the first lesson at or after `from` stands that has an identifier;
/// the length of the list where there is none.
pub open spec fn next_deletion(to_delete: Seq<Lesson>, from: int) -> int
    decreases to_delete.len() - from,
{
    if from < 0 || from >= to_delete.len() {
        to_delete.len() as int
    } else if to_delete[from].id is Some {
        from
    } else {
        next_deletion(to_delete, from + 1)
    }
}

/// `next_deletion` is the first place at or after `from` with an identifier.
pub proof fn lemma_next_deletion(to_delete: Seq<Lesson>, from: int, at: int)
    requires
        0 <= from <= at <= to_delete.len(),
        forall|k: int| from <= k < at ==> (#[trigger] to_delete[k]).id is None,
        at < to_delete.len() ==> to_delete[at].id is Some,
    ensures
        next_deletion(to_delete, from) == at,
    decreases at - from,
{
    if from < at {
        assert(to_delete[from].id is None);
        lemma_next_deletion(to_delete, from + 1, at);
    }
}

/// The notices for the classes that gave no lesson.
pub open spec fn skipped_notices(skipped: Seq<Skipped>) -> Seq<Notice> {
    Seq::new(skipped.len(), |k: int| Notice::Skipped(skipped[k]))
}

/// The span `from` to `to` is the whole local days that hold `lessons`.
pub open spec fn spans(lessons: Seq<Lesson>, from: Timestamp, to: Timestamp) -> bool {
    &&& from.wf() && to.wf()
    &&& from.local_seconds() == day_start(lessons[earliest_start(lessons)].start)
    &&& to.local_seconds() == day_end(lessons[latest_end(lessons)].end)
    &&& from.seconds_of_day() == 0
    &&& to.seconds_of_day() == DAY - 1
}

impl EACal {
    /// The lessons of the timetable that the run holds are well formed.
    pub open spec fn lessons_wf(&self) -> bool {
        all_wf(self.fetched@) && all_wf(self.to_add@)
    }

    /// Where a run may stand: a lesson under way is one of the list, a
    /// lesson being deleted has an identifier, and the lessons of the
    /// timetable are well formed.
    pub open spec fn wf(&self) -> bool {
        &&& self.lessons_wf()
        &&& self.phase == Phase::Deleting ==> self.next < self.to_delete@.len()
            && self.to_delete@[self.next as int].id is Some
        &&& self.phase == Phase::Adding ==> self.next < self.to_add@.len()
    }

    /// The run is over with `result`.
    pub open spec fn stops(&self, step: Step, result: Result<(), SyncError>) -> bool {
        self.phase == Phase::Done && step.request == (Request::Finish { result })
    }

    /// The run goes on with the lesson at `at` of those to add, or is over
    /// where there is none.
    pub open spec fn adds_from(&self, step: Step, at: int) -> bool {
        if at < self.to_add@.len() {
            &&& self.phase == Phase::Adding
            &&& self.next == at
            &&& step.request matches Request::Insert { event }
            &&& written_as(self.to_add@[at], event)
        } else {
            self.stops(step, Ok(()))
        }
    }

    /// After `said`, the run notes the lessons to delete from `from` on that
    /// have no identifier, and goes on with the first that has one; with the
    /// additions where there is none.
    pub open spec fn deletes_from(&self, step: Step, said: Seq<Notice>, from: int) -> bool {
        let at = next_deletion(self.to_delete@, from);
        &&& step.notices@ == said + unidentified(self.to_delete@, from, at)
        &&& if at < self.to_delete@.len() {
            &&& self.phase == Phase::Deleting
            &&& self.next == at
            &&& step.request == (Request::Delete { id: self.to_delete@[at].id->0 })
        } else {
            self.adds_from(step, 0)
        }
    }

    /// What the answer for the current week leads to.
    pub open spec fn after_current_week(
        &self,
        class: String,
        answer: Result<Option<CurrentWeekData>, String>,
        step: Step,
    ) -> bool {
        &&& step.notices@.len() == 0
        &&& match answer {
            Err(reason) => self.stops(step, Err(SyncError::CurrentWeekFailed(reason))),
            Ok(data) => match current_week_of(data) {
                Err(error) => self.stops(step, Err(SyncError::CurrentWeekRefused(error))),
                Ok(week) => {
                    &&& self.phase == Phase::AwaitingWeek
                    &&& self.class == class
                    &&& step.request matches Request::Week { variables }
                    &&& variables.name@ == class@
                    &&& variables.week == week
                },
            },
        }
    }

    /// What the timetable read as `outcomes` leads to: the lessons are kept,
    /// the failures are noted, and the calendar is asked for the days of the
    /// lessons.
    pub open spec fn after_outcomes(&self, outcomes: Seq<Outcome>, step: Step) -> bool {
        let lessons = in_start_order(lessons_of(outcomes));
        &&& step.notices@ == skipped_notices(skipped_of(outcomes))
        &&& if lessons.len() == 0 {
            self.stops(step, Err(SyncError::NoLessons))
        } else {
            &&& self.phase == Phase::AwaitingList
            &&& self.fetched@ == lessons
            &&& step.request matches Request::List { from, to }
            &&& spans(lessons, from, to)
        }
    }

    /// What the answer for the timetable leads to.
    pub open spec fn after_week(
        &self,
        answer: Result<Option<ClassWeekData>, String>,
        step: Step,
    ) -> bool {
        match answer {
            Err(reason) => step.notices@.len() == 0 && self.stops(
                step,
                Err(SyncError::FetchFailed(reason)),
            ),
            Ok(data) => match timetable_of(data) {
                Err(error) => step.notices@.len() == 0 && self.stops(
                    step,
                    Err(SyncError::FetchRefused(error)),
                ),
                Ok(week) => exists|year: i32, outcomes: Seq<Outcome>| #[trigger]
                    resolves(week, year, outcomes) && self.after_outcomes(outcomes, step),
            },
        }
    }

    /// What the calendar's list leads to: the plan is made and carried out
    /// from its first deletion on.
    pub open spec fn after_list(
        &self,
        fetched: Seq<Lesson>,
        answer: Result<Option<Vec<Event>>, String>,
        step: Step,
    ) -> bool {
        match answer {
            Err(reason) => step.notices@.len() == 0 && self.stops(
                step,
                Err(SyncError::ListFailed(reason)),
            ),
            Ok(None) => step.notices@.len() == 0 && self.stops(step, Err(SyncError::ListRefused)),
            Ok(Some(events)) => exists|outcomes: Seq<Result<Lesson, EventError>>| #[trigger]
                reads(events@, outcomes) && {
                    &&& self.to_delete@ == unmatched(kept(outcomes), fetched)
                    &&& self.to_add@ == unmatched(fetched, kept(outcomes))
                    &&& self.deletes_from(step, Seq::empty(), 0)
                },
        }
    }

    /// What the end of a deletion leads to.
    pub open spec fn after_deletion(
        &self,
        before: EACal,
        outcome: Result<(), String>,
        step: Step,
    ) -> bool {
        let subject = before.to_delete@[before.next as int].subject;
        let said = match outcome {
            Ok(_) => Notice::Deleted { subject },
            Err(reason) => Notice::NotDeleted { subject, reason },
        };
        &&& self.to_delete == before.to_delete
        &&& self.to_add == before.to_add
        &&& self.deletes_from(step, seq![said], before.next + 1)
    }

    /// What the end of an addition leads to.
    pub open spec fn after_insertion(
        &self,
        before: EACal,
        outcome: Result<(), String>,
        step: Step,
    ) -> bool {
        let subject = before.to_add@[before.next as int].subject;
        let said = match outcome {
            Ok(_) => Notice::Added { subject },
            Err(reason) => Notice::NotAdded { subject, reason },
        };
        &&& self.to_delete == before.to_delete
        &&& self.to_add == before.to_add
        &&& step.notices@ == seq![said]
        &&& self.adds_from(step, before.next + 1)
    }

    /// What a reply leads to, by the phase in which it comes. A reply that
    /// does not answer what was asked ends the run.
    pub open spec fn follows(&self, before: EACal, reply: Reply, step: Step) -> bool {
        match (before.phase, reply) {
            (Phase::AwaitingCurrentWeek, Reply::CurrentWeek(answer)) => self.after_current_week(
                before.class,
                answer,
                step,
            ),
            (Phase::AwaitingWeek, Reply::Week(answer)) => self.after_week(answer, step),
            (Phase::AwaitingList, Reply::Listed(answer)) => self.after_list(
                before.fetched@,
                answer,
                step,
            ),
            (Phase::Deleting, Reply::Deleted(outcome)) => self.after_deletion(
                before,
                outcome,
                step,
            ),
            (Phase::Adding, Reply::Inserted(outcome)) => self.after_insertion(
                before,
                outcome,
                step,
            ),
            _ => step.notices@.len() == 0 && self.stops(step, Err(SyncError::Unexpected)),
        }
    }

    /// Tests `wf`.
    pub fn is_valid(&self) -> (r: bool)
        ensures
            r == self.wf(),
    {
        if !all_valid(&self.fetched) || !all_valid(&self.to_add) {
            return false;
        }
        match self.phase {
            Phase::Deleting => self.next < self.to_delete.len()
                && self.to_delete[self.next].id.is_some(),
            Phase::Adding => self.next < self.to_add.len(),
            _ => true,
        }
    }

    /// A run that has not begun.
    pub fn new() -> (r: EACal)
        ensures
            r.phase == Phase::Idle,
            r.class@ == Seq::<char>::empty(),
            r.fetched@ == Seq::<Lesson>::empty(),
            r.to_delete@ == Seq::<Lesson>::empty(),
            r.to_add@ == Seq::<Lesson>::empty(),
            r.next == 0,
            r.wf(),
    {
        EACal {
            phase: Phase::Idle,
            class: String::new(),
            fetched: Vec::new(),
            to_delete: Vec::new(),
            to_add: Vec::new(),
            next: 0,
        }
    }

    /// Begins a run for the class `class` and the week that the service
    /// counts as the current one: the service is to be asked which that is.
    pub fn sync_current(&mut self, class: &str) -> (r: Request)
        requires
            old(self).wf(),
        ensures
            final(self).wf(),
            final(self).phase == Phase::AwaitingCurrentWeek,
            final(self).class@ == class@,
            final(self).fetched == old(self).fetched,
            final(self).to_delete == old(self).to_delete,
            final(self).to_add == old(self).to_add,
            final(self).next == old(self).next,
            r == Request::CurrentWeek,
    {
        self.class = class.to_owned();
        self.phase = Phase::AwaitingCurrentWeek;
        Request::CurrentWeek
    }

    /// Begins a run for the class `class` and the week `week`: the service
    /// is to be asked for that timetable.
    pub fn sync(&mut self, class: &str, week: u8) -> (r: Request)
        requires
            old(self).wf(),
        ensures
            final(self).wf(),
            final(self).phase == Phase::AwaitingWeek,
            final(self).class@ == class@,
            final(self).fetched == old(self).fetched,
            final(self).to_delete == old(self).to_delete,
            final(self).to_add == old(self).to_add,
            final(self).next == old(self).next,
            r matches Request::Week { variables } && variables.name@ == class@ && variables.week
                == week,
    {
        self.class = class.to_owned();
        self.phase = Phase::AwaitingWeek;
        Request::Week { variables: ClassWeekQuery::variables(class, week) }
    }

    fn stop(&mut self, notices: Vec<Notice>, error: SyncError) -> (step: Step)
        requires
            old(self).lessons_wf(),
        ensures
            final(self).wf(),
            final(self).stops(step, Err(error)),
            step.notices == notices,
            final(self).class == old(self).class,
            final(self).fetched == old(self).fetched,
            final(self).to_delete == old(self).to_delete,
            final(self).to_add == old(self).to_add,
    {
        self.phase = Phase::Done;
        Step { notices, request: Request::Finish { result: Err(error) } }
    }

    fn add_from(&mut self, notices: Vec<Notice>, at: usize) -> (step: Step)
        requires
            old(self).lessons_wf(),
        ensures
            final(self).wf(),
            final(self).adds_from(step, at as int),
            step.notices == notices,
            final(self).class == old(self).class,
            final(self).fetched == old(self).fetched,
            final(self).to_delete == old(self).to_delete,
            final(self).to_add == old(self).to_add,
    {
        if at < self.to_add.len() {
            let event = self.to_add[at].clone().into();
            self.phase = Phase::Adding;
            self.next = at;
            Step { notices, request: Request::Insert { event } }
        } else {
            self.phase = Phase::Done;
            Step { notices, request: Request::Finish { result: Ok(()) } }
        }
    }

    fn delete_from(&mut self, said: Vec<Notice>, from: usize) -> (step: Step)
        requires
            old(self).lessons_wf(),
            from <= old(self).to_delete@.len(),
        ensures
            final(self).wf(),
            final(self).deletes_from(step, said@, from as int),
            final(self).class == old(self).class,
            final(self).fetched == old(self).fetched,
            final(self).to_delete == old(self).to_delete,
            final(self).to_add == old(self).to_add,
    {
        let mut notices = said;
        let mut at: usize = from;
        assert(notices@ =~= said@ + unidentified(self.to_delete@, from as int, at as int));
        while at < self.to_delete.len()
            invariant
                from <= at <= self.to_delete@.len(),
                *self == *old(self),
                self.lessons_wf(),
                notices@ == said@ + unidentified(self.to_delete@, from as int, at as int),
                forall|k: int| from <= k < at ==> (#[trigger] self.to_delete@[k]).id is None,
            decreases self.to_delete@.len() - at,
        {
            match &self.to_delete[at].id {
                Some(id) => {
                    let id = id.clone();
                    proof {
                        lemma_next_deletion(self.to_delete@, from as int, at as int);
                    }
                    self.phase = Phase::Deleting;
                    self.next = at;
                    return Step { notices, request: Request::Delete { id } };
                },
                None => {
                    notices.push(Notice::NoIdentity { subject: self.to_delete[at].subject.clone() });
                    assert(notices@ =~= said@ + unidentified(
                        self.to_delete@,
                        from as int,
                        at + 1,
                    ));
                },
            }
            at += 1;
        }
        proof {
            lemma_next_deletion(self.to_delete@, from as int, at as int);
        }
        self.add_from(notices, 0)
    }

    fn take_current_week(&mut self, answer: Result<Option<CurrentWeekData>, String>) -> (step: Step)
        requires
            old(self).lessons_wf(),
        ensures
            final(self).wf(),
            final(self).after_current_week(old(self).class, answer, step),
    {
        let data = match answer {
            Ok(data) => data,
            Err(reason) => { return self.stop(Vec::new(), SyncError::CurrentWeekFailed(reason)); },
        };
        match get_current_week(data) {
            Ok(week) => {
                self.phase = Phase::AwaitingWeek;
                let variables = ClassWeekQuery::variables(self.class.as_str(), week);
                Step { notices: Vec::new(), request: Request::Week { variables } }
            },
            Err(error) => self.stop(Vec::new(), SyncError::CurrentWeekRefused(error)),
        }
    }

    fn take_week(&mut self, answer: Result<Option<ClassWeekData>, String>) -> (step: Step)
        requires
            old(self).lessons_wf(),
        ensures
            final(self).wf(),
            final(self).after_week(answer, step),
    {
        let data = match answer {
            Ok(data) => data,
            Err(reason) => { return self.stop(Vec::new(), SyncError::FetchFailed(reason)); },
        };
        let week = match get_timetable(data) {
            Ok(week) => week,
            Err(error) => { return self.stop(Vec::new(), SyncError::FetchRefused(error)); },
        };
        let read = get_lessons(&week);
        let ghost (year, outcomes) = choose|year: i32, outcomes: Seq<Outcome>| #[trigger]
            resolves(week, year, outcomes) && gathers(outcomes, read);
        let mut notices: Vec<Notice> = Vec::new();
        let mut i: usize = 0;
        while i < read.skipped.len()
            invariant
                i <= read.skipped@.len(),
                notices@ == skipped_notices(read.skipped@.take(i as int)),
            decreases read.skipped@.len() - i,
        {
            notices.push(Notice::Skipped(read.skipped[i]));
            assert(notices@ =~= skipped_notices(read.skipped@.take(i + 1)));
            i += 1;
        }
        assert(read.skipped@.take(i as int) =~= read.skipped@);
        match derive_window(&read.lessons) {
            Some((from, to)) => {
                self.fetched = read.lessons;
                self.phase = Phase::AwaitingList;
                let step = Step { notices, request: Request::List { from, to } };
                assert(self.after_outcomes(outcomes, step));
                step
            },
            None => {
                let step = self.stop(notices, SyncError::NoLessons);
                assert(self.after_outcomes(outcomes, step));
                step
            },
        }
    }

    fn take_list(&mut self, answer: Result<Option<Vec<Event>>, String>) -> (step: Step)
        requires
            old(self).lessons_wf(),
        ensures
            final(self).wf(),
            final(self).after_list(old(self).fetched@, answer, step),
    {
        let items = match answer {
            Ok(items) => items,
            Err(reason) => { return self.stop(Vec::new(), SyncError::ListFailed(reason)); },
        };
        let existing = match list_lessons(&items) {
            Ok(existing) => existing,
            Err(_) => { return self.stop(Vec::new(), SyncError::ListRefused); },
        };
        let ghost outcomes = choose|outcomes: Seq<Result<Lesson, EventError>>| #[trigger]
            reads(items->0@, outcomes) && existing@ == kept(outcomes);
        let (to_delete, to_add) = reconcile(&self.fetched, &existing);
        proof {
            let keep = |lesson: Lesson| !has_match(existing@, lesson);
            assert forall|i: int| 0 <= i < to_add@.len() implies (#[trigger] to_add@[i]).wf() by {
                assert(to_add@.contains(to_add@[i]));
                self.fetched@.lemma_filter_contains_rev(keep, to_add@[i]);
            }
        }
        self.to_delete = to_delete;
        self.to_add = to_add;
        let step = self.delete_from(Vec::new(), 0);
        assert(reads(items->0@, outcomes));
        step
    }

    /// Takes the reply to the last request and decides what comes next.
    pub fn resume(&mut self, reply: Reply) -> (step: Step)
        requires
            old(self).wf(),
        ensures
            final(self).wf(),
            final(self).follows(*old(self), reply, step),
    {
        match (self.phase, reply) {
            (Phase::AwaitingCurrentWeek, Reply::CurrentWeek(answer)) => self.take_current_week(
                answer,
            ),
            (Phase::AwaitingWeek, Reply::Week(answer)) => self.take_week(answer),
            (Phase::AwaitingList, Reply::Listed(answer)) => self.take_list(answer),
            (Phase::Deleting, Reply::Deleted(outcome)) => {
                let count = self.to_delete.len();
                assert(self.next < count);
                let subject = self.to_delete[self.next].subject.clone();
                let said = match outcome {
                    Ok(_) => Notice::Deleted { subject },
                    Err(reason) => Notice::NotDeleted { subject, reason },
                };
                let mut notices: Vec<Notice> = Vec::new();
                notices.push(said);
                assert(notices@ =~= seq![said]);
                let from = self.next + 1;
                self.delete_from(notices, from)
            },
            (Phase::Adding, Reply::Inserted(outcome)) => {
                let count = self.to_add.len();
                assert(self.next < count);
                let subject = self.to_add[self.next].subject.clone();
                let said = match outcome {
                    Ok(_) => Notice::Added { subject },
                    Err(reason) => Notice::NotAdded { subject, reason },
                };
                let mut notices: Vec<Notice> = Vec::new();
                notices.push(said);
                assert(notices@ =~= seq![said]);
                let at = self.next + 1;
                self.add_from(notices, at)
            },
            _ => self.stop(Vec::new(), SyncError::Unexpected),
        }
    }
}

} // verus!
