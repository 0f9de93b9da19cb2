//! The two questions put to the timetable service, and how their answers
//! are taken.

use crate::timetable::ClassWeek;
use vstd::prelude::*;

verus! {

/// The question for the timetable of one class in one week.
pub struct ClassWeekQuery;

/// The question for the week that the service counts as the current one.
pub struct CurrentWeekQuery;

/// What `ClassWeekQuery` is asked with: the name of the class and the
/// number of the week.
pub struct Variables {
    pub name: String,
    pub week: i64,
}

/// What the service answers to `ClassWeekQuery`.
pub struct ClassWeekData {
    pub class_week: ClassWeek,
}

/// What the service answers to `CurrentWeekQuery`.
pub struct CurrentWeekData {
    pub current_week: i64,
}

/// Why an answer of the service could not be taken.
#[derive(Clone, Copy, Debug, PartialEq, Eq, Structural)]
pub enum AnswerError {
    /// The answer to `ClassWeekQuery` held no data.
    NoTimetableData,
    /// The answer to `CurrentWeekQuery` held no data.
    NoCurrentWeek,
    /// The current week is not a number from 0 to 255.
    WeekOutOfRange,
}

impl AnswerError {
    /// The reason in words.
    pub fn message(&self) -> (r: &'static str)
        ensures
            r@ == match *self {
                AnswerError::NoTimetableData => "No timetable data"@,
                AnswerError::NoCurrentWeek => "Failed to get current week"@,
                AnswerError::WeekOutOfRange => "Current week is out of range"@,
            },
    {
        match self {
            AnswerError::NoTimetableData => "No timetable data",
            AnswerError::NoCurrentWeek => "Failed to get current week",
            AnswerError::WeekOutOfRange => "Current week is out of range",
        }
    }
}

impl ClassWeekQuery {
    /// The variables that ask for the week `week` of the class `name`.
    pub fn variables(name: &str, week: u8) -> (r: Variables)
        ensures
            r.name@ == name@,
            r.week == week,
    {
        Variables { name: name.to_owned(), week: week as i64 }
    }
}

impl CurrentWeekQuery {
    /// The week number as the rest of the library takes it.
    pub fn week_number(current_week: i64) -> (r: Option<u8>)
        ensures
            r is Some <==> 0 <= current_week <= 255,
            r matches Some(week) ==> week == current_week,
    {
        if 0 <= current_week && current_week <= 255 {
            Some(current_week as u8)
        } else {
            None
        }
    }
}

/// What an answer to `ClassWeekQuery` comes to.
pub open spec fn timetable_of(data: Option<ClassWeekData>) -> Result<ClassWeek, AnswerError> {
    match data {
        Some(data) => Ok(data.class_week),
        None => Err(AnswerError::NoTimetableData),
    }
}

/// What an answer to `CurrentWeekQuery` comes to.
pub open spec fn current_week_of(data: Option<CurrentWeekData>) -> Result<u8, AnswerError> {
    match data {
        Some(data) => if 0 <= data.current_week <= 255 {
            Ok(data.current_week as u8)
        } else {
            Err(AnswerError::WeekOutOfRange)
        },
        None => Err(AnswerError::NoCurrentWeek),
    }
}

/// Takes the timetable out of the service's answer.
pub fn get_timetable(data: Option<ClassWeekData>) -> (r: Result<ClassWeek, AnswerError>)
    ensures
        r == timetable_of(data),
{
    match data {
        Some(data) => Ok(data.class_week),
        None => Err(AnswerError::NoTimetableData),
    }
}

/// Takes the current week out of the service's answer.
pub fn get_current_week(data: Option<CurrentWeekData>) -> (r: Result<u8, AnswerError>)
    ensures
        r == current_week_of(data),
{
    match data {
        Some(data) => match CurrentWeekQuery::week_number(data.current_week) {
            Some(week) => Ok(week),
            None => Err(AnswerError::WeekOutOfRange),
        },
        None => Err(AnswerError::NoCurrentWeek),
    }
}

} // verus!
