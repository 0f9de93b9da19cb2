use eacal::queries::{
    get_current_week, get_timetable, AnswerError, ClassWeekData, ClassWeekQuery, CurrentWeekData,
    CurrentWeekQuery,
};
use eacal::timetable::{ClassWeek, RawDayLessons, ScheduleSlotDefinition};

#[test]
fn the_variables_name_the_class_and_the_week() {
    let variables = ClassWeekQuery::variables("R4C", 23);
    assert_eq!(variables.name, "R4C");
    assert_eq!(variables.week, 23);
    let variables = ClassWeekQuery::variables("", 255);
    assert_eq!(variables.name, "");
    assert_eq!(variables.week, 255);
}

#[test]
fn a_week_number_is_a_number_from_0_to_255() {
    assert_eq!(CurrentWeekQuery::week_number(0), Some(0));
    assert_eq!(CurrentWeekQuery::week_number(23), Some(23));
    assert_eq!(CurrentWeekQuery::week_number(255), Some(255));
    assert_eq!(CurrentWeekQuery::week_number(256), None);
    assert_eq!(CurrentWeekQuery::week_number(-1), None);
    assert_eq!(CurrentWeekQuery::week_number(i64::MAX), None);
    assert_eq!(CurrentWeekQuery::week_number(i64::MIN), None);
}

#[test]
fn the_current_week_is_taken_from_the_answer() {
    assert_eq!(get_current_week(Some(CurrentWeekData { current_week: 7 })), Ok(7));
    assert_eq!(get_current_week(None), Err(AnswerError::NoCurrentWeek));
    assert_eq!(
        get_current_week(Some(CurrentWeekData { current_week: 300 })),
        Err(AnswerError::WeekOutOfRange)
    );
    assert_eq!(
        get_current_week(Some(CurrentWeekData { current_week: -3 })),
        Err(AnswerError::WeekOutOfRange)
    );
}

#[test]
fn the_timetable_is_taken_from_the_answer() {
    let week = ClassWeek {
        schedule_definitions: vec![ScheduleSlotDefinition { from: "08:00".to_string(), to: "08:45".to_string() }],
        days: vec![RawDayLessons { date: "15. 3.".to_string(), lessons: vec![] }],
    };
    let taken = get_timetable(Some(ClassWeekData { class_week: week })).ok().unwrap();
    assert_eq!(taken.schedule_definitions.len(), 1);
    assert_eq!(taken.schedule_definitions[0].to, "08:45");
    assert_eq!(taken.days[0].date, "15. 3.");
    assert_eq!(get_timetable(None).err(), Some(AnswerError::NoTimetableData));
}

#[test]
fn every_answer_error_has_its_words() {
    assert_eq!(AnswerError::NoTimetableData.message(), "No timetable data");
    assert_eq!(AnswerError::NoCurrentWeek.message(), "Failed to get current week");
    assert!(!AnswerError::WeekOutOfRange.message().is_empty());
}
