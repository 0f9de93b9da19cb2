use eacal::event::{Event, EventDateTime};
use eacal::queries::{AnswerError, ClassWeekData, CurrentWeekData};
use eacal::sync::{EACal, Notice, Phase, Reply, Request, Step, SyncError};
use eacal::timetable::{
    ClassWeek, LessonDetails, ParseFailure, RawDayLessons, ScheduleSlotDefinition,
};

fn class(name: &str) -> LessonDetails {
    LessonDetails { name: name.to_string(), room: "101".to_string(), teacher: "Smith".to_string() }
}

fn week() -> ClassWeekData {
    ClassWeekData {
        class_week: ClassWeek {
            schedule_definitions: vec![
                ScheduleSlotDefinition { from: "08:00".to_string(), to: "08:45".to_string() },
                ScheduleSlotDefinition { from: "09:00".to_string(), to: "09:45".to_string() },
            ],
            days: vec![
                RawDayLessons { date: "11. 3.".to_string(), lessons: vec![vec![class("Math")], vec![class("Art")]] },
                RawDayLessons { date: "12. 3.".to_string(), lessons: vec![vec![class("PE")], vec![], vec![class("Lost")]] },
            ],
        },
    }
}

fn texts(notices: &Vec<Notice>) -> Vec<String> {
    notices
        .iter()
        .map(|n| match n {
            Notice::Skipped(s) => format!("skipped {} {} {} {:?}", s.day, s.slot, s.record, s.error),
            Notice::Deleted { subject } => format!("Deleted {}", subject),
            Notice::Added { subject } => format!("Added {}", subject),
            Notice::NoIdentity { subject } => format!("no id {}", subject),
            Notice::NotDeleted { subject, reason } => format!("not deleted {}: {}", subject, reason),
            Notice::NotAdded { subject, reason } => format!("not added {}: {}", subject, reason),
        })
        .collect()
}

fn stored(id: Option<&str>, summary: &str, start: &str, end: &str) -> Event {
    Event {
        id: id.map(|i| i.to_string()),
        summary: Some(summary.to_string()),
        location: Some("101".to_string()),
        start: Some(EventDateTime { date_time: Some(start.to_string()) }),
        end: Some(EventDateTime { date_time: Some(end.to_string()) }),
    }
}

fn to_list(run: &mut EACal) -> Step {
    match run.sync("R4C", 23) {
        Request::Week { variables } => {
            assert_eq!(variables.name, "R4C");
            assert_eq!(variables.week, 23);
        }
        _ => panic!("the timetable is asked for first"),
    }
    assert_eq!(run.phase, Phase::AwaitingWeek);
    run.resume(Reply::Week(Ok(Some(week()))))
}

fn window(step: &Step) -> (String, String) {
    match &step.request {
        Request::List { from, to } => (
            chrono::DateTime::from_timestamp(from.secs + from.offset as i64, 0).unwrap().naive_utc().to_string(),
            chrono::DateTime::from_timestamp(to.secs + to.offset as i64, 0).unwrap().naive_utc().to_string(),
        ),
        _ => panic!("the calendar is asked for its entries"),
    }
}

fn year() -> i32 {
    chrono::Datelike::year(&chrono::Local::now())
}

fn on(day: u32, hour: u32, minute: u32) -> String {
    let at = chrono::TimeZone::with_ymd_and_hms(&chrono::Local, year(), 3, day, hour, minute, 0).unwrap();
    at.to_rfc3339()
}

#[test]
fn a_new_run_is_idle() {
    let run = EACal::new();
    assert_eq!(run.phase, Phase::Idle);
    assert_eq!(run.class, "");
    assert!(run.fetched.is_empty() && run.to_delete.is_empty() && run.to_add.is_empty());
    assert_eq!(run.next, 0);
}

#[test]
fn the_timetable_leads_to_the_calendar() {
    let mut run = EACal::new();
    let step = to_list(&mut run);
    assert_eq!(texts(&step.notices), vec![format!("skipped 1 2 0 {:?}", ParseFailure::MissingDefinition)]);
    assert_eq!(
        window(&step),
        (format!("{}-03-11 00:00:00", year()), format!("{}-03-12 23:59:59", year()))
    );
    assert_eq!(run.phase, Phase::AwaitingList);
    assert_eq!(run.fetched.len(), 3);
}

#[test]
fn a_run_deletes_first_and_adds_then() {
    let mut run = EACal::new();
    to_list(&mut run);
    let listed = vec![
        stored(Some("old1"), "History", &on(11, 8, 0), &on(11, 8, 45)),
        stored(Some("keep"), "Art", &on(11, 9, 0), &on(11, 9, 45)),
        stored(Some("old2"), "Math", &on(11, 8, 0), &on(11, 8, 50)),
    ];
    let step = run.resume(Reply::Listed(Ok(Some(listed))));
    assert!(step.notices.is_empty());
    match &step.request {
        Request::Delete { id } => assert_eq!(id, "old1"),
        _ => panic!("the first deletion"),
    }
    assert_eq!(run.phase, Phase::Deleting);
    let step = run.resume(Reply::Deleted(Ok(())));
    assert_eq!(texts(&step.notices), vec!["Deleted History"]);
    match &step.request {
        Request::Delete { id } => assert_eq!(id, "old2"),
        _ => panic!("the second deletion"),
    }
    let step = run.resume(Reply::Deleted(Ok(())));
    assert_eq!(texts(&step.notices), vec!["Deleted Math"]);
    match &step.request {
        Request::Insert { event } => {
            assert_eq!(event.summary, Some("Math".to_string()));
            assert_eq!(event.location, Some("101".to_string()));
            assert_eq!(event.id, None);
            assert_eq!(event.start.as_ref().unwrap().date_time, Some(on(11, 8, 0)));
            assert_eq!(event.end.as_ref().unwrap().date_time, Some(on(11, 8, 45)));
        }
        _ => panic!("the first addition"),
    }
    assert_eq!(run.phase, Phase::Adding);
    let step = run.resume(Reply::Inserted(Ok(())));
    assert_eq!(texts(&step.notices), vec!["Added Math"]);
    match &step.request {
        Request::Insert { event } => assert_eq!(event.summary, Some("PE".to_string())),
        _ => panic!("the second addition"),
    }
    let step = run.resume(Reply::Inserted(Ok(())));
    assert_eq!(texts(&step.notices), vec!["Added PE"]);
    assert!(matches!(step.request, Request::Finish { result: Ok(()) }));
    assert_eq!(run.phase, Phase::Done);
}

#[test]
fn a_calendar_in_step_needs_nothing() {
    let mut run = EACal::new();
    to_list(&mut run);
    let listed = vec![
        stored(Some("a"), "Math", &on(11, 8, 0), &on(11, 8, 45)),
        stored(Some("b"), "Art", &on(11, 9, 0), &on(11, 9, 45)),
        stored(Some("c"), "PE", &on(12, 8, 0), &on(12, 8, 45)),
    ];
    let step = run.resume(Reply::Listed(Ok(Some(listed))));
    assert!(step.notices.is_empty());
    assert!(matches!(step.request, Request::Finish { result: Ok(()) }));
    assert_eq!(run.phase, Phase::Done);
}

#[test]
fn a_failed_deletion_or_addition_does_not_stop_the_run() {
    let mut run = EACal::new();
    to_list(&mut run);
    let listed = vec![
        stored(Some("a"), "Math", &on(11, 8, 0), &on(11, 8, 45)),
        stored(Some("b"), "Art", &on(11, 9, 0), &on(11, 9, 45)),
        stored(Some("x"), "Gone", &on(12, 8, 0), &on(12, 8, 45)),
        stored(Some("y"), "Gone too", &on(12, 9, 0), &on(12, 9, 45)),
    ];
    let step = run.resume(Reply::Listed(Ok(Some(listed))));
    assert!(matches!(&step.request, Request::Delete { id } if id == "x"));
    let step = run.resume(Reply::Deleted(Err("forbidden".to_string())));
    assert_eq!(texts(&step.notices), vec!["not deleted Gone: forbidden"]);
    assert!(matches!(&step.request, Request::Delete { id } if id == "y"));
    let step = run.resume(Reply::Deleted(Ok(())));
    assert_eq!(texts(&step.notices), vec!["Deleted Gone too"]);
    assert!(matches!(&step.request, Request::Insert { event } if event.summary == Some("PE".to_string())));
    let step = run.resume(Reply::Inserted(Err("quota".to_string())));
    assert_eq!(texts(&step.notices), vec!["not added PE: quota"]);
    assert!(matches!(step.request, Request::Finish { result: Ok(()) }));
}

#[test]
fn a_lesson_without_identifier_cannot_be_deleted() {
    let mut run = EACal::new();
    to_list(&mut run);
    let listed = vec![
        stored(None, "Ghost", &on(11, 8, 0), &on(11, 8, 30)),
        stored(Some("a"), "Math", &on(11, 8, 0), &on(11, 8, 45)),
        stored(Some("b"), "Art", &on(11, 9, 0), &on(11, 9, 45)),
        stored(Some("x"), "Gone", &on(12, 8, 0), &on(12, 8, 30)),
        stored(None, "Ghost too", &on(12, 8, 0), &on(12, 8, 30)),
        stored(Some("c"), "PE", &on(12, 8, 0), &on(12, 8, 45)),
    ];
    let step = run.resume(Reply::Listed(Ok(Some(listed))));
    assert_eq!(texts(&step.notices), vec!["no id Ghost"]);
    assert!(matches!(&step.request, Request::Delete { id } if id == "x"));
    let step = run.resume(Reply::Deleted(Ok(())));
    assert_eq!(texts(&step.notices), vec!["Deleted Gone", "no id Ghost too"]);
    assert!(matches!(step.request, Request::Finish { result: Ok(()) }));
}

#[test]
fn the_current_week_is_asked_for_first() {
    let mut run = EACal::new();
    assert!(matches!(run.sync_current("R4C"), Request::CurrentWeek));
    assert_eq!(run.phase, Phase::AwaitingCurrentWeek);
    let step = run.resume(Reply::CurrentWeek(Ok(Some(CurrentWeekData { current_week: 17 }))));
    assert!(step.notices.is_empty());
    match &step.request {
        Request::Week { variables } => {
            assert_eq!(variables.name, "R4C");
            assert_eq!(variables.week, 17);
        }
        _ => panic!("the timetable is asked for next"),
    }
    assert_eq!(run.phase, Phase::AwaitingWeek);
}

#[test]
fn an_unusable_current_week_ends_the_run() {
    let mut run = EACal::new();
    run.sync_current("R4C");
    let step = run.resume(Reply::CurrentWeek(Ok(None)));
    assert!(matches!(
        step.request,
        Request::Finish { result: Err(SyncError::CurrentWeekRefused(AnswerError::NoCurrentWeek)) }
    ));
    let mut run = EACal::new();
    run.sync_current("R4C");
    let step = run.resume(Reply::CurrentWeek(Ok(Some(CurrentWeekData { current_week: 1000 }))));
    assert!(matches!(
        step.request,
        Request::Finish { result: Err(SyncError::CurrentWeekRefused(AnswerError::WeekOutOfRange)) }
    ));
    let mut run = EACal::new();
    run.sync_current("R4C");
    let step = run.resume(Reply::CurrentWeek(Err("offline".to_string())));
    assert!(matches!(&step.request, Request::Finish { result: Err(SyncError::CurrentWeekFailed(r)) } if r == "offline"));
    assert_eq!(run.phase, Phase::Done);
}

#[test]
fn a_failed_fetch_ends_the_run() {
    let mut run = EACal::new();
    run.sync("R4C", 1);
    let step = run.resume(Reply::Week(Err("offline".to_string())));
    assert!(matches!(&step.request, Request::Finish { result: Err(SyncError::FetchFailed(r)) } if r == "offline"));
    let mut run = EACal::new();
    run.sync("R4C", 1);
    let step = run.resume(Reply::Week(Ok(None)));
    assert!(matches!(
        step.request,
        Request::Finish { result: Err(SyncError::FetchRefused(AnswerError::NoTimetableData)) }
    ));
}

#[test]
fn a_timetable_without_lessons_ends_the_run() {
    let mut run = EACal::new();
    run.sync("R4C", 1);
    let empty = ClassWeekData {
        class_week: ClassWeek {
            schedule_definitions: vec![],
            days: vec![RawDayLessons { date: "11. 3.".to_string(), lessons: vec![vec![class("Math")]] }],
        },
    };
    let step = run.resume(Reply::Week(Ok(Some(empty))));
    assert_eq!(texts(&step.notices), vec![format!("skipped 0 0 0 {:?}", ParseFailure::MissingDefinition)]);
    assert!(matches!(step.request, Request::Finish { result: Err(SyncError::NoLessons) }));
    assert_eq!(run.phase, Phase::Done);
}

#[test]
fn a_failed_list_ends_the_run() {
    let mut run = EACal::new();
    to_list(&mut run);
    let step = run.resume(Reply::Listed(Err("offline".to_string())));
    assert!(matches!(&step.request, Request::Finish { result: Err(SyncError::ListFailed(r)) } if r == "offline"));
    let mut run = EACal::new();
    to_list(&mut run);
    let step = run.resume(Reply::Listed(Ok(None)));
    assert!(matches!(step.request, Request::Finish { result: Err(SyncError::ListRefused) }));
}

#[test]
fn an_empty_calendar_gets_every_lesson() {
    let mut run = EACal::new();
    to_list(&mut run);
    let mut step = run.resume(Reply::Listed(Ok(Some(Vec::new()))));
    let mut added = Vec::new();
    while let Request::Insert { event } = &step.request {
        added.push(event.summary.clone().unwrap());
        step = run.resume(Reply::Inserted(Ok(())));
    }
    assert_eq!(added, vec!["Math", "Art", "PE"]);
    assert!(matches!(step.request, Request::Finish { result: Ok(()) }));
}

#[test]
fn a_reply_to_another_question_ends_the_run() {
    let mut run = EACal::new();
    run.sync("R4C", 1);
    let step = run.resume(Reply::Deleted(Ok(())));
    assert!(step.notices.is_empty());
    assert!(matches!(step.request, Request::Finish { result: Err(SyncError::Unexpected) }));
    assert_eq!(run.phase, Phase::Done);
    let mut idle = EACal::new();
    let step = idle.resume(Reply::Week(Ok(Some(week()))));
    assert!(matches!(step.request, Request::Finish { result: Err(SyncError::Unexpected) }));
    let step = idle.resume(Reply::Inserted(Ok(())));
    assert!(matches!(step.request, Request::Finish { result: Err(SyncError::Unexpected) }));
}

#[test]
fn a_run_is_in_order_at_every_step() {
    let mut run = EACal::new();
    assert!(run.is_valid());
    to_list(&mut run);
    assert!(run.is_valid());
    let mut step = run.resume(Reply::Listed(Ok(Some(vec![stored(Some("x"), "Gone", &on(12, 8, 0), &on(12, 8, 30))]))));
    loop {
        assert!(run.is_valid());
        step = match step.request {
            Request::Delete { .. } => run.resume(Reply::Deleted(Ok(()))),
            Request::Insert { .. } => run.resume(Reply::Inserted(Ok(()))),
            _ => break,
        };
    }
    assert_eq!(run.phase, Phase::Done);
    run.phase = Phase::Deleting;
    run.next = 7;
    assert!(!run.is_valid());
}

#[test]
fn beginning_a_run_leaves_its_lists_alone() {
    let mut run = EACal::new();
    to_list(&mut run);
    run.resume(Reply::Listed(Ok(Some(vec![stored(Some("x"), "Gone", &on(12, 8, 0), &on(12, 8, 30))]))));
    let before = (run.fetched.len(), run.to_delete.len(), run.to_add.len(), run.next);
    assert_eq!(before, (3, 1, 3, 0));
    run.sync("R5A", 2);
    assert_eq!((run.fetched.len(), run.to_delete.len(), run.to_add.len(), run.next), before);
    assert_eq!(run.class, "R5A");
    run.sync_current("R6B");
    assert_eq!((run.fetched.len(), run.to_delete.len(), run.to_add.len(), run.next), before);
    assert_eq!(run.class, "R6B");
    assert_eq!(run.to_delete[0].subject, "Gone");
}
