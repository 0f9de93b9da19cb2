use eacal::lesson::Lesson;
use eacal::reconcile::reconcile;
use eacal::timestamp::Timestamp;

fn at(secs: i64) -> Timestamp {
    Timestamp::new(secs, 0, 3600).unwrap()
}

const DAY_START: i64 = 1_710_460_800;

fn lesson(subject: &str, room: &str, start: i64, end: i64) -> Lesson {
    Lesson {
        id: None,
        subject: subject.to_string(),
        classroom: room.to_string(),
        teacher: "Smith".to_string(),
        start: at(start),
        end: at(end),
    }
}

fn stored(id: &str, subject: &str, room: &str, start: i64, end: i64) -> Lesson {
    Lesson {
        id: Some(id.to_string()),
        subject: subject.to_string(),
        classroom: room.to_string(),
        teacher: String::new(),
        start: at(start),
        end: at(end),
    }
}

fn math() -> Lesson {
    lesson("Math", "101", DAY_START + 8 * 3600, DAY_START + 8 * 3600 + 45 * 60)
}

fn subjects(lessons: &Vec<Lesson>) -> Vec<String> {
    lessons.iter().map(|l| l.subject.clone()).collect()
}

fn sorted(mut names: Vec<String>) -> Vec<String> {
    names.sort();
    names
}

fn carry_out(existing: &Vec<Lesson>, to_delete: &Vec<Lesson>, to_add: &Vec<Lesson>) -> Vec<Lesson> {
    let mut after: Vec<Lesson> =
        existing.iter().filter(|e| !to_delete.iter().any(|d| d == *e)).cloned().collect();
    after.extend(to_add.iter().cloned());
    after
}

#[test]
fn a_lesson_that_the_calendar_lacks_is_added() {
    let fetched = vec![math()];
    let existing = Vec::new();
    let (to_delete, to_add) = reconcile(&fetched, &existing);
    assert!(to_delete.is_empty());
    assert_eq!(to_add.len(), 1);
    assert!(to_add[0] == math());
    assert_eq!(to_add[0].classroom, "101");
    assert_eq!(to_add[0].teacher, "Smith");
    assert_eq!(to_add[0].id, None);
}

#[test]
fn a_lesson_in_another_room_is_left_alone() {
    let fetched = vec![math()];
    let mut moved = math();
    moved.classroom = "202".to_string();
    moved.id = Some("e1".to_string());
    let (to_delete, to_add) = reconcile(&fetched, &vec![moved]);
    assert!(to_delete.is_empty());
    assert!(to_add.is_empty());
}

#[test]
fn a_lesson_that_the_timetable_lacks_is_deleted() {
    let existing = vec![stored("e1", "Art", "7", 100, 200)];
    let (to_delete, to_add) = reconcile(&Vec::new(), &existing);
    assert!(to_add.is_empty());
    assert_eq!(to_delete.len(), 1);
    assert_eq!(to_delete[0].id, Some("e1".to_string()));
    assert_eq!(to_delete[0].subject, "Art");
}

#[test]
fn a_lesson_that_moved_in_time_is_deleted_and_added() {
    let fetched = vec![lesson("Math", "101", 100, 200)];
    let existing = vec![stored("e1", "Math", "101", 100, 260)];
    let (to_delete, to_add) = reconcile(&fetched, &existing);
    assert_eq!(to_delete.len(), 1);
    assert_eq!(to_delete[0].id, Some("e1".to_string()));
    assert_eq!(to_add.len(), 1);
    assert_eq!(to_add[0].end.secs, 200);
}

#[test]
fn both_lists_keep_the_order_of_their_source() {
    let fetched = vec![
        lesson("a", "", 100, 200),
        lesson("b", "", 200, 300),
        lesson("c", "", 300, 400),
        lesson("d", "", 400, 500),
    ];
    let existing = vec![
        stored("1", "z", "", 900, 950),
        stored("2", "b", "", 200, 300),
        stored("3", "y", "", 100, 200),
        stored("4", "d", "", 400, 500),
        stored("5", "x", "", 100, 200),
    ];
    let (to_delete, to_add) = reconcile(&fetched, &existing);
    assert_eq!(subjects(&to_delete), vec!["z", "y", "x"]);
    assert_eq!(subjects(&to_add), vec!["a", "c"]);
}

#[test]
fn nothing_against_nothing_is_nothing() {
    let (to_delete, to_add) = reconcile(&Vec::new(), &Vec::new());
    assert!(to_delete.is_empty() && to_add.is_empty());
}

#[test]
fn a_second_run_finds_nothing_to_do() {
    let fetched = vec![
        lesson("a", "", 100, 200),
        lesson("b", "", 200, 300),
        lesson("b", "", 200, 300),
        lesson("c", "", 300, 400),
    ];
    let existing = vec![
        stored("1", "b", "elsewhere", 200, 300),
        stored("2", "gone", "", 100, 200),
        stored("3", "gone", "", 100, 200),
        stored("4", "c", "", 300, 401),
    ];
    let (to_delete, to_add) = reconcile(&fetched, &existing);
    assert_eq!(subjects(&to_delete), vec!["gone", "gone", "c"]);
    assert_eq!(subjects(&to_add), vec!["a", "c"]);
    let after = carry_out(&existing, &to_delete, &to_add);
    let (to_delete, to_add) = reconcile(&fetched, &after);
    assert!(to_delete.is_empty());
    assert!(to_add.is_empty());
}

#[test]
fn every_lesson_is_of_exactly_one_kind() {
    let fetched = vec![lesson("a", "", 100, 200), lesson("b", "", 200, 300), lesson("c", "", 300, 400)];
    let existing = vec![stored("1", "b", "", 200, 300), stored("2", "x", "", 100, 200)];
    let (to_delete, to_add) = reconcile(&fetched, &existing);
    for l in fetched.iter().chain(existing.iter()) {
        let added = to_add.iter().any(|a| a == l);
        let deleted = to_delete.iter().any(|d| d == l);
        let unchanged = fetched.iter().any(|f| f == l) && existing.iter().any(|e| e == l);
        let kinds = [added, deleted, unchanged].iter().filter(|k| **k).count();
        assert_eq!(kinds, 1, "{}", l.subject);
    }
}

#[test]
fn the_order_of_the_lessons_does_not_change_the_plan() {
    let fetched = vec![lesson("a", "", 100, 200), lesson("b", "", 200, 300), lesson("c", "", 300, 400)];
    let existing = vec![
        stored("1", "b", "", 200, 300),
        stored("2", "x", "", 100, 200),
        stored("3", "y", "", 100, 200),
    ];
    let (to_delete, to_add) = reconcile(&fetched, &existing);
    let fetched_again: Vec<Lesson> = fetched.iter().rev().cloned().collect();
    let existing_again = vec![existing[2].clone(), existing[0].clone(), existing[1].clone()];
    let (to_delete_again, to_add_again) = reconcile(&fetched_again, &existing_again);
    assert_eq!(sorted(subjects(&to_delete)), sorted(subjects(&to_delete_again)));
    assert_eq!(sorted(subjects(&to_add)), sorted(subjects(&to_add_again)));
    assert_eq!(subjects(&to_add_again), vec!["c", "a"]);
}
