use chrono::{TimeZone, Utc};
use logic::{DependencyNodeType, Task};

fn ts(y: i32, mo: u32, d: u32, h: u32, mi: u32, s: u32) -> i64 {
    Utc.with_ymd_and_hms(y, mo, d, h, mi, s).unwrap().timestamp()
}

#[test]
fn tasks_test_invalid_task() {
    let date_start = ts(2025, 1, 2, 0, 0, 0);
    let date_end = ts(2025, 1, 1, 0, 0, 0);

    let task = Task::new(String::from("Test"), date_start, date_end, None, None);
    assert!(task.is_err());
}

#[test]
fn tasks_test_valid_task() {
    let date_start = ts(2025, 1, 1, 0, 0, 0);
    let date_end = ts(2025, 1, 1, 2, 0, 0);

    let task = Task::new(String::from("Test"), date_start, date_end, None, None);
    assert!(task.is_ok());
    assert_eq!(
        task.unwrap().dependency.get_dependency_type(),
        DependencyNodeType::Isolated
    )
}

#[test]
fn test_for_dependencies() {
    let date_start = ts(2025, 1, 1, 0, 0, 0);
    let date_end = ts(2025, 1, 1, 2, 0, 0);

    let mut task = Task::new(String::from("Test"), date_start, date_end, None, None).unwrap();
    assert_eq!(
        task.dependency.get_dependency_type(),
        DependencyNodeType::Isolated
    );
    task.add_prev_task(41);
    assert_eq!(
        task.dependency.get_dependency_type(),
        DependencyNodeType::Base
    );
    task.add_next_task(42);
    assert_eq!(
        task.dependency.get_dependency_type(),
        DependencyNodeType::Node
    )
}

#[test]
fn dependency_classification_covers_roots() {
    let date_start = ts(2025, 1, 1, 0, 0, 0);
    let date_end = ts(2025, 1, 2, 0, 0, 0);
    let mut task = Task::new(String::from("Root"), date_start, date_end, None, None).unwrap();
    task.add_next_task(7);
    assert_eq!(
        task.dependency.get_dependency_type(),
        DependencyNodeType::Root
    );
    assert!(!task.dependency.has_prev_tasks());
    assert!(task.dependency.has_next_tasks());
    assert_eq!(task.dependency.next_tasks().unwrap().len(), 1);
    assert_eq!(task.dependency.next_tasks().unwrap()[0], 7);
    assert!(task.dependency.prev_tasks().is_none());
}

#[test]
fn sanitize_drops_empty_link_lists() {
    let date_start = ts(2025, 1, 1, 0, 0, 0);
    let date_end = ts(2025, 1, 2, 0, 0, 0);
    let mut task = Task::new(String::from("S"), date_start, date_end, None, None).unwrap();
    task.dependency.prev_task = Some(Vec::new());
    assert!(!task.dependency.has_prev_tasks());
    task.dependency.sanitaze();
    assert!(task.dependency.prev_task.is_none());

    task.add_prev_task(3);
    task.dependency.sanitaze();
    assert!(task.dependency.has_prev_tasks());
    assert_eq!(task.dependency.prev_tasks().unwrap().len(), 1);
    assert_eq!(task.dependency.prev_tasks().unwrap()[0], 3);
}

#[test]
fn task_records_span_and_status() {
    let date_start = ts(2025, 2, 1, 0, 0, 0);
    let date_end = ts(2025, 2, 15, 0, 0, 0);
    let task = Task::new(String::from("T"), date_start, date_end, None, None).unwrap();
    assert_eq!(task.get_date_start(), date_start);
    assert_eq!(task.get_date_end(), date_end);
    assert_eq!(task.get_duration(), date_end - date_start);
    assert_eq!(task.status, logic::TaskStatus::New);
    assert!(task.resources.is_empty());
}

#[test]
fn base_structures_test_invalid_task() {
    let date_start = ts(2025, 1, 2, 0, 0, 0);
    let date_end = ts(2025, 1, 1, 0, 0, 0);

    let task = Task::new(String::from("Test"), date_start, date_end, None, None);
    assert!(task.is_err());
}

#[test]
fn base_structures_test_valid_task() {
    let date_start = ts(2025, 1, 1, 0, 0, 0);
    let date_end = ts(2025, 1, 1, 2, 0, 0);

    let task = Task::new(String::from("Test"), date_start, date_end, None, None);
    assert!(task.is_ok());
}
