use daily_standup::database::{DatabaseClient, RETENTION_DAYS};
use daily_standup::date::CalendarDate;
use daily_standup::error::StandupError;

fn day(text: &str) -> CalendarDate {
    CalendarDate::parse(text).unwrap()
}

#[test]
fn observing_alpha_7_over_a_week() {
    let mut store = DatabaseClient::new();
    assert_eq!(store.record_taiga_task("alpha#7", day("2024-01-01")), Ok(1));
    assert_eq!(store.record_taiga_task("alpha#7", day("2024-01-03")), Ok(3));
    assert_eq!(store.record_taiga_task("alpha#7", day("2024-01-06")), Ok(5));
    let record = store.get_task_record("alpha#7").unwrap();
    assert_eq!(record.task_key, "alpha#7");
    assert_eq!(record.first_seen_date, day("2024-01-01"));
    assert_eq!(record.last_seen_date, day("2024-01-06"));
    assert_eq!(record.total_days, 5);
}

#[test]
fn first_observation_creates_a_record() {
    let mut store = DatabaseClient::new();
    assert_eq!(store.record_taiga_task("beta#1", day("2024-03-09")), Ok(1));
    let record = store.get_task_record("beta#1").unwrap();
    assert_eq!(record.first_seen_date, day("2024-03-09"));
    assert_eq!(record.last_seen_date, day("2024-03-09"));
    assert_eq!(record.total_days, 1);
    assert_eq!(store.records().len(), 1);
}

#[test]
fn observing_twice_on_one_day_changes_nothing() {
    let mut store = DatabaseClient::new();
    store.record_taiga_task("alpha#7", day("2024-01-01")).unwrap();
    let first = store.record_taiga_task("alpha#7", day("2024-01-04")).unwrap();
    let second = store.record_taiga_task("alpha#7", day("2024-01-04")).unwrap();
    assert_eq!(first, 4);
    assert_eq!(second, 4);
    assert_eq!(store.get_task_days("alpha#7"), Ok(4));
    assert_eq!(store.records().len(), 1);
}

#[test]
fn later_days_never_lower_the_count() {
    let mut store = DatabaseClient::new();
    let mut last = 0;
    for text in ["2024-01-01", "2024-01-02", "2024-01-06", "2024-01-07", "2024-01-08", "2024-02-01"]
    {
        let days = store.record_taiga_task("alpha#7", day(text)).unwrap();
        assert!(days >= last);
        last = days;
    }
    assert_eq!(last, 24);
}

#[test]
fn a_day_before_the_first_gives_one() {
    let mut store = DatabaseClient::new();
    store.record_taiga_task("alpha#7", day("2024-01-10")).unwrap();
    assert_eq!(store.record_taiga_task("alpha#7", day("2024-01-02")), Ok(1));
    let record = store.get_task_record("alpha#7").unwrap();
    assert_eq!(record.first_seen_date, day("2024-01-10"));
    assert_eq!(record.last_seen_date, day("2024-01-02"));
}

#[test]
fn keys_are_kept_apart_and_case_matters() {
    let mut store = DatabaseClient::new();
    store.record_taiga_task("alpha#7", day("2024-01-01")).unwrap();
    assert_eq!(store.record_taiga_task("Alpha#7", day("2024-01-03")), Ok(1));
    assert_eq!(store.record_taiga_task("alpha#8", day("2024-01-03")), Ok(1));
    assert_eq!(store.get_task_days("alpha#7"), Ok(1));
    assert_eq!(store.records().len(), 3);
}

#[test]
fn a_missing_record_is_day_one() {
    let store = DatabaseClient::new();
    assert_eq!(store.get_task_days("nobody#1"), Ok(1));
    assert_eq!(store.get_task_record("nobody#1").unwrap_err(), StandupError::NotFound);
}

#[test]
fn sweep_removes_what_is_older_than_thirty_days() {
    let mut store = DatabaseClient::new();
    store.record_taiga_task("old#1", day("2024-01-01")).unwrap();
    store.record_taiga_task("edge#2", day("2024-01-02")).unwrap();
    store.record_taiga_task("new#3", day("2024-01-20")).unwrap();
    assert_eq!(store.cleanup_old_tasks(day("2024-02-01")), Ok(()));
    assert_eq!(store.get_task_record("old#1").unwrap_err(), StandupError::NotFound);
    let edge = store.get_task_record("edge#2").unwrap();
    assert_eq!(edge.last_seen_date, day("2024-01-02"));
    assert_eq!(edge.total_days, 1);
    assert!(store.get_task_record("new#3").is_ok());
    assert_eq!(store.records().len(), 2);
}

#[test]
fn sweep_twice_is_sweep_once() {
    let mut store = DatabaseClient::new();
    store.record_taiga_task("old#1", day("2023-11-01")).unwrap();
    store.record_taiga_task("new#3", day("2024-01-20")).unwrap();
    store.cleanup_old_tasks(day("2024-02-01")).unwrap();
    store.cleanup_old_tasks(day("2024-02-01")).unwrap();
    assert_eq!(store.records().len(), 1);
    assert_eq!(store.records()[0].task_key, "new#3");
}

#[test]
fn sweep_with_another_retention() {
    let mut store = DatabaseClient::new();
    store.record_taiga_task("a#1", day("2024-01-01")).unwrap();
    store.record_taiga_task("b#2", day("2024-01-05")).unwrap();
    assert_eq!(store.sweep_stale(day("2024-01-08"), 3), Ok(()));
    assert_eq!(store.records().len(), 1);
    assert_eq!(store.records()[0].task_key, "b#2");
    assert_eq!(store.sweep_stale(day("2024-01-08"), 0), Ok(()));
    assert_eq!(store.records().len(), 0);
}

#[test]
fn retention_is_thirty_days() {
    assert_eq!(RETENTION_DAYS, 30);
}

#[test]
fn an_unavailable_store_fails_and_keeps_nothing() {
    let mut store = DatabaseClient::unavailable();
    assert!(!store.is_available());
    assert_eq!(
        store.record_taiga_task("alpha#7", day("2024-01-01")),
        Err(StandupError::StoreUnavailable)
    );
    assert_eq!(store.get_task_days("alpha#7"), Err(StandupError::StoreUnavailable));
    assert_eq!(store.get_task_record("alpha#7").unwrap_err(), StandupError::StoreUnavailable);
    assert_eq!(store.cleanup_old_tasks(day("2024-01-01")), Err(StandupError::StoreUnavailable));
    assert!(!store.restore_record("alpha#7", day("2024-01-01"), day("2024-01-02")));
    assert_eq!(store.records().len(), 0);
}

#[test]
fn restored_rows_get_their_count_from_the_dates() {
    let mut store = DatabaseClient::new();
    assert!(store.is_available());
    assert!(store.restore_record("alpha#7", day("2024-01-01"), day("2024-01-09")));
    assert!(!store.restore_record("alpha#7", day("2024-01-02"), day("2024-01-03")));
    assert_eq!(store.get_task_days("alpha#7"), Ok(7));
    assert_eq!(store.record_taiga_task("alpha#7", day("2024-01-10")), Ok(8));
}

#[test]
fn urls_are_processed_in_order() {
    let mut store = DatabaseClient::new();
    store.restore_record("zen-soraka#41", day("2024-01-01"), day("2024-01-01"));
    let results = store.process_taiga_urls(
        vec![
            "https://tree.example.io/project/zen-soraka/task/41",
            "https://example.com/nothing/here",
            "https://tree.example.io/project/other/task/5",
            "https://tree.example.io/project/zen-soraka/task/41",
        ],
        day("2024-01-03"),
    );
    assert_eq!(
        results,
        vec![
            ("zen-soraka#41".to_string(), 3),
            ("other#5".to_string(), 1),
            ("zen-soraka#41".to_string(), 3),
        ]
    );
    assert_eq!(store.records().len(), 2);
}

#[test]
fn urls_on_an_unavailable_store_count_one() {
    let mut store = DatabaseClient::unavailable();
    let results = store.process_taiga_urls(
        vec!["https://tree.example.io/project/zen-soraka/task/41"],
        day("2024-01-03"),
    );
    assert_eq!(results, vec![("zen-soraka#41".to_string(), 1)]);
}

#[test]
fn duplicate_copies_a_record() {
    let mut store = DatabaseClient::new();
    store.record_taiga_task("alpha#7", day("2024-01-01")).unwrap();
    let copy = store.records()[0].duplicate();
    assert_eq!(copy.task_key, "alpha#7");
    assert_eq!(copy.first_seen_date, day("2024-01-01"));
    assert_eq!(copy.total_days, 1);
}

#[test]
fn a_row_with_an_unreadable_date_is_kept_and_answers_invalid_date() {
    let mut store = DatabaseClient::new();
    assert_eq!(store.restore_row("good#1", "2024-01-01", "2024-01-03"), Ok(true));
    assert_eq!(store.restore_row("bad#2", "not a date", "2024-01-03"), Err(StandupError::InvalidDate));
    assert_eq!(store.restore_row("bad#3", "2024-01-01", "2024-02-30"), Err(StandupError::InvalidDate));
    assert_eq!(store.unreadable_keys(), &vec!["bad#2".to_string(), "bad#3".to_string()]);
    assert_eq!(store.records().len(), 1);

    assert_eq!(store.record_taiga_task("bad#2", day("2024-01-04")), Err(StandupError::InvalidDate));
    assert_eq!(store.get_task_days("bad#2"), Err(StandupError::InvalidDate));
    assert_eq!(store.get_task_record("bad#3").unwrap_err(), StandupError::InvalidDate);
    assert_eq!(store.records().len(), 1);
    assert_eq!(store.unreadable_keys().len(), 2);

    assert_eq!(store.record_taiga_task("good#1", day("2024-01-04")), Ok(4));
    assert_eq!(store.get_task_days("good#1"), Ok(4));
}

#[test]
fn a_key_is_restored_once() {
    let mut store = DatabaseClient::new();
    assert_eq!(store.restore_row("a#1", "2024-01-01", "2024-01-03"), Ok(true));
    assert_eq!(store.restore_row("a#1", "2024-01-02", "2024-01-03"), Ok(false));
    assert_eq!(store.restore_row("a#1", "bad", "bad"), Ok(false));
    assert_eq!(store.restore_row("b#2", "bad", "bad"), Err(StandupError::InvalidDate));
    assert_eq!(store.restore_row("b#2", "2024-01-02", "2024-01-03"), Ok(false));
    assert!(!store.restore_record("b#2", day("2024-01-02"), day("2024-01-03")));
    assert_eq!(store.get_task_days("a#1"), Ok(3));
    assert_eq!(store.records().len(), 1);
    assert_eq!(store.unreadable_keys().len(), 1);
    assert_eq!(DatabaseClient::unavailable().restore_row("c#3", "bad", "bad"), Ok(false));
}

#[test]
fn sweep_leaves_unreadable_rows_alone() {
    let mut store = DatabaseClient::new();
    store.restore_row("old#1", "2023-01-01", "2023-01-02").unwrap();
    assert!(store.restore_row("bad#2", "2023-01-01", "??").is_err());
    assert_eq!(store.cleanup_old_tasks(day("2024-02-01")), Ok(()));
    assert_eq!(store.records().len(), 0);
    assert_eq!(store.unreadable_keys(), &vec!["bad#2".to_string()]);
    assert_eq!(store.record_taiga_task("bad#2", day("2024-02-01")), Err(StandupError::InvalidDate));
}

#[test]
fn urls_of_an_unreadable_row_count_one() {
    let mut store = DatabaseClient::new();
    assert!(store.restore_row("zen-soraka#41", "??", "2024-01-01").is_err());
    let results = store.process_taiga_urls(
        vec![
            "https://tree.example.io/project/zen-soraka/task/41",
            "https://tree.example.io/project/other/task/5",
        ],
        day("2024-01-03"),
    );
    assert_eq!(results, vec![("zen-soraka#41".to_string(), 1), ("other#5".to_string(), 1)]);
    assert_eq!(store.records().len(), 1);
}
