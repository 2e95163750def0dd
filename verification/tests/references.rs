use daily_standup::database::DatabaseClient;
use daily_standup::taskref::{
    extract_project_code, extract_project_code_from_taiga, extract_taiga_info,
    extract_task_key_from_url, extract_task_reference, resolve_project_code, TaskReference,
};

#[test]
fn tracker_link_in_a_body_gives_slug_and_number() {
    let found = extract_taiga_info(
        "Rework login",
        "See https://tree.example.io/project/zen-soraka/task/41 for details",
    )
    .unwrap();
    assert_eq!(found.project_slug.as_deref(), Some("zen-soraka"));
    assert_eq!(found.task_id, "41");
    assert_eq!(found.label(), "#41");
    assert_eq!(found.key_in("zen-soraka"), "zen-soraka#41");
    assert_eq!(
        extract_task_key_from_url("https://tree.example.io/project/zen-soraka/task/41"),
        Some("zen-soraka#41".to_string())
    );
}

#[test]
fn bare_reference_binds_no_project() {
    let found = extract_taiga_info("Small fix", "Fixes #12").unwrap();
    assert_eq!(found.project_slug, None);
    assert_eq!(found.task_id, "12");
    assert_eq!(found.label(), "#12");
}

#[test]
fn text_without_reference_gives_none() {
    assert!(extract_taiga_info("Tidy up", "nothing to see").is_none());
    assert!(extract_task_reference("").is_none());
    assert!(extract_task_reference("# heading").is_none());
    assert!(extract_task_reference("#").is_none());
    assert!(extract_task_reference("issue #x1").is_none());
}

#[test]
fn first_match_in_reading_order_wins() {
    let found = extract_task_reference("closes #3 and #4").unwrap();
    assert_eq!(found.task_id, "3");
    let found = extract_task_reference(
        "https://a.example/project/one/task/1 https://a.example/project/two/task/2",
    )
    .unwrap();
    assert_eq!(found.project_slug.as_deref(), Some("one"));
    assert_eq!(found.task_id, "1");
}

#[test]
fn title_is_read_before_body() {
    let found = extract_taiga_info("Fix #7", "also #8").unwrap();
    assert_eq!(found.task_id, "7");
    let found = extract_taiga_info("Fix", "#8").unwrap();
    assert_eq!(found.task_id, "8");
}

#[test]
fn title_and_body_do_not_run_together() {
    let found = extract_taiga_info("Fix #1", "2 things").unwrap();
    assert_eq!(found.task_id, "1");
}

#[test]
fn tracker_link_wins_over_an_earlier_bare_reference() {
    let found =
        extract_task_reference("fixes #12, see https://t.example.io/project/core/task/77").unwrap();
    assert_eq!(found.project_slug.as_deref(), Some("core"));
    assert_eq!(found.task_id, "77");
}

#[test]
fn digits_are_taken_as_far_as_they_go() {
    let found = extract_task_reference("see #123abc").unwrap();
    assert_eq!(found.task_id, "123");
    let found = extract_task_reference("https://t.example.io/project/core/task/770/edit").unwrap();
    assert_eq!(found.task_id, "770");
}

#[test]
fn broken_tracker_links_do_not_match() {
    assert!(extract_task_key_from_url("https://t.example.io/project/core/task/").is_none());
    assert!(extract_task_key_from_url("https://t.example.io/project//task/5").is_none());
    assert!(extract_task_key_from_url("https:///project/core/task/5").is_none());
    assert!(extract_task_key_from_url("http://t.example.io/project/core/task/5").is_none());
    assert!(extract_task_key_from_url("https://t.example.io/project/core/issue/5").is_none());
    assert!(extract_task_key_from_url("https://t.example.io/project/co re/task/5").is_none());
    assert!(extract_task_key_from_url("https://t.example.io/x/project/core/task/5").is_none());
}

#[test]
fn a_broken_link_falls_back_to_a_bare_reference() {
    let found = extract_task_reference("https://t.example.io/project/core/task/ #9").unwrap();
    assert_eq!(found.project_slug, None);
    assert_eq!(found.task_id, "9");
}

#[test]
fn task_key_from_url_on_the_store_type() {
    assert_eq!(
        DatabaseClient::extract_task_key_from_url(
            "https://tree.taiga.io/project/zenai-international-soraka/task/41"
        ),
        Some("zenai-international-soraka#41".to_string())
    );
    assert_eq!(DatabaseClient::extract_task_key_from_url("Fixes #12"), None);
}

#[test]
fn project_code_is_the_last_segment_as_written() {
    assert_eq!(extract_project_code("https://api.github.com/repos/acme/Portal"), "Portal");
    assert_eq!(extract_project_code("https://api.github.com/repos/Acme-Corp/ktv_flutter"), "ktv_flutter");
    assert_eq!(extract_project_code("Portal"), "Portal");
    assert_eq!(extract_project_code("acme/"), "");
    assert_eq!(extract_project_code(""), "");
}

#[test]
fn project_code_from_a_tracker_url() {
    assert_eq!(
        extract_project_code_from_taiga("https://tree.example.io/project/zen-soraka/task/41"),
        "zen-soraka"
    );
    assert_eq!(extract_project_code_from_taiga("https://tree.example.io/project/Zen"), "Zen");
    assert_eq!(extract_project_code_from_taiga("https://tree.example.io/projects/zen"), "");
    assert_eq!(extract_project_code_from_taiga(""), "");
}

#[test]
fn tracker_slug_is_preferred_over_the_repository() {
    let bound = Some(TaskReference { project_slug: Some("zen-soraka".to_string()), task_id: "41".to_string() });
    assert_eq!(resolve_project_code(&bound, "https://api.github.com/repos/acme/Portal"), "zen-soraka");
    let bare = Some(TaskReference { project_slug: None, task_id: "12".to_string() });
    assert_eq!(resolve_project_code(&bare, "https://api.github.com/repos/acme/Portal"), "Portal");
    assert_eq!(resolve_project_code(&None, "https://api.github.com/repos/acme/Portal"), "Portal");
}
