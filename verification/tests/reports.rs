use daily_standup::database::DatabaseClient;
use daily_standup::date::CalendarDate;
use daily_standup::error::StandupError;
use daily_standup::github_api::{
    format_pr_block, generate_ai_prompt, task_key_of, GitHubApiClient, GitHubSearchResponse,
    PullRequestInfo, PullRequestItem, Reactions, User, AI_PROMPT,
};

fn day(text: &str) -> CalendarDate {
    CalendarDate::parse(text).unwrap()
}

fn pull_request(title: &str, body: Option<&str>, state: &str, merged: bool) -> PullRequestItem {
    PullRequestItem {
        url: "https://api.github.com/repos/acme/Portal/issues/9".to_string(),
        repository_url: "https://api.github.com/repos/acme/Portal".to_string(),
        html_url: "https://github.com/acme/Portal/pull/9".to_string(),
        id: 1,
        number: 9,
        title: title.to_string(),
        user: User {
            login: "dev".to_string(),
            id: 7,
            avatar_url: String::new(),
            html_url: String::new(),
        },
        state: state.to_string(),
        draft: false,
        pull_request: PullRequestInfo {
            url: String::new(),
            html_url: String::new(),
            diff_url: String::new(),
            patch_url: String::new(),
            merged_at: if merged { Some("2024-01-03T10:00:00Z".to_string()) } else { None },
        },
        body: body.map(|text| text.to_string()),
        created_at: "2024-01-03T09:00:00Z".to_string(),
        updated_at: "2024-01-03T09:30:00Z".to_string(),
        closed_at: None,
        reactions: Some(Reactions {
            url: String::new(),
            total_count: 0,
            plus_one: 0,
            minus_one: 0,
            laugh: 0,
            hooray: 0,
            confused: 0,
            heart: 0,
            rocket: 0,
            eyes: 0,
        }),
    }
}

fn response(items: Vec<PullRequestItem>) -> GitHubSearchResponse {
    GitHubSearchResponse { total_count: items.len() as u32, incomplete_results: false, items }
}

const HEADER_OF_NONE: &str = "=== 每日站会报告数据 ===\n\n## 原始 GitHub PR 数据摘要\n- 今日创建的 PR 总数：0\n- 数据完整性：完整数据\n\n";

const NO_WORK: &str = "今天没有创建任何 PR，可能没有代码提交工作完成。\n\n";

#[test]
fn empty_batch_gives_the_no_work_report() {
    let mut store = DatabaseClient::new();
    let report =
        GitHubApiClient::new().generate_standup_report(&response(vec![]), &mut store, day("2024-01-03"));
    assert_eq!(report, format!("{}{}{}", HEADER_OF_NONE, NO_WORK, AI_PROMPT));
    assert_eq!(store.records().len(), 0);
}

#[test]
fn empty_batch_shows_zero_whatever_the_search_counted() {
    let mut store = DatabaseClient::new();
    let partial = GitHubSearchResponse { total_count: 5, incomplete_results: false, items: vec![] };
    let report =
        GitHubApiClient::new().generate_standup_report(&partial, &mut store, day("2024-01-03"));
    assert_eq!(report, format!("{}{}{}", HEADER_OF_NONE, NO_WORK, AI_PROMPT));
    assert_eq!(report.matches(NO_WORK).count(), 1);
    assert!(!report.contains("### PR #"));
}

#[test]
fn header_shows_the_batch_and_its_completeness() {
    let mut store = DatabaseClient::new();
    let items = vec![
        pull_request("a", None, "open", false),
        pull_request("b", None, "open", false),
    ];
    let partial = GitHubSearchResponse { total_count: 120, incomplete_results: true, items };
    let report =
        GitHubApiClient::new().generate_standup_report(&partial, &mut store, day("2024-01-03"));
    assert!(report.starts_with(
        "=== 每日站会报告数据 ===\n\n## 原始 GitHub PR 数据摘要\n- 今日创建的 PR 总数：2\n- 数据完整性：部分数据\n\n## PR 详细信息\n\n### PR #1\n"
    ));
}

#[test]
fn block_of_a_pull_request_with_a_tracker_link() {
    let pr = pull_request(
        "Rework login",
        Some("## Summary\nReplaces the session cookie with a signed token.\n\nSee https://tree.example.io/project/zen-soraka/task/41 for details"),
        "open",
        false,
    );
    let mut store = DatabaseClient::new();
    store.restore_record("zen-soraka#41", day("2024-01-01"), day("2024-01-02"));
    let report =
        GitHubApiClient::new().generate_standup_report(&response(vec![pr]), &mut store, day("2024-01-03"));
    let expected = format!(
        "{}{}{}{}",
        "=== 每日站会报告数据 ===\n\n## 原始 GitHub PR 数据摘要\n- 今日创建的 PR 总数：1\n- 数据完整性：完整数据\n\n",
        "## PR 详细信息\n\n",
        "### PR #1\n- 标题：Rework login\n- 仓库：acme/Portal\n- 状态：in progress\n- 关联 Taiga：#41\n- 项目代号：zen-soraka\n- 累积天数：[3]\n- 工作内容摘要：Replaces the session cookie with a signed token.\n- 创建时间：2024-01-03T09:00:00Z\n- 链接：https://github.com/acme/Portal/pull/9\n\n",
        AI_PROMPT
    );
    assert_eq!(report, expected);
    assert_eq!(store.get_task_days("zen-soraka#41"), Ok(3));
}

#[test]
fn bare_reference_is_tracked_under_the_repository() {
    let pr = pull_request("Fixes #12", None, "closed", true);
    assert_eq!(task_key_of(&pr), Some("Portal#12".to_string()));
    let mut store = DatabaseClient::new();
    let report =
        GitHubApiClient::new().generate_standup_report(&response(vec![pr]), &mut store, day("2024-01-03"));
    assert!(report.contains(
        "### PR #1\n- 标题：Fixes #12\n- 仓库：acme/Portal\n- 状态：done\n- 关联 Taiga：#12\n- 项目代号：Portal\n- 累积天数：[1]\n- 创建时间：2024-01-03T09:00:00Z\n- 链接：https://github.com/acme/Portal/pull/9\n\n"
    ));
    assert_eq!(store.get_task_days("Portal#12"), Ok(1));
}

#[test]
fn pull_request_without_a_task_is_not_recorded() {
    let pr = pull_request("Tidy up", Some("short"), "closed", false);
    assert_eq!(task_key_of(&pr), None);
    let mut store = DatabaseClient::new();
    let report =
        GitHubApiClient::new().generate_standup_report(&response(vec![pr]), &mut store, day("2024-01-03"));
    assert!(report.contains(
        "### PR #1\n- 标题：Tidy up\n- 仓库：acme/Portal\n- 状态：closed\n- 项目代号：Portal\n- 创建时间：2024-01-03T09:00:00Z\n- 链接：https://github.com/acme/Portal/pull/9\n\n"
    ));
    assert_eq!(store.records().len(), 0);
}

#[test]
fn blocks_keep_the_order_and_repeat_a_key() {
    let first = pull_request("One #5", None, "open", false);
    let second = pull_request("Other", None, "open", false);
    let third = pull_request("Again #5", None, "open", false);
    let mut store = DatabaseClient::new();
    store.restore_record("Portal#5", day("2024-01-01"), day("2024-01-01"));
    let report = GitHubApiClient::new().generate_standup_report(
        &response(vec![first, second, third]),
        &mut store,
        day("2024-01-04"),
    );
    let one = report.find("### PR #1\n- 标题：One #5\n").unwrap();
    let two = report.find("### PR #2\n- 标题：Other\n").unwrap();
    let three = report.find("### PR #3\n- 标题：Again #5\n").unwrap();
    assert!(one < two && two < three);
    assert_eq!(report.matches("- 累积天数：[4]\n").count(), 2);
    assert_eq!(report.matches("### PR #").count(), 3);
    assert_eq!(store.records().len(), 1);
    assert_eq!(store.get_task_days("Portal#5"), Ok(4));
    assert!(report.ends_with(AI_PROMPT));
}

#[test]
fn unavailable_store_degrades_the_days_only() {
    let first = pull_request("One #5", None, "open", false);
    let second = pull_request("Other", None, "open", false);
    let mut store = DatabaseClient::unavailable();
    let report = GitHubApiClient::new().generate_standup_report(
        &response(vec![first, second]),
        &mut store,
        day("2024-01-04"),
    );
    assert!(report.contains("- 关联 Taiga：#5\n- 项目代号：Portal\n- 累积天数：[1]（任务时长存储不可用）\n"));
    assert!(report.contains("### PR #2\n- 标题：Other\n"));
    assert!(report.ends_with(AI_PROMPT));
    assert_eq!(store.records().len(), 0);
}

#[test]
fn unreadable_row_degrades_its_own_block_only() {
    let first = pull_request("One #5", None, "open", false);
    let second = pull_request("Two #6", None, "open", false);
    let mut store = DatabaseClient::new();
    assert_eq!(
        store.restore_row("Portal#5", "long ago", "2024-01-02"),
        Err(StandupError::InvalidDate)
    );
    let report = GitHubApiClient::new().generate_standup_report(
        &response(vec![first, second]),
        &mut store,
        day("2024-01-04"),
    );
    assert!(report.contains("- 关联 Taiga：#5\n- 项目代号：Portal\n- 累积天数：[1]（已存日期无法解析）\n"));
    assert!(report.contains("- 关联 Taiga：#6\n- 项目代号：Portal\n- 累积天数：[1]\n"));
    assert_eq!(store.records().len(), 1);
    assert_eq!(store.records()[0].task_key, "Portal#6");
    assert_eq!(store.unreadable_keys().len(), 1);
}

#[test]
fn other_failures_are_named_too() {
    let pr = pull_request("Fix #12", None, "open", false);
    assert!(format_pr_block(&pr, 1, Some(Err(StandupError::InvalidDate)))
        .contains("- 累积天数：[1]（已存日期无法解析）\n"));
    assert!(format_pr_block(&pr, 1, Some(Err(StandupError::NotFound)))
        .contains("- 累积天数：[1]（无法取得天数）\n"));
}

#[test]
fn status_is_done_closed_or_in_progress() {
    let merged = format_pr_block(&pull_request("a", None, "closed", true), 1, None);
    let closed = format_pr_block(&pull_request("a", None, "closed", false), 1, None);
    let open = format_pr_block(&pull_request("a", None, "open", false), 1, None);
    let merged_open = format_pr_block(&pull_request("a", None, "open", true), 1, None);
    assert!(merged.contains("- 状态：done\n"));
    assert!(closed.contains("- 状态：closed\n"));
    assert!(open.contains("- 状态：in progress\n"));
    assert!(merged_open.contains("- 状态：done\n"));
}

#[test]
fn block_shows_the_days_it_is_given() {
    let pr = pull_request("Fix #12", None, "open", false);
    let with_days = format_pr_block(&pr, 12, Some(Ok(7)));
    assert_eq!(
        with_days,
        "### PR #12\n- 标题：Fix #12\n- 仓库：acme/Portal\n- 状态：in progress\n- 关联 Taiga：#12\n- 项目代号：Portal\n- 累积天数：[7]\n- 创建时间：2024-01-03T09:00:00Z\n- 链接：https://github.com/acme/Portal/pull/9\n\n"
    );
    assert!(format_pr_block(&pr, 1, Some(Ok(0))).contains("- 累积天数：[1]\n"));
    assert!(format_pr_block(&pr, 1, Some(Ok(-3))).contains("- 累积天数：[1]\n"));
    assert!(format_pr_block(&pr, 1, Some(Ok(1234))).contains("- 累积天数：[1234]\n"));
    assert!(format_pr_block(&pr, 1, Some(Err(StandupError::StoreUnavailable)))
        .contains("- 累积天数：[1]（任务时长存储不可用）\n"));
    assert!(!format_pr_block(&pr, 1, None).contains("- 累积天数："));
}

#[test]
fn repository_outside_the_api_is_shown_whole() {
    let mut pr = pull_request("a", None, "open", false);
    pr.repository_url = "https://example.com/git/acme/Portal".to_string();
    let block = format_pr_block(&pr, 1, None);
    assert!(block.contains("- 仓库：https://example.com/git/acme/Portal\n- 状态"));
    assert!(block.contains("- 项目代号：Portal\n"));
}

#[test]
fn empty_project_code_is_left_out() {
    let mut pr = pull_request("a", None, "open", false);
    pr.repository_url = "https://api.github.com/repos/acme/".to_string();
    let block = format_pr_block(&pr, 1, None);
    assert!(!block.contains("- 项目代号"));
}

#[test]
fn trailer_is_the_fixed_prompt() {
    assert_eq!(generate_ai_prompt(), AI_PROMPT);
    assert!(AI_PROMPT.contains("[天数]项目代号#Taiga编号-工作内容"));
    assert!(AI_PROMPT.contains("[天数]工作内容"));
}

#[test]
fn client_keeps_its_token() {
    assert_eq!(GitHubApiClient::new().token(), None);
    assert_eq!(GitHubApiClient::new().with_token("SECRET-REDACTED".to_string()).token(), Some("SECRET-REDACTED"));
}
