use daily_standup::summary::{extract_work_summary, MIN_FALLBACK_LENGTH, SUMMARY_LIMIT};

#[test]
fn line_after_a_heading_is_the_summary() {
    assert_eq!(
        extract_work_summary("## Summary\nReplaces the session cookie with a signed token.\nMore."),
        "Replaces the session cookie with a signed token."
    );
    assert_eq!(extract_work_summary("## 简介\n修复登录问题\n"), "修复登录问题");
    assert_eq!(extract_work_summary("主要改动：\n  重构  \n"), "重构");
    assert_eq!(extract_work_summary("变更内容\nx"), "x");
}

#[test]
fn keywords_match_in_any_case() {
    assert_eq!(extract_work_summary("DESCRIPTION\nAdds a cache"), "Adds a cache");
    assert_eq!(extract_work_summary("Main Changes\nfix"), "fix");
}

#[test]
fn heading_with_an_unusable_next_line_is_passed_over() {
    assert_eq!(
        extract_work_summary("## Summary\n\nThis change fixes the login."),
        "This change fixes the login."
    );
    assert_eq!(
        extract_work_summary("## Summary\n- first point of the list\n## Description\nreal text"),
        "real text"
    );
    assert_eq!(extract_work_summary("## Summary\n# Title\n"), "");
}

#[test]
fn a_heading_on_the_last_line_announces_nothing() {
    assert_eq!(extract_work_summary("summary"), "");
    assert_eq!(extract_work_summary("a line long enough to count\nsummary"), "a line long enough to count");
}

#[test]
fn fallback_is_the_first_substantial_line() {
    assert_eq!(
        extract_work_summary("# Title\n```\nhttps://example.com/a/long/link\nshort\n\n  Fixes the crash on start.  \nlater line that is long"),
        "Fixes the crash on start."
    );
}

#[test]
fn fallback_needs_more_than_ten_characters() {
    assert_eq!(extract_work_summary("0123456789"), "");
    assert_eq!(extract_work_summary("0123456789a"), "0123456789a");
    assert_eq!(extract_work_summary("一二三四五六七八九十"), "");
    assert_eq!(extract_work_summary("一二三四五六七八九十一"), "一二三四五六七八九十一");
    assert_eq!(MIN_FALLBACK_LENGTH, 10);
}

#[test]
fn long_summaries_are_cut_at_fifty_characters() {
    let fifty = "a".repeat(50);
    let sixty = "a".repeat(60);
    assert_eq!(extract_work_summary(&fifty), fifty);
    assert_eq!(extract_work_summary(&sixty), format!("{}...", fifty));
    assert_eq!(SUMMARY_LIMIT, 50);
}

#[test]
fn length_is_counted_in_characters() {
    let fifty = "字".repeat(50);
    let fifty_one = "字".repeat(51);
    assert_eq!(extract_work_summary(&fifty), fifty);
    assert_eq!(extract_work_summary(&fifty_one), format!("{}...", fifty));
}

#[test]
fn nothing_usable_gives_an_empty_summary() {
    assert_eq!(extract_work_summary(""), "");
    assert_eq!(extract_work_summary("\n\n   \n"), "");
    assert_eq!(extract_work_summary("# only a heading\nhttp://only.a/link/that/is/long"), "");
}
