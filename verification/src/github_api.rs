//! The pull requests of a day and the report that is written from them.
//!
//! The report is plain text: a header with the number of pull requests in
//! the batch and the completeness of the data, then one block per pull request in the
//! order given, then a fixed trailer that tells a summarizer what to make of
//! it. Every pull request that refers to a task is one observation of that
//! task in the duration store, and its block shows the days returned.

use vstd::prelude::*;

use crate::database::{after_observation, observation, DatabaseClient, DatabaseView};
use crate::date::CalendarDate;
use crate::error::StandupError;
use crate::summary::{extract_work_summary, work_summary};
use crate::taskref::{
    combined_text, extract_taiga_info, resolve_project_code, resolved_project_code, task_key,
    task_label, task_reference, TaskReference, TaskReferenceView,
};
use crate::text::{
    chars_of, decimal, decimal_exec, has_at, has_at_exec, push_all, push_str, same_text,
    slice_of, string_of,
};

verus! {

/// The reactions to a pull request.
#[derive(Debug)]
pub struct Reactions {
    pub url: String,
    pub total_count: u32,
    pub plus_one: u32,
    pub minus_one: u32,
    pub laugh: u32,
    pub hooray: u32,
    pub confused: u32,
    pub heart: u32,
    pub rocket: u32,
    pub eyes: u32,
}

/// The author of a pull request.
#[derive(Debug)]
pub struct User {
    pub login: String,
    pub id: u64,
    pub avatar_url: String,
    pub html_url: String,
}

/// The links of a pull request, and when it was merged.
#[derive(Debug)]
pub struct PullRequestInfo {
    pub url: String,
    pub html_url: String,
    pub diff_url: String,
    pub patch_url: String,
    /// The time of the merge; `None` while the pull request is not merged.
    pub merged_at: Option<String>,
}

/// One pull request as the search returns it.
#[derive(Debug)]
pub struct PullRequestItem {
    pub url: String,
    pub repository_url: String,
    pub html_url: String,
    pub id: u64,
    pub number: u32,
    pub title: String,
    pub user: User,
    pub state: String,
    pub draft: bool,
    pub pull_request: PullRequestInfo,
    pub body: Option<String>,
    pub created_at: String,
    pub updated_at: String,
    pub closed_at: Option<String>,
    pub reactions: Option<Reactions>,
}

/// The answer to a search for pull requests.
#[derive(Debug)]
pub struct GitHubSearchResponse {
    /// How many pull requests the search found in all. The batch in `items`
    /// may hold fewer; the report counts the batch.
    pub total_count: u32,
    pub incomplete_results: bool,
    pub items: Vec<PullRequestItem>,
}

/// What the report reads of a pull request.
pub struct PullRequestSummaryView {
    pub title: Seq<char>,
    /// The body; empty where the pull request has none.
    pub body: Seq<char>,
    pub repository_url: Seq<char>,
    pub state: Seq<char>,
    pub merged: bool,
    pub created_at: Seq<char>,
    pub html_url: Seq<char>,
}

/// What the report reads of a search response.
pub struct SearchResponseView {
    pub total_count: nat,
    pub incomplete_results: bool,
    pub items: Seq<PullRequestSummaryView>,
}

impl View for PullRequestItem {
    type V = PullRequestSummaryView;

    open spec fn view(&self) -> PullRequestSummaryView {
        PullRequestSummaryView {
            title: self.title@,
            body: match self.body {
                Some(body) => body@,
                None => Seq::empty(),
            },
            repository_url: self.repository_url@,
            state: self.state@,
            merged: self.pull_request.merged_at is Some,
            created_at: self.created_at@,
            html_url: self.html_url@,
        }
    }
}

impl View for GitHubSearchResponse {
    type V = SearchResponseView;

    open spec fn view(&self) -> SearchResponseView {
        SearchResponseView {
            total_count: self.total_count as nat,
            incomplete_results: self.incomplete_results,
            items: Seq::new(self.items@.len(), |k: int| self.items@[k]@),
        }
    }
}

/// What the store answered for the task of one pull request: nothing where
/// the pull request names no task, else the days or the failure.
pub type Outcome = Option<Result<int, StandupError>>;

/// An outcome as it is handed over at run time, with its days as `int`.
pub open spec fn outcome_view(outcome: Option<Result<i32, StandupError>>) -> Outcome {
    match outcome {
        None => None,
        Some(Ok(days)) => Some(Ok(days as int)),
        Some(Err(e)) => Some(Err(e)),
    }
}

/// A line of the report: a label, a value, a line feed.
pub open spec fn field_line(label: Seq<char>, value: Seq<char>) -> Seq<char> {
    label + value + seq!['\n']
}

/// The header: a title, the number of pull requests in the batch, and
/// whether the data is complete.
pub open spec fn report_header(count: nat, incomplete_results: bool) -> Seq<char> {
    "=== 每日站会报告数据 ===\n\n## 原始 GitHub PR 数据摘要\n"@ + field_line(
        "- 今日创建的 PR 总数："@,
        decimal(count),
    ) + field_line(
        "- 数据完整性："@,
        if incomplete_results {
            "部分数据"@
        } else {
            "完整数据"@
        },
    ) + seq!['\n']
}

/// What the report says of a day without pull requests.
pub open spec fn no_work_sentence() -> Seq<char> {
    "今天没有创建任何 PR，可能没有代码提交工作完成。\n\n"@
}

/// The heading above the blocks.
pub open spec fn details_heading() -> Seq<char> {
    "## PR 详细信息\n\n"@
}

/// The trailer: what the summarizer is asked to write.
pub open spec fn report_trailer() -> Seq<char> {
    AI_PROMPT@
}

/// The repository as `<owner>/<name>`: the URL without the address of the
/// API in front of it.
pub open spec fn repository_name(repository_url: Seq<char>) -> Seq<char> {
    if has_at(repository_url, 0, "https://api.github.com/repos/"@) {
        repository_url.skip("https://api.github.com/repos/"@.len() as int)
    } else {
        repository_url
    }
}

/// The state of the work: merged is done, closed without a merge is
/// closed, everything else is in progress.
pub open spec fn status_label(pr: PullRequestSummaryView) -> Seq<char> {
    if pr.merged {
        "done"@
    } else if pr.state == "closed"@ {
        "closed"@
    } else {
        "in progress"@
    }
}

/// The task that a pull request refers to.
pub open spec fn pr_reference(pr: PullRequestSummaryView) -> Option<TaskReferenceView> {
    task_reference(combined_text(pr.title, pr.body))
}

/// The project code of a pull request.
pub open spec fn pr_project_code(pr: PullRequestSummaryView) -> Seq<char> {
    resolved_project_code(pr_reference(pr), pr.repository_url)
}

/// The key under which the task of a pull request is tracked.
pub open spec fn pr_task_key(pr: PullRequestSummaryView) -> Option<Seq<char>> {
    match pr_reference(pr) {
        Some(reference) => Some(task_key(pr_project_code(pr), reference.task_id)),
        None => None,
    }
}

/// The line that names the task, where there is one.
pub open spec fn task_line(reference: Option<TaskReferenceView>) -> Seq<char> {
    match reference {
        Some(r) => field_line("- 关联 Taiga："@, task_label(r.task_id)),
        None => Seq::empty(),
    }
}

/// The line that names the project code, where it is not empty.
pub open spec fn project_line(code: Seq<char>) -> Seq<char> {
    if code.len() > 0 {
        field_line("- 项目代号："@, code)
    } else {
        Seq::empty()
    }
}

/// The line with the days in square brackets. A count below one is shown
/// as 1. Where no count could be had, the line shows 1 and says why: the
/// store is unavailable, the stored dates of the task cannot be read, or
/// something else.
pub open spec fn days_line(outcome: Outcome) -> Seq<char> {
    match outcome {
        None => Seq::empty(),
        Some(Ok(days)) => "- 累积天数：["@ + decimal(
            if days < 1 {
                1nat
            } else {
                days as nat
            },
        ) + "]\n"@,
        Some(Err(StandupError::StoreUnavailable)) => "- 累积天数：[1]（任务时长存储不可用）\n"@,
        Some(Err(StandupError::InvalidDate)) => "- 累积天数：[1]（已存日期无法解析）\n"@,
        Some(Err(_)) => "- 累积天数：[1]（无法取得天数）\n"@,
    }
}

/// The line with the work summary, where there is one.
pub open spec fn summary_line(summary: Seq<char>) -> Seq<char> {
    if summary.len() > 0 {
        field_line("- 工作内容摘要："@, summary)
    } else {
        Seq::empty()
    }
}

/// The block of the pull request that stands at place `number`, counted
/// from 1.
pub open spec fn pr_block(pr: PullRequestSummaryView, number: nat, outcome: Outcome) -> Seq<char> {
    field_line("### PR #"@, decimal(number)) + field_line("- 标题："@, pr.title) + field_line(
        "- 仓库："@,
        repository_name(pr.repository_url),
    ) + field_line("- 状态："@, status_label(pr)) + task_line(pr_reference(pr)) + project_line(
        pr_project_code(pr),
    ) + days_line(outcome) + summary_line(work_summary(pr.body)) + field_line(
        "- 创建时间："@,
        pr.created_at,
    ) + field_line("- 链接："@, pr.html_url) + seq!['\n']
}

/// The store after the first `count` pull requests were reported on day
/// `today`: each one that names a task is one observation of its key.
pub open spec fn store_after(
    prs: Seq<PullRequestSummaryView>,
    count: int,
    store: DatabaseView,
    today: int,
) -> DatabaseView
    decreases count,
{
    if count <= 0 {
        store
    } else {
        let before = store_after(prs, count - 1, store, today);
        match pr_task_key(prs[count - 1]) {
            Some(key) => after_observation(before, key, today),
            None => before,
        }
    }
}

/// What the store `store` answers for a pull request.
pub open spec fn outcome_for(pr: PullRequestSummaryView, store: DatabaseView, today: int) -> Outcome {
    match pr_task_key(pr) {
        None => None,
        Some(key) => Some(observation(store, key, today)),
    }
}

/// The blocks of the first `count` pull requests, in their order.
pub open spec fn report_blocks(
    prs: Seq<PullRequestSummaryView>,
    count: int,
    store: DatabaseView,
    today: int,
) -> Seq<char>
    decreases count,
{
    if count <= 0 {
        Seq::empty()
    } else {
        report_blocks(prs, count - 1, store, today) + pr_block(
            prs[count - 1],
            count as nat,
            outcome_for(prs[count - 1], store_after(prs, count - 1, store, today), today),
        )
    }
}

/// What stands between header and trailer: the sentence for a day without
/// pull requests, or the heading and the blocks.
pub open spec fn report_body(
    prs: Seq<PullRequestSummaryView>,
    store: DatabaseView,
    today: int,
) -> Seq<char> {
    if prs.len() == 0 {
        no_work_sentence()
    } else {
        details_heading() + report_blocks(prs, prs.len() as int, store, today)
    }
}

/// The whole report. The header counts the pull requests of the batch.
pub open spec fn report_text(response: SearchResponseView, store: DatabaseView, today: int) -> Seq<
    char,
> {
    report_header(response.items.len(), response.incomplete_results) + report_body(
        response.items,
        store,
        today,
    ) + report_trailer()
}

/// The report on a day without pull requests is the header with a count of
/// 0, the one fixed sentence and the trailer, and the store is left as it
/// was.
pub proof fn lemma_empty_report(response: SearchResponseView, store: DatabaseView, today: int)
    requires
        response.items.len() == 0,
    ensures
        report_text(response, store, today) == report_header(0, response.incomplete_results)
            + no_work_sentence() + report_trailer(),
        store_after(response.items, response.items.len() as int, store, today) == store,
{
}

/// The blocks stand in the order of the pull requests: the report of the
/// first `count + 1` is the report of the first `count` with one more block
/// behind it, whatever tasks the pull requests name.
pub proof fn lemma_blocks_in_order(
    prs: Seq<PullRequestSummaryView>,
    count: int,
    store: DatabaseView,
    today: int,
)
    requires
        0 <= count < prs.len(),
    ensures
        report_blocks(prs, count + 1, store, today) == report_blocks(prs, count, store, today)
            + pr_block(
            prs[count],
            (count + 1) as nat,
            outcome_for(prs[count], store_after(prs, count, store, today), today),
        ),
{
}

/// The instructions that close every report.
pub const AI_PROMPT: &'static str =
    "## AI 处理指引\n请基于上述 GitHub PR 数据，生成符合以下格式的每日站会报告：\n\n格式要求：\n- 有对应 Taiga issue 的：[天数]项目代号#Taiga编号-工作内容\n- 无对应 Taiga issue 的：[天数]工作内容\n- [天数] 是指这项工作到目前为止累积的天数\n\n示例：\n[2]xxxAsk#3-重构登录逻辑\n[1]ktv#15-完成功能开发，准备测试\n[3]学习Flutter和Dart\n\n生成要求\n\n1. 内容应简洁明了，避免冗长描述\n2. 机密项目应避免透露敏感信息\n3. 耗时一小时以下的工作无需汇报\n4. 根据 PR 状态推断工作进度：\n   - done = 工作已完成\n   - in progress = 工作正在进行\n   - closed = 工作可能取消或需要重新开始\n5. 请自动提取项目代号，去除项目代号中无关部分，例如组织名、子模块名等等，例如 XXX-International-Corp/XXXX_flutter 提取为 XXXX，去除了XXX-International-Corp/和_flutter\n6. 项目代号不要全部大写！\n\n请基于上述数据生成今日的站会报告内容。[天数] 请使用每个 PR 的“累积天数”；如果没有，可以标记为 [1] 表示新开始的工作。\n请输出纯文本，不要使用 markdown，不要包含任何 markdown 语法。\n为了避免涉密，请不要输出任何与项目相关的信息，尽量简要描述今天的工作内容就够了。\n";

/// Appends a label, a value and a line feed.
fn push_field(out: &mut Vec<char>, label: &str, value: &Vec<char>)
    ensures
        final(out)@ == old(out)@ + field_line(label@, value@),
{
    push_str(out, label);
    push_all(out, value);
    out.push('\n');
    assert(out@ =~= old(out)@ + field_line(label@, value@));
}

/// Appends a label, a value and a line feed.
fn push_text_field(out: &mut Vec<char>, label: &str, value: &str)
    ensures
        final(out)@ == old(out)@ + field_line(label@, value@),
{
    let chars = chars_of(value);
    push_field(out, label, &chars);
}

fn push_header(out: &mut Vec<char>, count: usize, incomplete_results: bool)
    ensures
        final(out)@ == old(out)@ + report_header(count as nat, incomplete_results),
{
    let ghost before = out@;
    push_str(out, "=== 每日站会报告数据 ===\n\n## 原始 GitHub PR 数据摘要\n");
    let digits = decimal_exec(count as u64);
    push_field(out, "- 今日创建的 PR 总数：", &digits);
    if incomplete_results {
        push_text_field(out, "- 数据完整性：", "部分数据");
    } else {
        push_text_field(out, "- 数据完整性：", "完整数据");
    }
    out.push('\n');
    assert(out@ =~= before + report_header(count as nat, incomplete_results));
}

fn repository_name_exec(repository_url: &str) -> (name: Vec<char>)
    ensures
        name@ == repository_name(repository_url@),
{
    let chars = chars_of(repository_url);
    let prefix = chars_of("https://api.github.com/repos/");
    if has_at_exec(&chars, 0, &prefix) {
        slice_of(&chars, prefix.len(), chars.len())
    } else {
        chars
    }
}

fn status_label_exec(pr: &PullRequestItem) -> (label: &'static str)
    ensures
        label@ == status_label(pr@),
{
    if pr.pull_request.merged_at.is_some() {
        "done"
    } else if same_text(pr.state.as_str(), "closed") {
        "closed"
    } else {
        "in progress"
    }
}

fn push_days_line(out: &mut Vec<char>, outcome: &Option<Result<i32, StandupError>>)
    ensures
        final(out)@ == old(out)@ + days_line(outcome_view(*outcome)),
{
    let ghost before = out@;
    match outcome {
        None => {
            assert(out@ =~= before + Seq::<char>::empty());
        },
        Some(Ok(days)) => {
            let shown: u64 = if *days < 1 {
                1
            } else {
                *days as u64
            };
            let digits = decimal_exec(shown);
            push_str(out, "- 累积天数：[");
            push_all(out, &digits);
            push_str(out, "]\n");
            assert(out@ =~= before + ("- 累积天数：["@ + digits@ + "]\n"@));
        },
        Some(Err(StandupError::StoreUnavailable)) => {
            push_str(out, "- 累积天数：[1]（任务时长存储不可用）\n");
        },
        Some(Err(StandupError::InvalidDate)) => {
            push_str(out, "- 累积天数：[1]（已存日期无法解析）\n");
        },
        Some(Err(_)) => {
            push_str(out, "- 累积天数：[1]（无法取得天数）\n");
        },
    }
}

/// The body of a pull request, empty where it has none.
fn body_of(pr: &PullRequestItem) -> (body: &str)
    ensures
        body@ == pr@.body,
{
    proof {
        reveal_strlit("");
        assert(""@ =~= Seq::<char>::empty());
    }
    match &pr.body {
        Some(body) => body.as_str(),
        None => "",
    }
}

/// Appends the block of a pull request whose reference and project code
/// have been worked out.
fn push_block(
    out: &mut Vec<char>,
    pr: &PullRequestItem,
    number: u64,
    reference: &Option<TaskReference>,
    code: &str,
    outcome: &Option<Result<i32, StandupError>>,
)
    requires
        pr_reference(pr@) == match *reference {
            Some(r) => Some(r@),
            None => None,
        },
        code@ == pr_project_code(pr@),
    ensures
        final(out)@ == old(out)@ + pr_block(pr@, number as nat, outcome_view(*outcome)),
{
    let ghost before = out@;
    let mut block: Vec<char> = Vec::new();
    let digits = decimal_exec(number);
    push_field(&mut block, "### PR #", &digits);
    push_text_field(&mut block, "- 标题：", pr.title.as_str());
    let repository = repository_name_exec(pr.repository_url.as_str());
    push_field(&mut block, "- 仓库：", &repository);
    push_text_field(&mut block, "- 状态：", status_label_exec(pr));
    let ghost fixed = block@;
    match reference {
        Some(r) => {
            let label = r.label();
            push_text_field(&mut block, "- 关联 Taiga：", label.as_str());
        },
        None => {},
    }
    assert(block@ =~= fixed + task_line(pr_reference(pr@)));
    let ghost with_task = block@;
    if code.unicode_len() > 0 {
        push_text_field(&mut block, "- 项目代号：", code);
    }
    assert(block@ =~= with_task + project_line(pr_project_code(pr@)));
    push_days_line(&mut block, outcome);
    let ghost with_days = block@;
    let summary = extract_work_summary(body_of(pr));
    if summary.as_str().unicode_len() > 0 {
        push_text_field(&mut block, "- 工作内容摘要：", summary.as_str());
    }
    assert(block@ =~= with_days + summary_line(work_summary(pr@.body)));
    push_text_field(&mut block, "- 创建时间：", pr.created_at.as_str());
    push_text_field(&mut block, "- 链接：", pr.html_url.as_str());
    block.push('\n');
    assert(block@ =~= pr_block(pr@, number as nat, outcome_view(*outcome)));
    push_all(out, &block);
}

/// The reference and the project code of a pull request.
fn task_of(pr: &PullRequestItem) -> (found: (Option<TaskReference>, String))
    ensures
        pr_reference(pr@) == match found.0 {
            Some(r) => Some(r@),
            None => None,
        },
        found.1@ == pr_project_code(pr@),
{
    let reference = extract_taiga_info(pr.title.as_str(), body_of(pr));
    let code = resolve_project_code(&reference, pr.repository_url.as_str());
    (reference, code)
}

/// Writes the block of one pull request, given what the duration store
/// answered for its task.
///
/// `number` is the place of the pull request in the report, counted from
/// 1. `outcome` is `None` where no observation was made, else the days or
/// the failure of the store.
pub fn format_pr_block(
    pr: &PullRequestItem,
    number: u64,
    outcome: Option<Result<i32, StandupError>>,
) -> (block: String)
    ensures
        block@ == pr_block(pr@, number as nat, outcome_view(outcome)),
{
    let (reference, code) = task_of(pr);
    let mut out: Vec<char> = Vec::new();
    push_block(&mut out, pr, number, &reference, code.as_str(), &outcome);
    assert(out@ =~= pr_block(pr@, number as nat, outcome_view(outcome)));
    string_of(&out)
}

/// The key under which the task of a pull request is tracked, if the pull
/// request names a task.
pub fn task_key_of(pr: &PullRequestItem) -> (key: Option<String>)
    ensures
        match key {
            Some(k) => pr_task_key(pr@) == Some(k@),
            None => pr_task_key(pr@) is None,
        },
{
    let (reference, code) = task_of(pr);
    match reference {
        Some(r) => Some(r.key_in(code.as_str())),
        None => None,
    }
}

/// Records the task of a pull request, if it names one, and appends the
/// block of the pull request with what the store answered.
fn push_reported(
    out: &mut Vec<char>,
    store: &mut DatabaseClient,
    pr: &PullRequestItem,
    number: u64,
    today: CalendarDate,
)
    requires
        old(store).wf(),
        today.valid(),
    ensures
        final(store).wf(),
        final(out)@ == old(out)@ + pr_block(
            pr@,
            number as nat,
            outcome_for(pr@, old(store)@, today@),
        ),
        final(store)@ == match pr_task_key(pr@) {
            Some(key) => after_observation(old(store)@, key, today@),
            None => old(store)@,
        },
{
    let (reference, code) = task_of(pr);
    let outcome = match &reference {
        Some(r) => {
            let key = r.key_in(code.as_str());
            Some(store.record_taiga_task(key.as_str(), today))
        },
        None => None,
    };
    push_block(out, pr, number, &reference, code.as_str(), &outcome);
}

/// The instructions that close every report.
pub fn generate_ai_prompt() -> (prompt: String)
    ensures
        prompt@ == report_trailer(),
{
    AI_PROMPT.to_owned()
}

/// The client's settings for GitHub.
#[derive(Debug)]
pub struct GitHubApiClient {
    token: Option<String>,
}

impl GitHubApiClient {
    /// The access token, if one was set.
    pub closed spec fn token_view(&self) -> Option<Seq<char>> {
        match self.token {
            Some(token) => Some(token@),
            None => None,
        }
    }

    /// A client without an access token.
    pub fn new() -> (client: GitHubApiClient)
        ensures
            client.token_view() is None,
    {
        GitHubApiClient { token: None }
    }

    /// The client with `token` as its access token.
    pub fn with_token(self, token: String) -> (client: GitHubApiClient)
        ensures
            client.token_view() == Some(token@),
    {
        GitHubApiClient { token: Some(token) }
    }

    /// The access token, if one was set.
    pub fn token(&self) -> (token: Option<&str>)
        ensures
            match token {
                Some(t) => self.token_view() == Some(t@),
                None => self.token_view() is None,
            },
    {
        match &self.token {
            Some(token) => Some(token.as_str()),
            None => None,
        }
    }

    /// Writes the report on the pull requests of `response`.
    ///
    /// The header shows how many pull requests the batch holds. Every pull
    /// request gets one block, in the order given, also where several name
    /// the same task. Each one that names a task is recorded in `store` as
    /// seen `today`, and its block shows the days that the store returned.
    /// Where the store cannot give the days of a task, its block shows 1
    /// and says why, and the report is complete all the same.
    pub fn generate_standup_report(
        &self,
        response: &GitHubSearchResponse,
        store: &mut DatabaseClient,
        today: CalendarDate,
    ) -> (report: String)
        requires
            old(store).wf(),
            today.valid(),
        ensures
            final(store).wf(),
            report@ == report_text(response@, old(store)@, today@),
            final(store)@ == store_after(
                response@.items,
                response@.items.len() as int,
                old(store)@,
                today@,
            ),
    {
        let ghost prs = response@.items;
        let ghost start = store@;
        let mut out: Vec<char> = Vec::new();
        push_header(&mut out, response.items.len(), response.incomplete_results);
        let ghost header = out@;
        if response.items.len() == 0 {
            push_str(&mut out, "今天没有创建任何 PR，可能没有代码提交工作完成。\n\n");
        } else {
            push_str(&mut out, "## PR 详细信息\n\n");
            let ghost opened = out@;
            let mut i: usize = 0;
            while i < response.items.len()
                invariant
                    store.wf(),
                    today.valid(),
                    prs == response@.items,
                    i <= response.items@.len(),
                    out@ == opened + report_blocks(prs, i as int, start, today@),
                    store@ == store_after(prs, i as int, start, today@),
                decreases response.items.len() - i,
            {
                let ghost blocks = report_blocks(prs, i as int, start, today@);
                let ghost before = store@;
                assert(response.items@[i as int]@ == prs[i as int]);
                push_reported(&mut out, store, &response.items[i], (i + 1) as u64, today);
                proof {
                    let block = pr_block(
                        prs[i as int],
                        (i + 1) as nat,
                        outcome_for(prs[i as int], before, today@),
                    );
                    assert(report_blocks(prs, i + 1, start, today@) == blocks + block);
                    assert(out@ =~= opened + (blocks + block));
                }
                i += 1;
            }
            assert(out@ =~= header + report_body(prs, start, today@));
        }
        push_str(&mut out, AI_PROMPT);
        assert(out@ =~= report_text(response@, start, today@));
        string_of(&out)
    }
}

} // verus!
