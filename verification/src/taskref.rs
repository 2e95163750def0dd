//! Task references in free text, and the project code that goes with them.
//!
//! Two shapes are recognised. A tracker link reads
//! `https://<host>/project/<slug>/task/<digits>`, where host and slug are
//! runs of characters that are neither whitespace nor `/`. A bare reference
//! reads `#<digits>`. In both, `<digits>` is the longest run of ASCII digits
//! at that place. Where a text holds several, the first one in reading order
//! is taken, and a tracker link anywhere in the text wins over a bare
//! reference.

use vstd::prelude::*;

use crate::text::{
    chars_of, digits_end, digits_end_exec, find_from, find_from_exec, has_at, has_at_exec,
    is_digit, is_whitespace, is_whitespace_char, lemma_find_from, lemma_run_end_bounds,
    lemma_run_end_is, push_all, push_str, run_end, slice_of, string_of,
};

verus! {

/// A character that can stand inside a host name or a project slug.
pub open spec fn is_segment_char(c: char) -> bool {
    !is_whitespace(c) && c != '/'
}

/// The end of the run of segment characters that starts at `from`.
pub open spec fn segment_end(s: Seq<char>, from: int) -> int {
    run_end(s, from, |c: char| is_segment_char(c))
}

/// The end of the run of characters other than `/` that starts at `from`.
pub open spec fn slash_free_end(s: Seq<char>, from: int) -> int {
    run_end(s, from, |c: char| c != '/')
}

/// How a tracker link begins.
pub open spec fn scheme() -> Seq<char> {
    "https://"@
}

/// What stands between host and project slug.
pub open spec fn project_marker() -> Seq<char> {
    "/project/"@
}

/// What stands between project slug and task number.
pub open spec fn task_marker() -> Seq<char> {
    "/task/"@
}

/// The slug and the digits of the tracker link that starts at position `i`
/// of `s`, if one starts there.
pub open spec fn tracker_match_at(s: Seq<char>, i: int) -> Option<(Seq<char>, Seq<char>)> {
    let host_start = i + scheme().len();
    let host_end = segment_end(s, host_start);
    let slug_start = host_end + project_marker().len();
    let slug_end = segment_end(s, slug_start);
    let digits_start = slug_end + task_marker().len();
    let digits_stop = digits_end(s, digits_start);
    if has_at(s, i, scheme()) && host_start < host_end && has_at(s, host_end, project_marker())
        && slug_start < slug_end && has_at(s, slug_end, task_marker()) && digits_start
        < digits_stop {
        Some((s.subrange(slug_start, slug_end), s.subrange(digits_start, digits_stop)))
    } else {
        None
    }
}

/// The first tracker link that starts at or after position `from`.
pub open spec fn first_tracker_match(s: Seq<char>, from: int) -> Option<(Seq<char>, Seq<char>)>
    decreases s.len() - from,
{
    if 0 <= from < s.len() {
        match tracker_match_at(s, from) {
            Some(found) => Some(found),
            None => first_tracker_match(s, from + 1),
        }
    } else {
        None
    }
}

/// The digits of the bare reference that starts at position `i` of `s`, if
/// one starts there.
pub open spec fn hash_match_at(s: Seq<char>, i: int) -> Option<Seq<char>> {
    if 0 <= i < s.len() && s[i] == '#' && i + 1 < digits_end(s, i + 1) {
        Some(s.subrange(i + 1, digits_end(s, i + 1)))
    } else {
        None
    }
}

/// The first bare reference that starts at or after position `from`.
pub open spec fn first_hash_match(s: Seq<char>, from: int) -> Option<Seq<char>>
    decreases s.len() - from,
{
    if 0 <= from < s.len() {
        match hash_match_at(s, from) {
            Some(found) => Some(found),
            None => first_hash_match(s, from + 1),
        }
    } else {
        None
    }
}

/// What a task reference holds, as plain sequences.
pub struct TaskReferenceView {
    /// The project slug, where the reference came from a tracker link.
    pub project_slug: Option<Seq<char>>,
    /// The digits of the task number.
    pub task_id: Seq<char>,
}

/// A reference to a task, found in the text of a pull request.
#[derive(Debug)]
pub struct TaskReference {
    /// The project slug, where the reference came from a tracker link. A
    /// bare `#<digits>` reference binds no project.
    pub project_slug: Option<String>,
    /// The digits of the task number.
    pub task_id: String,
}

impl View for TaskReference {
    type V = TaskReferenceView;

    open spec fn view(&self) -> TaskReferenceView {
        TaskReferenceView {
            project_slug: match self.project_slug {
                Some(slug) => Some(slug@),
                None => None,
            },
            task_id: self.task_id@,
        }
    }
}

/// The task reference that `text` holds: the first tracker link, else the
/// first bare reference, else nothing.
pub open spec fn task_reference(text: Seq<char>) -> Option<TaskReferenceView> {
    match first_tracker_match(text, 0) {
        Some((slug, digits)) => Some(
            TaskReferenceView { project_slug: Some(slug), task_id: digits },
        ),
        None => match first_hash_match(text, 0) {
            Some(digits) => Some(TaskReferenceView { project_slug: None, task_id: digits }),
            None => None,
        },
    }
}

/// Title and body of a pull request as one text, the title first.
pub open spec fn combined_text(title: Seq<char>, body: Seq<char>) -> Seq<char> {
    title + seq![' '] + body
}

/// A task key: project, `#`, task number.
pub open spec fn task_key(project: Seq<char>, task_id: Seq<char>) -> Seq<char> {
    project + seq!['#'] + task_id
}

/// The label under which a reference is shown: `#` and the task number.
pub open spec fn task_label(task_id: Seq<char>) -> Seq<char> {
    seq!['#'] + task_id
}

/// The task key that the first tracker link in `url` names.
pub open spec fn task_key_from_url(url: Seq<char>) -> Option<Seq<char>> {
    match first_tracker_match(url, 0) {
        Some((slug, digits)) => Some(task_key(slug, digits)),
        None => None,
    }
}

/// Where the last path segment of `s` starts: behind the last `/`, or at 0.
pub open spec fn last_segment_start(s: Seq<char>) -> int
    decreases s.len(),
{
    if s.len() == 0 {
        0
    } else if s.last() == '/' {
        s.len() as int
    } else {
        last_segment_start(s.drop_last())
    }
}

/// The project code of a repository URL: its last path segment, as written.
pub open spec fn project_code_from_repo(repo_url: Seq<char>) -> Seq<char> {
    repo_url.subrange(last_segment_start(repo_url), repo_url.len() as int)
}

/// The project code of a tracker URL: what stands between the first
/// `/project/` and the next `/`, as written; empty where there is no
/// `/project/`.
pub open spec fn project_code_from_tracker(url: Seq<char>) -> Seq<char> {
    match find_from(url, project_marker(), 0) {
        Some(i) => {
            let start = i + project_marker().len();
            url.subrange(start, slash_free_end(url, start))
        },
        None => Seq::<char>::empty(),
    }
}

/// The project code of a pull request: the tracker's slug where the
/// reference binds one, else the code of the repository.
pub open spec fn resolved_project_code(
    reference: Option<TaskReferenceView>,
    repo_url: Seq<char>,
) -> Seq<char> {
    match reference {
        Some(TaskReferenceView { project_slug: Some(slug), .. }) => slug,
        _ => project_code_from_repo(repo_url),
    }
}

/// A tracker link found at some position holds a slug and digits that are
/// not empty, a slug without `/` or whitespace, and nothing but digits.
pub proof fn lemma_tracker_match_shape(s: Seq<char>, i: int)
    requires
        0 <= i,
    ensures
        tracker_match_at(s, i) matches Some((slug, digits)) ==> {
            &&& slug.len() > 0
            &&& digits.len() > 0
            &&& forall|k: int| 0 <= k < slug.len() ==> is_segment_char(#[trigger] slug[k])
            &&& forall|k: int| 0 <= k < digits.len() ==> is_digit(#[trigger] digits[k])
        },
{
    if tracker_match_at(s, i) is Some {
        let host_start = i + scheme().len();
        let host_end = segment_end(s, host_start);
        let slug_start = host_end + project_marker().len();
        let slug_end = segment_end(s, slug_start);
        let digits_start = slug_end + task_marker().len();
        lemma_run_end_bounds(s, slug_start, |c: char| is_segment_char(c));
        lemma_run_end_bounds(s, digits_start, |c: char| is_digit(c));
    }
}

/// The first tracker link is a link at some position, and no position
/// before it starts one.
pub proof fn lemma_first_tracker_match(s: Seq<char>, from: int)
    requires
        0 <= from,
    ensures
        match first_tracker_match(s, from) {
            Some(found) => exists|i: int|
                from <= i < s.len() && tracker_match_at(s, i) == Some(found) && forall|j: int|
                    from <= j < i ==> tracker_match_at(s, j) is None,
            None => forall|j: int| from <= j < s.len() ==> tracker_match_at(s, j) is None,
        },
    decreases s.len() - from,
{
    if from < s.len() {
        match tracker_match_at(s, from) {
            Some(found) => {
                assert(from <= from < s.len() && tracker_match_at(s, from) == Some(found));
            },
            None => {
                lemma_first_tracker_match(s, from + 1);
                match first_tracker_match(s, from + 1) {
                    Some(found) => {
                        let i = choose|i: int|
                            from + 1 <= i < s.len() && tracker_match_at(s, i) == Some(found)
                                && forall|j: int|
                                from + 1 <= j < i ==> tracker_match_at(s, j) is None;
                        assert(from <= i < s.len() && tracker_match_at(s, i) == Some(found)
                            && forall|j: int| from <= j < i ==> tracker_match_at(s, j) is None);
                    },
                    None => {},
                }
            },
        }
    }
}

/// The first bare reference is a reference at some position, and no
/// position before it starts one.
pub proof fn lemma_first_hash_match(s: Seq<char>, from: int)
    requires
        0 <= from,
    ensures
        match first_hash_match(s, from) {
            Some(found) => exists|i: int|
                from <= i < s.len() && hash_match_at(s, i) == Some(found) && forall|j: int|
                    from <= j < i ==> hash_match_at(s, j) is None,
            None => forall|j: int| from <= j < s.len() ==> hash_match_at(s, j) is None,
        },
    decreases s.len() - from,
{
    if from < s.len() {
        match hash_match_at(s, from) {
            Some(found) => {
                assert(from <= from < s.len() && hash_match_at(s, from) == Some(found));
            },
            None => {
                lemma_first_hash_match(s, from + 1);
                match first_hash_match(s, from + 1) {
                    Some(found) => {
                        let i = choose|i: int|
                            from + 1 <= i < s.len() && hash_match_at(s, i) == Some(found)
                                && forall|j: int|
                                from + 1 <= j < i ==> hash_match_at(s, j) is None;
                        assert(from <= i < s.len() && hash_match_at(s, i) == Some(found)
                            && forall|j: int| from <= j < i ==> hash_match_at(s, j) is None);
                    },
                    None => {},
                }
            },
        }
    }
}

/// The end of the run of segment characters that starts at `from`.
fn segment_end_exec(s: &Vec<char>, from: usize) -> (end: usize)
    requires
        from <= s.len(),
    ensures
        end == segment_end(s@, from as int),
        from <= end <= s.len(),
{
    let mut i: usize = from;
    while i < s.len() && !is_whitespace_char(s[i]) && s[i] != '/'
        invariant
            from <= i <= s.len(),
            forall|k: int| from <= k < i ==> is_segment_char(#[trigger] s@[k]),
        decreases s.len() - i,
    {
        i += 1;
    }
    proof {
        lemma_run_end_is(s@, from as int, i as int, |c: char| is_segment_char(c));
    }
    i
}

/// The end of the run of characters other than `/` that starts at `from`.
fn slash_free_end_exec(s: &Vec<char>, from: usize) -> (end: usize)
    requires
        from <= s.len(),
    ensures
        end == slash_free_end(s@, from as int),
        from <= end <= s.len(),
{
    let mut i: usize = from;
    while i < s.len() && s[i] != '/'
        invariant
            from <= i <= s.len(),
            forall|k: int| from <= k < i ==> #[trigger] s@[k] != '/',
        decreases s.len() - i,
    {
        i += 1;
    }
    proof {
        lemma_run_end_is(s@, from as int, i as int, |c: char| c != '/');
    }
    i
}

/// The three fixed parts of a tracker link, as characters.
struct LinkParts {
    scheme: Vec<char>,
    project: Vec<char>,
    task: Vec<char>,
}

impl LinkParts {
    spec fn wf(&self) -> bool {
        &&& self.scheme@ == scheme()
        &&& self.project@ == project_marker()
        &&& self.task@ == task_marker()
    }

    fn new() -> (parts: LinkParts)
        ensures
            parts.wf(),
    {
        LinkParts {
            scheme: chars_of("https://"),
            project: chars_of("/project/"),
            task: chars_of("/task/"),
        }
    }
}

/// Slug and digits of the tracker link that starts at `i`, as positions.
fn tracker_match_at_exec(s: &Vec<char>, i: usize, parts: &LinkParts) -> (found: Option<
    (usize, usize, usize, usize),
>)
    requires
        parts.wf(),
    ensures
        match found {
            Some((slug_start, slug_end, digits_start, digits_stop)) => {
                &&& slug_start <= slug_end <= digits_start <= digits_stop <= s.len()
                &&& tracker_match_at(s@, i as int) == Some(
                    (
                        s@.subrange(slug_start as int, slug_end as int),
                        s@.subrange(digits_start as int, digits_stop as int),
                    ),
                )
            },
            None => tracker_match_at(s@, i as int) is None,
        },
{
    if !has_at_exec(s, i, &parts.scheme) {
        return None;
    }
    let len = s.len();
    assert(i + parts.scheme@.len() <= len);
    let host_start = i + parts.scheme.len();
    let host_end = segment_end_exec(s, host_start);
    if host_end == host_start || !has_at_exec(s, host_end, &parts.project) {
        return None;
    }
    let slug_start = host_end + parts.project.len();
    let slug_end = segment_end_exec(s, slug_start);
    if slug_end == slug_start || !has_at_exec(s, slug_end, &parts.task) {
        return None;
    }
    let digits_start = slug_end + parts.task.len();
    let digits_stop = digits_end_exec(s, digits_start);
    if digits_stop == digits_start {
        return None;
    }
    Some((slug_start, slug_end, digits_start, digits_stop))
}

/// Slug and digits of the first tracker link in `s`.
fn first_tracker_match_exec(s: &Vec<char>) -> (found: Option<(Vec<char>, Vec<char>)>)
    ensures
        match found {
            Some((slug, digits)) => first_tracker_match(s@, 0) == Some((slug@, digits@)),
            None => first_tracker_match(s@, 0) is None,
        },
{
    let parts = LinkParts::new();
    let mut i: usize = 0;
    while i < s.len()
        invariant
            parts.wf(),
            i <= s.len(),
            first_tracker_match(s@, 0) == first_tracker_match(s@, i as int),
        decreases s.len() - i,
    {
        match tracker_match_at_exec(s, i, &parts) {
            Some((slug_start, slug_end, digits_start, digits_stop)) => {
                let slug = slice_of(s, slug_start, slug_end);
                let digits = slice_of(s, digits_start, digits_stop);
                return Some((slug, digits));
            },
            None => {},
        }
        i += 1;
    }
    None
}

/// The digits of the first bare reference in `s`.
fn first_hash_match_exec(s: &Vec<char>) -> (found: Option<Vec<char>>)
    ensures
        match found {
            Some(digits) => first_hash_match(s@, 0) == Some(digits@),
            None => first_hash_match(s@, 0) is None,
        },
{
    let mut i: usize = 0;
    while i < s.len()
        invariant
            i <= s.len(),
            first_hash_match(s@, 0) == first_hash_match(s@, i as int),
        decreases s.len() - i,
    {
        if s[i] == '#' {
            let stop = digits_end_exec(s, i + 1);
            if stop > i + 1 {
                return Some(slice_of(s, i + 1, stop));
            }
        }
        i += 1;
    }
    None
}

/// The task reference that the characters `chars` hold.
fn task_reference_in(chars: &Vec<char>) -> (found: Option<TaskReference>)
    ensures
        match found {
            Some(reference) => task_reference(chars@) == Some(reference@),
            None => task_reference(chars@) is None,
        },
{
    match first_tracker_match_exec(chars) {
        Some((slug, digits)) => Some(
            TaskReference { project_slug: Some(string_of(&slug)), task_id: string_of(&digits) },
        ),
        None => match first_hash_match_exec(chars) {
            Some(digits) => Some(TaskReference { project_slug: None, task_id: string_of(&digits) }),
            None => None,
        },
    }
}

/// Finds the task that a text refers to.
///
/// A tracker link is looked for first, then a bare `#<digits>`; of several
/// the first in the text counts. `None` means that the text names no task.
pub fn extract_task_reference(text: &str) -> (found: Option<TaskReference>)
    ensures
        match found {
            Some(reference) => task_reference(text@) == Some(reference@),
            None => task_reference(text@) is None,
        },
{
    let chars = chars_of(text);
    task_reference_in(&chars)
}

/// Finds the task that a pull request refers to, in its title or, after
/// that, in its body.
pub fn extract_taiga_info(title: &str, body: &str) -> (found: Option<TaskReference>)
    ensures
        match found {
            Some(reference) => task_reference(combined_text(title@, body@)) == Some(reference@),
            None => task_reference(combined_text(title@, body@)) is None,
        },
{
    let mut chars = chars_of(title);
    chars.push(' ');
    push_str(&mut chars, body);
    assert(chars@ =~= combined_text(title@, body@));
    task_reference_in(&chars)
}

/// Reads the task key `<slug>#<digits>` off the first tracker link in `url`.
pub fn extract_task_key_from_url(url: &str) -> (key: Option<String>)
    ensures
        match key {
            Some(k) => task_key_from_url(url@) == Some(k@),
            None => task_key_from_url(url@) is None,
        },
{
    let chars = chars_of(url);
    match first_tracker_match_exec(&chars) {
        Some((slug, digits)) => {
            let mut key = slug;
            key.push('#');
            push_all(&mut key, &digits);
            Some(string_of(&key))
        },
        None => None,
    }
}

/// The project code of a repository URL: its last path segment, with the
/// casing it has.
pub fn extract_project_code(repo_url: &str) -> (code: String)
    ensures
        code@ == project_code_from_repo(repo_url@),
{
    let chars = chars_of(repo_url);
    let mut start: usize = chars.len();
    assert(chars@.take(start as int) =~= chars@);
    while start > 0 && chars[start - 1] != '/'
        invariant
            start <= chars.len(),
            last_segment_start(chars@) == last_segment_start(chars@.take(start as int)),
        decreases start,
    {
        proof {
            let head = chars@.take(start as int);
            assert(head.last() == chars@[start - 1]);
            assert(head.drop_last() =~= chars@.take(start - 1));
        }
        start -= 1;
    }
    proof {
        let head = chars@.take(start as int);
        if start > 0 {
            assert(head.last() == chars@[start - 1]);
        }
        assert(last_segment_start(head) == start);
    }
    let code = slice_of(&chars, start, chars.len());
    string_of(&code)
}

/// The project code of a tracker URL: the slug behind `/project/`, cut at
/// the next `/`.
pub fn extract_project_code_from_taiga(taiga_url: &str) -> (code: String)
    ensures
        code@ == project_code_from_tracker(taiga_url@),
{
    let chars = chars_of(taiga_url);
    let marker = chars_of("/project/");
    match find_from_exec(&chars, &marker, 0) {
        Some(i) => {
            proof {
                lemma_find_from(chars@, marker@, 0);
            }
            let len = chars.len();
            assert(i + marker@.len() <= len);
            let start = i + marker.len();
            let end = slash_free_end_exec(&chars, start);
            let code = slice_of(&chars, start, end);
            string_of(&code)
        },
        None => String::new(),
    }
}

/// The project code of a pull request. The tracker is the authority on
/// project names, so a slug bound by the reference wins over the
/// repository's name.
pub fn resolve_project_code(reference: &Option<TaskReference>, repo_url: &str) -> (code: String)
    ensures
        code@ == resolved_project_code(
            match *reference {
                Some(r) => Some(r@),
                None => None,
            },
            repo_url@,
        ),
{
    match reference {
        Some(TaskReference { project_slug: Some(slug), .. }) => slug.clone(),
        _ => extract_project_code(repo_url),
    }
}

impl TaskReference {
    /// The label under which the reference is shown: `#` and the digits.
    pub fn label(&self) -> (label: String)
        ensures
            label@ == task_label(self@.task_id),
    {
        let mut chars: Vec<char> = Vec::new();
        chars.push('#');
        push_str(&mut chars, self.task_id.as_str());
        string_of(&chars)
    }

    /// The task key that the reference names together with `project`.
    pub fn key_in(&self, project: &str) -> (key: String)
        ensures
            key@ == task_key(project@, self@.task_id),
    {
        let mut chars = chars_of(project);
        chars.push('#');
        push_str(&mut chars, self.task_id.as_str());
        string_of(&chars)
    }
}

} // verus!
