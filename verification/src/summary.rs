//! A one-line excerpt of what a pull request did, taken from its body.
//!
//! The body is read line by line. A line that holds a heading keyword
//! announces the excerpt: the line right after it is taken where, trimmed,
//! it is not empty and starts neither a heading (`#`) nor a list item (`-`).
//! Where no heading leads to an excerpt, the first line is taken that,
//! trimmed, has more than ten characters and starts neither a heading, nor
//! a code fence, nor a link. The excerpt is cut to fifty characters, with
//! three dots where something was cut off. Keywords are matched without
//! regard to the case of ASCII letters.

use vstd::prelude::*;

use crate::text::{
    chars_of, contains, contains_exec, has_at, has_at_exec, split_lines, split_lines_exec,
    string_of, to_ascii_lower, to_ascii_lower_exec, trim, trim_exec, truncate_with_ellipsis,
    truncate_with_ellipsis_exec,
};

verus! {

/// The most characters that an excerpt keeps.
pub const SUMMARY_LIMIT: usize = 50;

/// A fallback line must be longer than this many characters.
pub const MIN_FALLBACK_LENGTH: usize = 10;

/// The line holds one of the heading keywords.
pub open spec fn has_heading_keyword(line: Seq<char>) -> bool {
    let lower = to_ascii_lower(line);
    ||| contains(lower, "summary"@)
    ||| contains(lower, "main changes"@)
    ||| contains(lower, "description"@)
    ||| contains(lower, "简介"@)
    ||| contains(lower, "主要改动"@)
    ||| contains(lower, "变更内容"@)
}

/// A trimmed line that can serve as the excerpt announced by a heading.
pub open spec fn is_announced_excerpt(line: Seq<char>) -> bool {
    line.len() > 0 && line[0] != '#' && line[0] != '-'
}

/// A trimmed line that can serve as the excerpt where no heading helps.
pub open spec fn is_fallback_excerpt(line: Seq<char>) -> bool {
    &&& line.len() > MIN_FALLBACK_LENGTH
    &&& line[0] != '#'
    &&& !has_at(line, 0, "```"@)
    &&& !has_at(line, 0, "http"@)
}

/// The excerpt announced by the first heading at or after line `from` whose
/// next line qualifies.
pub open spec fn announced_excerpt(lines: Seq<Seq<char>>, from: int) -> Option<Seq<char>>
    decreases lines.len() - from,
{
    if 0 <= from && from + 1 < lines.len() {
        if has_heading_keyword(lines[from]) && is_announced_excerpt(trim(lines[from + 1])) {
            Some(trim(lines[from + 1]))
        } else {
            announced_excerpt(lines, from + 1)
        }
    } else {
        None
    }
}

/// The first line at or after line `from` that qualifies as a fallback.
pub open spec fn fallback_excerpt(lines: Seq<Seq<char>>, from: int) -> Option<Seq<char>>
    decreases lines.len() - from,
{
    if 0 <= from < lines.len() {
        if is_fallback_excerpt(trim(lines[from])) {
            Some(trim(lines[from]))
        } else {
            fallback_excerpt(lines, from + 1)
        }
    } else {
        None
    }
}

/// The work summary of a pull-request body; empty where nothing qualifies.
pub open spec fn work_summary(body: Seq<char>) -> Seq<char> {
    let lines = split_lines(body);
    match announced_excerpt(lines, 0) {
        Some(excerpt) => truncate_with_ellipsis(excerpt, SUMMARY_LIMIT as nat),
        None => match fallback_excerpt(lines, 0) {
            Some(excerpt) => truncate_with_ellipsis(excerpt, SUMMARY_LIMIT as nat),
            None => Seq::<char>::empty(),
        },
    }
}

/// A summary never has more than fifty characters and three dots.
pub proof fn lemma_work_summary_bounded(body: Seq<char>)
    ensures
        work_summary(body).len() <= SUMMARY_LIMIT + 3,
{
}

/// The fixed texts that the extractor looks for, as characters.
struct Markers {
    summary: Vec<char>,
    main_changes: Vec<char>,
    description: Vec<char>,
    introduction: Vec<char>,
    major_changes: Vec<char>,
    changed_content: Vec<char>,
    fence: Vec<char>,
    link: Vec<char>,
}

impl Markers {
    spec fn wf(&self) -> bool {
        &&& self.summary@ == "summary"@
        &&& self.main_changes@ == "main changes"@
        &&& self.description@ == "description"@
        &&& self.introduction@ == "简介"@
        &&& self.major_changes@ == "主要改动"@
        &&& self.changed_content@ == "变更内容"@
        &&& self.fence@ == "```"@
        &&& self.link@ == "http"@
    }

    fn new() -> (markers: Markers)
        ensures
            markers.wf(),
    {
        Markers {
            summary: chars_of("summary"),
            main_changes: chars_of("main changes"),
            description: chars_of("description"),
            introduction: chars_of("简介"),
            major_changes: chars_of("主要改动"),
            changed_content: chars_of("变更内容"),
            fence: chars_of("```"),
            link: chars_of("http"),
        }
    }
}

fn has_heading_keyword_exec(line: &Vec<char>, markers: &Markers) -> (b: bool)
    requires
        markers.wf(),
    ensures
        b == has_heading_keyword(line@),
{
    let lower = to_ascii_lower_exec(line);
    contains_exec(&lower, &markers.summary) || contains_exec(&lower, &markers.main_changes)
        || contains_exec(&lower, &markers.description) || contains_exec(
        &lower,
        &markers.introduction,
    ) || contains_exec(&lower, &markers.major_changes) || contains_exec(
        &lower,
        &markers.changed_content,
    )
}

fn is_announced_excerpt_exec(line: &Vec<char>) -> (b: bool)
    ensures
        b == is_announced_excerpt(line@),
{
    line.len() > 0 && line[0] != '#' && line[0] != '-'
}

fn is_fallback_excerpt_exec(line: &Vec<char>, markers: &Markers) -> (b: bool)
    requires
        markers.wf(),
    ensures
        b == is_fallback_excerpt(line@),
{
    line.len() > MIN_FALLBACK_LENGTH && line[0] != '#' && !has_at_exec(line, 0, &markers.fence)
        && !has_at_exec(line, 0, &markers.link)
}

/// Picks the excerpt out of the lines of a body.
fn pick_excerpt(lines: &Vec<Vec<char>>, markers: &Markers) -> (excerpt: Option<Vec<char>>)
    requires
        markers.wf(),
    ensures
        ({
            let texts = Seq::new(lines@.len(), |k: int| lines@[k]@);
            match excerpt {
                Some(line) => match announced_excerpt(texts, 0) {
                    Some(announced) => line@ == announced,
                    None => fallback_excerpt(texts, 0) == Some(line@),
                },
                None => announced_excerpt(texts, 0) is None && fallback_excerpt(texts, 0) is None,
            }
        }),
{
    let ghost texts = Seq::new(lines@.len(), |k: int| lines@[k]@);
    let mut i: usize = 0;
    while i < lines.len() && i + 1 < lines.len()
        invariant
            markers.wf(),
            texts == Seq::new(lines@.len(), |k: int| lines@[k]@),
            announced_excerpt(texts, 0) == announced_excerpt(texts, i as int),
        decreases lines.len() - i,
    {
        if has_heading_keyword_exec(&lines[i], markers) {
            let next = trim_exec(&lines[i + 1]);
            if is_announced_excerpt_exec(&next) {
                return Some(next);
            }
        }
        i += 1;
    }
    assert(announced_excerpt(texts, 0) is None);
    let mut j: usize = 0;
    while j < lines.len()
        invariant
            markers.wf(),
            texts == Seq::new(lines@.len(), |k: int| lines@[k]@),
            announced_excerpt(texts, 0) is None,
            fallback_excerpt(texts, 0) == fallback_excerpt(texts, j as int),
        decreases lines.len() - j,
    {
        let line = trim_exec(&lines[j]);
        if is_fallback_excerpt_exec(&line, markers) {
            return Some(line);
        }
        j += 1;
    }
    None
}

/// Draws the work summary out of the body of a pull request.
///
/// The result is empty where no line qualifies, so that a caller can leave
/// the summary out instead of printing a placeholder.
pub fn extract_work_summary(body: &str) -> (summary: String)
    ensures
        summary@ == work_summary(body@),
        summary@.len() <= SUMMARY_LIMIT + 3,
{
    let chars = chars_of(body);
    let lines = split_lines_exec(&chars);
    let markers = Markers::new();
    assert(Seq::new(lines@.len(), |k: int| lines@[k]@) =~= split_lines(chars@));
    match pick_excerpt(&lines, &markers) {
        Some(excerpt) => {
            let cut = truncate_with_ellipsis_exec(&excerpt, SUMMARY_LIMIT);
            string_of(&cut)
        },
        None => String::new(),
    }
}

} // verus!
