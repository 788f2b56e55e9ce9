//! The code review agent's analysis: which files are the longest, which blocks
//! of code repeat across files, which lines show design issues, and the
//! Markdown report of the findings.
//!
//! Walking the directory tree and reading and writing files are done by the
//! program around the library; the files arrive here as [`FileInfo`] values.

use vstd::prelude::*;
use crate::text::{chars_of, line_bounds, line_bounds_of, lines_spec, trim_bounds, trim_spec, starts_with_in,
    ends_with_in, contains_in, contains_spec, count_matches_in, count_from, count_char_in, count_char_spec,
    has_prefix, has_suffix, byte_len, utf8_len_of, string_of, decimal, u64_to_decimal};
use crate::sorting::{stably_sorted_desc, lemma_insert_keeps_stable, lemma_empty_is_stable};

verus! {

/// A source file to analyze.
#[derive(Debug)]
pub struct FileInfo {
    /// Path relative to the analyzed directory.
    pub path: String,
    /// Number of lines.
    pub line_count: usize,
    pub content: String,
}

impl FileInfo {
    /// The file at `path` with `content`, its lines counted as `str::lines`
    /// counts them.
    pub fn new(path: String, content: String) -> (f: Self)
        ensures
            f.path@ == path@,
            f.content@ == content@,
            f.line_count == lines_spec(content@).len(),
    {
        let cs = chars_of(content.as_str());
        let b = line_bounds(&cs);
        FileInfo { path, line_count: b.len(), content }
    }
}

impl Clone for FileInfo {
    fn clone(&self) -> (r: Self)
        ensures
            r.path@ == self.path@,
            r.line_count == self.line_count,
            r.content@ == self.content@,
    {
        FileInfo { path: self.path.clone(), line_count: self.line_count, content: self.content.clone() }
    }
}

/// The beginnings of lines that count as boilerplate.
pub open spec fn common_patterns() -> Seq<Seq<char>> {
    seq![
        "use std::"@, "use chrono::"@, "use serde::"@, "#[derive(Debug"@, "#[cfg(test)]"@, "pub fn "@,
        "pub async fn "@, "pub struct "@, "impl "@, "async fn "@, "#[instrument("@, "/// # "@,
    ]
}

fn common_pattern_texts() -> (v: Vec<&'static str>)
    ensures
        v@.map_values(|p: &str| p@) == common_patterns(),
{
    let mut v: Vec<&'static str> = Vec::new();
    v.push("use std::");
    v.push("use chrono::");
    v.push("use serde::");
    v.push("#[derive(Debug");
    v.push("#[cfg(test)]");
    v.push("pub fn ");
    v.push("pub async fn ");
    v.push("pub struct ");
    v.push("impl ");
    v.push("async fn ");
    v.push("#[instrument(");
    v.push("/// # ");
    assert(v@.map_values(|p: &str| p@) =~= common_patterns());
    v
}

/// Whether a line is boilerplate: blank, or starting (after white space) with
/// one of the common patterns.
pub open spec fn is_boilerplate_line(line: Seq<char>) -> bool {
    trim_spec(line).len() == 0 || exists|k: int| 0 <= k < common_patterns().len()
        && has_prefix(trim_spec(line), #[trigger] common_patterns()[k])
}

/// Whether a block of code consists only of boilerplate lines.
pub open spec fn is_common_pattern_spec(block: Seq<char>) -> bool {
    forall|j: int| 0 <= j < lines_spec(block).len() ==> is_boilerplate_line(#[trigger] lines_spec(block)[j])
}

fn starts_with_any(cs: &Vec<char>, from: usize, to: usize, patterns: &Vec<&'static str>) -> (b: bool)
    requires
        from <= to <= cs@.len(),
    ensures
        b == exists|k: int| 0 <= k < patterns@.len() && has_prefix(cs@.subrange(from as int, to as int), #[trigger] patterns@[k]@),
{
    let mut k: usize = 0;
    while k < patterns.len()
        invariant
            from <= to <= cs@.len(),
            0 <= k <= patterns@.len(),
            forall|j: int| 0 <= j < k ==> !has_prefix(cs@.subrange(from as int, to as int), #[trigger] patterns@[j]@),
        decreases patterns@.len() - k,
    {
        let p = chars_of(patterns[k]);
        if starts_with_in(cs, from, to, &p) {
            return true;
        }
        k += 1;
    }
    false
}

/// Whether `block` consists only of boilerplate lines (see
/// [`is_common_pattern_spec`]).
pub fn is_common_pattern(block: &str) -> (b: bool)
    ensures
        b == is_common_pattern_spec(block@),
{
    let cs = chars_of(block);
    let bounds = line_bounds(&cs);
    let patterns = common_pattern_texts();
    let ghost lines = lines_spec(cs@);
    let mut j: usize = 0;
    while j < bounds.len()
        invariant
            cs@ == block@,
            lines == lines_spec(cs@),
            line_bounds_of(cs@, bounds@),
            patterns@.map_values(|p: &str| p@) == common_patterns(),
            0 <= j <= bounds@.len(),
            forall|i: int| 0 <= i < j ==> is_boilerplate_line(#[trigger] lines[i]),
        decreases bounds@.len() - j,
    {
        let (from, to) = bounds[j];
        assert(bounds@[j as int].0 <= bounds@[j as int].1 <= cs@.len());
        let (a, z) = trim_bounds(&cs, from, to);
        let ghost line = lines[j as int];
        assert(cs@.subrange(from as int, to as int) == line);
        if a < z {
            let ok = starts_with_any(&cs, a, z, &patterns);
            proof {
                assert forall|k: int| 0 <= k < patterns@.len() implies patterns@[k]@ == common_patterns()[k] by {
                    assert(patterns@.map_values(|p: &str| p@)[k] == patterns@[k]@);
                }
            }
            if !ok {
                assert(!is_boilerplate_line(line));
                return false;
            }
            proof {
                let k = choose|k: int| 0 <= k < patterns@.len() && has_prefix(cs@.subrange(a as int, z as int), #[trigger] patterns@[k]@);
                assert(common_patterns()[k] == patterns@[k]@);
                assert(has_prefix(trim_spec(line), common_patterns()[k]));
                assert(is_boilerplate_line(line));
            }
        } else {
            assert(trim_spec(line).len() == 0);
        }
        j += 1;
    }
    true
}

/// Abstract value of a [`DesignIssue`].
pub struct IssueView {
    pub file_path: Seq<char>,
    pub issue_type: Seq<char>,
    pub description: Seq<char>,
    pub line_number: Option<usize>,
    pub recommendation: Seq<char>,
}

/// A design issue found in a file.
#[derive(Debug)]
pub struct DesignIssue {
    pub file_path: String,
    pub issue_type: String,
    pub description: String,
    /// The line, when the issue is about one.
    pub line_number: Option<usize>,
    pub recommendation: String,
}

impl View for DesignIssue {
    type V = IssueView;

    open spec fn view(&self) -> IssueView {
        IssueView {
            file_path: self.file_path@,
            issue_type: self.issue_type@,
            description: self.description@,
            line_number: self.line_number,
            recommendation: self.recommendation@,
        }
    }
}

impl Clone for DesignIssue {
    fn clone(&self) -> (r: Self)
        ensures
            r@ == self@,
    {
        DesignIssue {
            file_path: self.file_path.clone(),
            issue_type: self.issue_type.clone(),
            description: self.description.clone(),
            line_number: self.line_number,
            recommendation: self.recommendation.clone(),
        }
    }
}

/// An issue of `path`.
pub open spec fn issue(path: Seq<char>, ty: Seq<char>, desc: Seq<char>, line: Option<usize>, rec: Seq<char>) -> IssueView {
    IssueView { file_path: path, issue_type: ty, description: desc, line_number: line, recommendation: rec }
}

fn make_issue(path: &str, ty: &str, desc: &str, line: Option<usize>, rec: &str) -> (d: DesignIssue)
    ensures
        d@ == issue(path@, ty@, desc@, line, rec@),
{
    DesignIssue {
        file_path: path.to_string(),
        issue_type: ty.to_string(),
        description: desc.to_string(),
        line_number: line,
        recommendation: rec.to_string(),
    }
}

/// The issue of a public function with many parameters on line `n`.
pub open spec fn srp_issue(path: Seq<char>, n: usize) -> IssueView {
    issue(path, "Potential SRP Violation"@, "Function has many parameters which may indicate it's doing too much"@, Some(n),
        "Consider refactoring into smaller functions or using a parameter object/struct"@)
}

/// The issue of a long closure with `move` on line `n`.
pub open spec fn closure_issue(path: Seq<char>, n: usize) -> IssueView {
    issue(path, "Complex Closure"@, "Complex closure with 'move' keyword may indicate tight coupling"@, Some(n),
        "Consider extracting to a separate named function or method"@)
}

/// The issue of a chain of awaited calls on line `n`.
pub open spec fn async_issue(path: Seq<char>, n: usize) -> IssueView {
    issue(path, "Complex Async Chain"@, "Multiple async operations chained together may be hard to test and maintain"@, Some(n),
        "Consider breaking into smaller async functions with clear responsibilities"@)
}

/// The issue of a long struct definition on line `n`.
pub open spec fn struct_issue(path: Seq<char>, n: usize) -> IssueView {
    issue(path, "Large Struct Definition"@, "Struct definition spans multiple lines and has many fields"@, Some(n),
        "Consider using composition or builder pattern if the struct has many related fields"@)
}

/// The issue of a file of `count` lines.
pub open spec fn long_file_issue(path: Seq<char>, count: usize) -> IssueView {
    issue(path, "Long File"@, "File has "@ + decimal(count as nat) + " lines, which may indicate multiple responsibilities"@, None,
        "Consider splitting into multiple modules based on functionality"@)
}

/// The issue of a TODO or FIXME on line `n`, described by the trimmed line.
pub open spec fn todo_issue(path: Seq<char>, n: usize, text: Seq<char>) -> IssueView {
    issue(path, "Unfinished Work"@, text, Some(n), "Address or update the TODO/FIXME comment"@)
}

/// The issue of an `.unwrap()` on line `n`.
pub open spec fn panic_issue(path: Seq<char>, n: usize) -> IssueView {
    issue(path, "Potential Panic Risk"@, "Using .unwrap() which will panic if the Result/Option is None/Err"@, Some(n),
        "Use proper error handling with ? operator or match statement"@)
}

/// The issue of an undocumented public function on line `n`.
pub open spec fn doc_issue(path: Seq<char>, n: usize) -> IssueView {
    issue(path, "Missing Documentation"@, "Public function lacks documentation"@, Some(n),
        "Add doc comments (///) explaining the function's purpose, parameters, and return value"@)
}

/// Whether a trimmed line starts a public function.
pub open spec fn starts_pub_fn(t: Seq<char>) -> bool {
    has_prefix(t, "pub async fn "@) || has_prefix(t, "pub fn "@)
}

/// The issues that line `line`, numbered `n`, shows on its own: a public
/// function with more than 4 ` & ` or more than 5 `: `; a `move ||` closure on
/// a trimmed line longer than 100 bytes; an awaited `?` on a line with more than
/// 3 dots; a `pub struct` on a trimmed line longer than 150 bytes.
pub open spec fn line_issues(path: Seq<char>, line: Seq<char>, n: usize) -> Seq<IssueView> {
    let t = trim_spec(line);
    (if starts_pub_fn(t) && (count_from(line, " & "@, 0) > 4 || count_from(line, ": "@, 0) > 5) {
        seq![srp_issue(path, n)]
    } else {
        Seq::empty()
    }) + (if contains_spec(t, "move ||"@) && byte_len(t) > 100 {
        seq![closure_issue(path, n)]
    } else {
        Seq::empty()
    }) + (if contains_spec(t, ".await?"@) && count_char_spec(line, '.') > 3 {
        seq![async_issue(path, n)]
    } else {
        Seq::empty()
    }) + (if has_prefix(t, "pub struct "@) && byte_len(t) > 150 {
        seq![struct_issue(path, n)]
    } else {
        Seq::empty()
    })
}

/// The issues of the first `k` lines, in order.
pub open spec fn per_line_issues(path: Seq<char>, lines: Seq<Seq<char>>, k: int) -> Seq<IssueView>
    decreases k,
{
    if k <= 0 || k > lines.len() {
        Seq::empty()
    } else {
        per_line_issues(path, lines, k - 1) + line_issues(path, lines[k - 1], k as usize)
    }
}

/// The TODO and FIXME issues of the first `k` lines, in order.
pub open spec fn todo_issues(path: Seq<char>, lines: Seq<Seq<char>>, k: int) -> Seq<IssueView>
    decreases k,
{
    if k <= 0 || k > lines.len() {
        Seq::empty()
    } else {
        let line = lines[k - 1];
        todo_issues(path, lines, k - 1) + if contains_spec(line, "TODO:"@) || contains_spec(line, "FIXME:"@) {
            seq![todo_issue(path, k as usize, trim_spec(line))]
        } else {
            Seq::empty()
        }
    }
}

/// The `.unwrap()` issues of the first `k` lines, in order.
pub open spec fn unwrap_issues(path: Seq<char>, lines: Seq<Seq<char>>, k: int) -> Seq<IssueView>
    decreases k,
{
    if k <= 0 || k > lines.len() {
        Seq::empty()
    } else {
        unwrap_issues(path, lines, k - 1) + if contains_spec(lines[k - 1], ".unwrap()"@) {
            seq![panic_issue(path, k as usize)]
        } else {
            Seq::empty()
        }
    }
}

/// Whether one of the (at most) five lines before line `i` starts, once
/// trimmed, a doc comment.
pub open spec fn has_doc_comment(lines: Seq<Seq<char>>, i: int) -> bool {
    exists|j: int| i - 5 <= j < i && 0 <= j && #[trigger] has_prefix(trim_spec(lines[j]), "///"@)
}

/// The undocumented public functions among the first `k` lines, in order.
pub open spec fn doc_issues(path: Seq<char>, lines: Seq<Seq<char>>, k: int) -> Seq<IssueView>
    decreases k,
{
    if k <= 0 || k > lines.len() {
        Seq::empty()
    } else {
        doc_issues(path, lines, k - 1) + if starts_pub_fn(trim_spec(lines[k - 1])) && !has_doc_comment(lines, k - 1) {
            seq![doc_issue(path, k as usize)]
        } else {
            Seq::empty()
        }
    }
}

/// The issues of one file, in the order they are found: line by line, then a
/// long file (more than 400 lines), then unfinished work, then at most three
/// `.unwrap()` calls, then, for Rust files, undocumented public functions.
pub open spec fn file_issues(path: Seq<char>, line_count: usize, content: Seq<char>) -> Seq<IssueView> {
    let lines = lines_spec(content);
    per_line_issues(path, lines, lines.len() as int)
        + (if line_count > 400 { seq![long_file_issue(path, line_count)] } else { Seq::empty() })
        + todo_issues(path, lines, lines.len() as int)
        + (if contains_spec(content, ".unwrap()"@) {
            let u = unwrap_issues(path, lines, lines.len() as int);
            if u.len() <= 3 { u } else { u.take(3) }
        } else {
            Seq::empty()
        })
        + (if has_suffix(path, ".rs"@) { doc_issues(path, lines, lines.len() as int) } else { Seq::empty() })
}


/// The abstract values of a list of issues.
pub open spec fn issues_view(v: Seq<DesignIssue>) -> Seq<IssueView> {
    v.map_values(|d: DesignIssue| d@)
}

fn push_issue(out: &mut Vec<DesignIssue>, d: DesignIssue)
    ensures
        issues_view(final(out)@) == issues_view(old(out)@).push(d@),
{
    let ghost before = issues_view(out@);
    out.push(d);
    assert(issues_view(out@) =~= before.push(d@));
}

fn append_issues(out: &mut Vec<DesignIssue>, more: Vec<DesignIssue>)
    ensures
        issues_view(final(out)@) == issues_view(old(out)@) + issues_view(more@),
{
    let ghost start = issues_view(out@);
    let mut i: usize = 0;
    while i < more.len()
        invariant
            0 <= i <= more@.len(),
            issues_view(out@) == start + issues_view(more@).take(i as int),
        decreases more@.len() - i,
    {
        let d = more[i].clone();
        let ghost before = issues_view(out@);
        out.push(d);
        assert(issues_view(out@) =~= before.push(more@[i as int]@));
        assert(issues_view(more@).take(i + 1) =~= issues_view(more@).take(i as int).push(more@[i as int]@));
        i += 1;
    }
    assert(issues_view(more@).take(more@.len() as int) =~= issues_view(more@));
}

/// Adds the issues of the line `cs[from..to]`, numbered `n`.
fn push_line_issues(out: &mut Vec<DesignIssue>, path: &str, cs: &Vec<char>, from: usize, to: usize, n: usize)
    requires
        from <= to <= cs@.len(),
    ensures
        issues_view(final(out)@) == issues_view(old(out)@) + line_issues(path@, cs@.subrange(from as int, to as int), n),
{
    let ghost line = cs@.subrange(from as int, to as int);
    let ghost t = trim_spec(line);
    let ghost start = issues_view(out@);
    let (a, z) = trim_bounds(cs, from, to);
    assert(cs@.subrange(a as int, z as int) == t);
    let pub_async = chars_of("pub async fn ");
    let pub_fn = chars_of("pub fn ");
    let amp = chars_of(" & ");
    let colon = chars_of(": ");
    let move_closure = chars_of("move ||");
    let await_q = chars_of(".await?");
    let pub_struct = chars_of("pub struct ");
    let starts_fn = starts_with_in(cs, a, z, &pub_async) || starts_with_in(cs, a, z, &pub_fn);
    proof {
        reveal_strlit(" & ");
        reveal_strlit(": ");
    }
    let mut part1: Vec<DesignIssue> = Vec::new();
    if starts_fn {
        if count_matches_in(cs, from, to, &amp) > 4 || count_matches_in(cs, from, to, &colon) > 5 {
            push_issue(&mut part1, make_issue(path, "Potential SRP Violation",
                "Function has many parameters which may indicate it's doing too much", Some(n),
                "Consider refactoring into smaller functions or using a parameter object/struct"));
        }
    }
    let mut part2: Vec<DesignIssue> = Vec::new();
    if contains_in(cs, a, z, &move_closure) && utf8_len_of(cs, a, z) > 100 {
        push_issue(&mut part2, make_issue(path, "Complex Closure",
            "Complex closure with 'move' keyword may indicate tight coupling", Some(n),
            "Consider extracting to a separate named function or method"));
    }
    let mut part3: Vec<DesignIssue> = Vec::new();
    if contains_in(cs, a, z, &await_q) && count_char_in(cs, from, to, '.') > 3 {
        push_issue(&mut part3, make_issue(path, "Complex Async Chain",
            "Multiple async operations chained together may be hard to test and maintain", Some(n),
            "Consider breaking into smaller async functions with clear responsibilities"));
    }
    let mut part4: Vec<DesignIssue> = Vec::new();
    if starts_with_in(cs, a, z, &pub_struct) && utf8_len_of(cs, a, z) > 150 {
        push_issue(&mut part4, make_issue(path, "Large Struct Definition",
            "Struct definition spans multiple lines and has many fields", Some(n),
            "Consider using composition or builder pattern if the struct has many related fields"));
    }
    assert(issues_view(part1@) =~= (if starts_pub_fn(t) && (count_from(line, " & "@, 0) > 4 || count_from(line, ": "@, 0) > 5) {
        seq![srp_issue(path@, n)]
    } else {
        Seq::empty()
    }));
    assert(issues_view(part2@) =~= (if contains_spec(t, "move ||"@) && byte_len(t) > 100 {
        seq![closure_issue(path@, n)]
    } else {
        Seq::empty()
    }));
    assert(issues_view(part3@) =~= (if contains_spec(t, ".await?"@) && count_char_spec(line, '.') > 3 {
        seq![async_issue(path@, n)]
    } else {
        Seq::empty()
    }));
    assert(issues_view(part4@) =~= (if has_prefix(t, "pub struct "@) && byte_len(t) > 150 {
        seq![struct_issue(path@, n)]
    } else {
        Seq::empty()
    }));
    append_issues(out, part1);
    append_issues(out, part2);
    append_issues(out, part3);
    append_issues(out, part4);
    assert(issues_view(out@) =~= start + line_issues(path@, line, n));
}

/// The issues of one file (see [`file_issues`]).
pub fn issues_of_file(f: &FileInfo) -> (r: Vec<DesignIssue>)
    ensures
        issues_view(r@) == file_issues(f.path@, f.line_count, f.content@),
{
    let path = f.path.as_str();
    let cs = chars_of(f.content.as_str());
    let b = line_bounds(&cs);
    let ghost lines = lines_spec(cs@);
    let nl = b.len();
    let mut out: Vec<DesignIssue> = Vec::new();
    let mut k: usize = 0;
    while k < nl
        invariant
            nl == b@.len(),
            line_bounds_of(cs@, b@),
            lines == lines_spec(cs@),
            0 <= k <= nl,
            issues_view(out@) == per_line_issues(path@, lines, k as int),
        decreases nl - k,
    {
        let (from, to) = b[k];
        assert(b@[k as int].0 <= b@[k as int].1 <= cs@.len());
        assert(cs@.subrange(from as int, to as int) == lines[k as int]);
        push_line_issues(&mut out, path, &cs, from, to, k + 1);
        k += 1;
    }
    let ghost s1 = issues_view(out@);
    if f.line_count > 400 {
        let mut desc = "File has ".to_string();
        desc.append(u64_to_decimal(f.line_count as u64).as_str());
        desc.append(" lines, which may indicate multiple responsibilities");
        push_issue(&mut out, make_issue(path, "Long File", desc.as_str(), None,
            "Consider splitting into multiple modules based on functionality"));
    }
    let ghost s2 = issues_view(out@);
    assert(s2 == s1 + (if f.line_count > 400 { seq![long_file_issue(f.path@, f.line_count)] } else { Seq::empty() }));
    let todo = chars_of("TODO:");
    let fixme = chars_of("FIXME:");
    k = 0;
    while k < nl
        invariant
            nl == b@.len(),
            line_bounds_of(cs@, b@),
            lines == lines_spec(cs@),
            0 <= k <= nl,
            todo@ == "TODO:"@,
            fixme@ == "FIXME:"@,
            issues_view(out@) == s2 + todo_issues(path@, lines, k as int),
        decreases nl - k,
    {
        let (from, to) = b[k];
        assert(b@[k as int].0 <= b@[k as int].1 <= cs@.len());
        assert(cs@.subrange(from as int, to as int) == lines[k as int]);
        if contains_in(&cs, from, to, &todo) || contains_in(&cs, from, to, &fixme) {
            let (a, z) = trim_bounds(&cs, from, to);
            let text = string_of(cs.as_slice(), a, z);
            push_issue(&mut out, make_issue(path, "Unfinished Work", text.as_str(), Some(k + 1),
                "Address or update the TODO/FIXME comment"));
        }
        k += 1;
    }
    let ghost s3 = issues_view(out@);
    let unwrap = chars_of(".unwrap()");
    if contains_in(&cs, 0, cs.len(), &unwrap) {
        let mut found: Vec<DesignIssue> = Vec::new();
        k = 0;
        while k < nl
            invariant
                nl == b@.len(),
                line_bounds_of(cs@, b@),
                lines == lines_spec(cs@),
                0 <= k <= nl,
                unwrap@ == ".unwrap()"@,
                issues_view(found@) == unwrap_issues(path@, lines, k as int),
            decreases nl - k,
        {
            let (from, to) = b[k];
            assert(b@[k as int].0 <= b@[k as int].1 <= cs@.len());
            assert(cs@.subrange(from as int, to as int) == lines[k as int]);
            if contains_in(&cs, from, to, &unwrap) {
                push_issue(&mut found, make_issue(path, "Potential Panic Risk",
                    "Using .unwrap() which will panic if the Result/Option is None/Err", Some(k + 1),
                    "Use proper error handling with ? operator or match statement"));
            }
            k += 1;
        }
        let mut i: usize = 0;
        let limit = if found.len() < 3 { found.len() } else { 3 };
        let ghost before = issues_view(out@);
        while i < limit
            invariant
                limit <= found@.len(),
                0 <= i <= limit,
                issues_view(out@) == before + issues_view(found@).take(i as int),
            decreases limit - i,
        {
            let d = found[i].clone();
            push_issue(&mut out, d);
            assert(issues_view(found@).take(i + 1) =~= issues_view(found@).take(i as int).push(found@[i as int]@));
            i += 1;
        }
        assert(cs@.subrange(0, cs@.len() as int) =~= cs@);
        assert(issues_view(found@).take(limit as int) =~= {
            let u = unwrap_issues(f.path@, lines, lines.len() as int);
            if u.len() <= 3 { u } else { u.take(3) }
        });
    } else {
        assert(cs@.subrange(0, cs@.len() as int) =~= cs@);
    }
    let ghost s4 = issues_view(out@);
    let rs = chars_of(".rs");
    let path_cs = chars_of(path);
    if ends_with_in(&path_cs, 0, path_cs.len(), &rs) {
        let doc = chars_of("///");
        let pub_async = chars_of("pub async fn ");
        let pub_fn = chars_of("pub fn ");
        k = 0;
        while k < nl
            invariant
                nl == b@.len(),
                line_bounds_of(cs@, b@),
                lines == lines_spec(cs@),
                0 <= k <= nl,
                doc@ == "///"@,
                pub_async@ == "pub async fn "@,
                pub_fn@ == "pub fn "@,
                issues_view(out@) == s4 + doc_issues(path@, lines, k as int),
            decreases nl - k,
        {
            let (from, to) = b[k];
            assert(b@[k as int].0 <= b@[k as int].1 <= cs@.len());
            assert(cs@.subrange(from as int, to as int) == lines[k as int]);
            let (a, z) = trim_bounds(&cs, from, to);
            if starts_with_in(&cs, a, z, &pub_async) || starts_with_in(&cs, a, z, &pub_fn) {
                let lo = if k >= 5 { k - 5 } else { 0 };
                let mut j = lo;
                let mut has_doc = false;
                while j < k
                    invariant
                        nl == b@.len(),
                        line_bounds_of(cs@, b@),
                        lines == lines_spec(cs@),
                        lo <= j <= k < nl,
                        lo == (if k >= 5 { k - 5 } else { 0 }),
                        doc@ == "///"@,
                        has_doc == exists|x: int| lo <= x < j && #[trigger] has_prefix(trim_spec(lines[x]), "///"@),
                    decreases k - j,
                {
                    let (f2, t2) = b[j];
                    assert(b@[j as int].0 <= b@[j as int].1 <= cs@.len());
                    assert(cs@.subrange(f2 as int, t2 as int) == lines[j as int]);
                    let (a2, z2) = trim_bounds(&cs, f2, t2);
                    if starts_with_in(&cs, a2, z2, &doc) {
                        has_doc = true;
                    }
                    j += 1;
                }
                assert(has_doc == has_doc_comment(lines, k as int));
                if !has_doc {
                    push_issue(&mut out, make_issue(path, "Missing Documentation", "Public function lacks documentation",
                        Some(k + 1), "Add doc comments (///) explaining the function's purpose, parameters, and return value"));
                }
            }
            k += 1;
        }
    }
    assert(path_cs@.subrange(0, path_cs@.len() as int) =~= path_cs@);
    out
}


/// The issues of the first `k` files, in order.
pub open spec fn all_issues(files: Seq<FileInfo>, k: int) -> Seq<IssueView>
    decreases k,
{
    if k <= 0 || k > files.len() {
        Seq::empty()
    } else {
        all_issues(files, k - 1) + file_issues(files[k - 1].path@, files[k - 1].line_count, files[k - 1].content@)
    }
}

/// How severe an issue type is: panic risks first, then responsibility
/// violations, long files, complex closures, complex async chains, and the rest.
pub open spec fn severity(ty: Seq<char>) -> nat {
    if ty == "Potential Panic Risk"@ {
        0
    } else if ty == "Potential SRP Violation"@ {
        1
    } else if ty == "Long File"@ {
        2
    } else if ty == "Complex Closure"@ {
        3
    } else if ty == "Complex Async Chain"@ {
        4
    } else {
        5
    }
}

/// Selects the issues of severity `level`.
pub open spec fn at_severity(level: nat) -> spec_fn(IssueView) -> bool {
    |i: IssueView| severity(i.issue_type) == level
}

/// The issues ordered by severity, keeping their order within a severity (what
/// a stable sort by severity gives).
pub open spec fn by_severity(s: Seq<IssueView>) -> Seq<IssueView> {
    s.filter(at_severity(0)) + s.filter(at_severity(1)) + s.filter(at_severity(2)) + s.filter(at_severity(3))
        + s.filter(at_severity(4)) + s.filter(at_severity(5))
}

/// The design issues of the files: all issues, ordered by severity, at most 50.
pub open spec fn design_issues_spec(files: Seq<FileInfo>) -> Seq<IssueView> {
    let s = by_severity(all_issues(files, files.len() as int));
    if s.len() <= 50 { s } else { s.take(50) }
}

fn severity_of(ty: &str) -> (n: usize)
    ensures
        n == severity(ty@),
{
    if crate::text::str_eq(ty, "Potential Panic Risk") {
        0
    } else if crate::text::str_eq(ty, "Potential SRP Violation") {
        1
    } else if crate::text::str_eq(ty, "Long File") {
        2
    } else if crate::text::str_eq(ty, "Complex Closure") {
        3
    } else if crate::text::str_eq(ty, "Complex Async Chain") {
        4
    } else {
        5
    }
}

fn append_at_severity(out: &mut Vec<DesignIssue>, all: &Vec<DesignIssue>, level: usize)
    ensures
        issues_view(final(out)@) == issues_view(old(out)@) + issues_view(all@).filter(at_severity(level as nat)),
{
    let ghost start = issues_view(out@);
    let ghost s = issues_view(all@);
    let ghost p = at_severity(level as nat);
    let mut i: usize = 0;
    while i < all.len()
        invariant
            0 <= i <= all@.len(),
            s == issues_view(all@),
            p == at_severity(level as nat),
            issues_view(out@) == start + s.take(i as int).filter(p),
        decreases all@.len() - i,
    {
        proof {
            assert(s.take(i + 1) =~= s.take(i as int).push(s[i as int]));
            s.take(i as int).lemma_filter_push(s[i as int], p);
        }
        assert(s[i as int] == all@[i as int]@);
        if severity_of(all[i].issue_type.as_str()) == level {
            let d = all[i].clone();
            push_issue(out, d);
        }
        i += 1;
    }
    assert(s.take(all@.len() as int) =~= s);
}

/// The design issues of the files (see [`design_issues_spec`]).
pub fn find_design_issues(files: &Vec<FileInfo>) -> (r: Vec<DesignIssue>)
    ensures
        issues_view(r@) == design_issues_spec(files@),
{
    let mut all: Vec<DesignIssue> = Vec::new();
    let mut k: usize = 0;
    while k < files.len()
        invariant
            0 <= k <= files@.len(),
            issues_view(all@) == all_issues(files@, k as int),
        decreases files@.len() - k,
    {
        let more = issues_of_file(&files[k]);
        append_issues(&mut all, more);
        k += 1;
    }
    let ghost s = issues_view(all@);
    let mut sorted: Vec<DesignIssue> = Vec::new();
    append_at_severity(&mut sorted, &all, 0);
    append_at_severity(&mut sorted, &all, 1);
    append_at_severity(&mut sorted, &all, 2);
    append_at_severity(&mut sorted, &all, 3);
    append_at_severity(&mut sorted, &all, 4);
    append_at_severity(&mut sorted, &all, 5);
    assert(issues_view(sorted@) =~= by_severity(s));
    if sorted.len() <= 50 {
        sorted
    } else {
        let mut top: Vec<DesignIssue> = Vec::new();
        let mut i: usize = 0;
        while i < 50
            invariant
                sorted@.len() > 50,
                0 <= i <= 50,
                issues_view(top@) == issues_view(sorted@).take(i as int),
            decreases 50 - i,
        {
            let d = sorted[i].clone();
            push_issue(&mut top, d);
            assert(issues_view(sorted@).take(i + 1) =~= issues_view(sorted@).take(i as int).push(sorted@[i as int]@));
            i += 1;
        }
        top
    }
}

/// The issues come out ordered by severity, and all issues of a severity keep
/// the order in which they were found.
pub proof fn law_issues_ordered_by_severity(s: Seq<IssueView>, i: int, j: int)
    requires
        0 <= i < j < by_severity(s).len(),
    ensures
        severity(by_severity(s)[i].issue_type) <= severity(by_severity(s)[j].issue_type),
{
    broadcast use vstd::seq_lib::group_filter_ensures;
    let f0 = s.filter(at_severity(0));
    let f1 = s.filter(at_severity(1));
    let f2 = s.filter(at_severity(2));
    let f3 = s.filter(at_severity(3));
    let f4 = s.filter(at_severity(4));
    let f5 = s.filter(at_severity(5));
    let b = by_severity(s);
    let o1 = f0.len() as int;
    let o2 = o1 + f1.len();
    let o3 = o2 + f2.len();
    let o4 = o3 + f3.len();
    let o5 = o4 + f4.len();
    assert forall|x: int| 0 <= x < b.len() implies #[trigger] severity(b[x].issue_type) == (
        if x < o1 { 0nat } else if x < o2 { 1nat } else if x < o3 { 2nat } else if x < o4 { 3nat } else if x < o5 { 4nat } else { 5nat }
    ) by {
        if x < o1 {
            assert(b[x] == f0[x]);
            assert(at_severity(0)(f0[x]));
        } else if x < o2 {
            assert(b[x] == f1[x - o1]);
            assert(at_severity(1)(f1[x - o1]));
        } else if x < o3 {
            assert(b[x] == f2[x - o2]);
            assert(at_severity(2)(f2[x - o2]));
        } else if x < o4 {
            assert(b[x] == f3[x - o3]);
            assert(at_severity(3)(f3[x - o3]));
        } else if x < o5 {
            assert(b[x] == f4[x - o4]);
            assert(at_severity(4)(f4[x - o4]));
        } else {
            assert(b[x] == f5[x - o5]);
            assert(at_severity(5)(f5[x - o5]));
        }
    }
    assert(severity(b[i].issue_type) == severity(b[i].issue_type));
    assert(severity(b[j].issue_type) == severity(b[j].issue_type));
}


/// A block of lines found in several files.
#[derive(Debug)]
pub struct DuplicationFinding {
    /// The repeated block.
    pub pattern: String,
    /// Where it occurs: file, first line, last line.
    pub files: Vec<(String, usize, usize)>,
    /// Lines in the block.
    pub line_count: usize,
}

/// The abstract value of the occurrences of a repeated block.
pub open spec fn occurrences_view(v: Seq<(String, usize, usize)>) -> Seq<(Seq<char>, usize, usize)> {
    v.map_values(|o: (String, usize, usize)| (o.0@, o.1, o.2))
}

/// A path with its backslashes turned into slashes, for a Markdown link.
pub open spec fn link_path(p: Seq<char>) -> Seq<char> {
    p.map_values(|c: char| if c == '\\' { '/' } else { c })
}

fn link_path_of(p: &str) -> (r: String)
    ensures
        r@ == link_path(p@),
{
    let cs = chars_of(p);
    let mut out: Vec<char> = Vec::new();
    let mut i: usize = 0;
    while i < cs.len()
        invariant
            0 <= i <= cs@.len(),
            cs@ == p@,
            out@ == link_path(cs@.take(i as int)),
        decreases cs@.len() - i,
    {
        let c = cs[i];
        out.push(if c == '\\' { '/' } else { c });
        assert(cs@.take(i + 1) =~= cs@.take(i as int).push(c));
        assert(out@ =~= link_path(cs@.take(i + 1)));
        i += 1;
    }
    assert(cs@.take(cs@.len() as int) =~= cs@);
    string_of(out.as_slice(), 0, out.len())
}

/// The report's title block.
pub open spec fn report_header(timestamp: Seq<char>, dir: Seq<char>) -> Seq<char> {
    "# Code Review Report\n\n**Generated:** "@ + timestamp + "\n\n**Analyzed Directory:** `"@ + dir + "`\n\n---\n\n"@
}

/// The report's summary table.
pub open spec fn report_summary(longest: Seq<FileInfo>, duplications: nat, issues: nat) -> Seq<char> {
    "## Executive Summary\n\n| Metric | Value |\n|--------|-------|\n"@
        + "| Longest File | "@ + decimal(if longest.len() > 0 { longest[0].line_count as nat } else { 0 })
        + " lines ("@ + (if longest.len() > 0 { longest[0].path@ } else { "N/A"@ }) + ") |\n"@
        + "| Duplication Patterns | "@ + decimal(duplications) + " |\n"@
        + "| Design Issues | "@ + decimal(issues) + " |\n"@ + "\n"@
}

/// The row of the longest-files table for file `f` of rank `rank`.
pub open spec fn longest_row(rank: nat, f: FileInfo) -> Seq<char> {
    "| "@ + decimal(rank) + " | [`"@ + f.path@ + "`]("@ + link_path(f.path@) + ") | "@ + decimal(f.line_count as nat) + " |\n"@
}

/// The rows of the first `k` longest files.
pub open spec fn longest_rows(files: Seq<FileInfo>, k: int) -> Seq<char>
    decreases k,
{
    if k <= 0 || k > files.len() { Seq::empty() } else { longest_rows(files, k - 1) + longest_row(k as nat, files[k - 1]) }
}

/// The section of the longest files.
pub open spec fn report_longest(files: Seq<FileInfo>) -> Seq<char> {
    "## 1. Longest Files\n\nThe following files have the highest line count and may benefit from refactoring:\n\n| Rank | File | Lines |\n|------|------|-------|\n"@
        + longest_rows(files, files.len() as int) + "\n"@
}

fn push_decimal(s: &mut String, n: usize)
    ensures
        final(s)@ == old(s)@ + decimal(n as nat),
{
    let d = u64_to_decimal(n as u64);
    s.append(d.as_str());
}

fn render_header(timestamp: &str, dir: &str) -> (s: String)
    ensures
        s@ == report_header(timestamp@, dir@),
{
    let mut s = "# Code Review Report\n\n**Generated:** ".to_string();
    s.append(timestamp);
    s.append("\n\n**Analyzed Directory:** `");
    s.append(dir);
    s.append("`\n\n---\n\n");
    s
}

fn render_summary(longest: &Vec<FileInfo>, duplications: usize, issues: usize) -> (s: String)
    ensures
        s@ == report_summary(longest@, duplications as nat, issues as nat),
{
    let mut s = "## Executive Summary\n\n| Metric | Value |\n|--------|-------|\n".to_string();
    s.append("| Longest File | ");
    if longest.len() > 0 {
        push_decimal(&mut s, longest[0].line_count);
    } else {
        push_decimal(&mut s, 0);
    }
    s.append(" lines (");
    if longest.len() > 0 {
        s.append(longest[0].path.as_str());
    } else {
        s.append("N/A");
    }
    s.append(") |\n");
    s.append("| Duplication Patterns | ");
    push_decimal(&mut s, duplications);
    s.append(" |\n");
    s.append("| Design Issues | ");
    push_decimal(&mut s, issues);
    s.append(" |\n");
    s.append("\n");
    s
}

fn render_longest_row(rank: usize, f: &FileInfo) -> (s: String)
    ensures
        s@ == longest_row(rank as nat, *f),
{
    let mut s = "| ".to_string();
    push_decimal(&mut s, rank);
    s.append(" | [`");
    s.append(f.path.as_str());
    s.append("`](");
    s.append(link_path_of(f.path.as_str()).as_str());
    s.append(") | ");
    push_decimal(&mut s, f.line_count);
    s.append(" |\n");
    s
}

fn render_longest(files: &Vec<FileInfo>) -> (s: String)
    ensures
        s@ == report_longest(files@),
{
    let mut s = "## 1. Longest Files\n\nThe following files have the highest line count and may benefit from refactoring:\n\n| Rank | File | Lines |\n|------|------|-------|\n".to_string();
    let ghost head = s@;
    let mut i: usize = 0;
    while i < files.len()
        invariant
            0 <= i <= files@.len(),
            s@ == head + longest_rows(files@, i as int),
        decreases files@.len() - i,
    {
        let row = render_longest_row(i + 1, &files[i]);
        s.append(row.as_str());
        assert(s@ =~= head + longest_rows(files@, i + 1));
        i += 1;
    }
    s.append("\n");
    s
}

/// The bullet of an occurrence of a repeated block.
pub open spec fn occurrence_row(o: (Seq<char>, usize, usize)) -> Seq<char> {
    "  - [`"@ + o.0 + "`]("@ + link_path(o.0) + ") (lines "@ + decimal(o.1 as nat) + "-"@ + decimal(o.2 as nat) + ")\n"@
}

/// The bullets of the first `k` occurrences.
pub open spec fn occurrence_rows(o: Seq<(Seq<char>, usize, usize)>, k: int) -> Seq<char>
    decreases k,
{
    if k <= 0 || k > o.len() { Seq::empty() } else { occurrence_rows(o, k - 1) + occurrence_row(o[k - 1]) }
}

/// The first `k` lines of a preview, each followed by a newline.
pub open spec fn preview_lines(lines: Seq<Seq<char>>, k: int) -> Seq<char>
    decreases k,
{
    if k <= 0 || k > lines.len() { Seq::empty() } else { preview_lines(lines, k - 1) + lines[k - 1] + "\n"@ }
}

/// The report block of repeated block number `number`.
pub open spec fn duplication_block(number: nat, d: DuplicationFinding) -> Seq<char> {
    let lines = lines_spec(d.pattern@);
    let o = occurrences_view(d.files@);
    "### Pattern "@ + decimal(number) + "\n\n"@
        + "- **Line Count:** "@ + decimal(d.line_count as nat) + " lines\n"@
        + "- **Occurrences:** "@ + decimal(d.files@.len()) + "\n"@
        + "- **Files:**\n"@ + occurrence_rows(o, o.len() as int)
        + "- **Preview:**\n"@ + "```rust\n"@ + preview_lines(lines, if lines.len() < 3 { lines.len() as int } else { 3 })
        + "```\n\n"@ + "**Recommendation:** Extract this repeated pattern into a shared function or module.\n\n"@
}

/// The blocks of the first `k` repeated blocks.
pub open spec fn duplication_blocks(d: Seq<DuplicationFinding>, k: int) -> Seq<char>
    decreases k,
{
    if k <= 0 || k > d.len() { Seq::empty() } else { duplication_blocks(d, k - 1) + duplication_block(k as nat, d[k - 1]) }
}

/// The section of repeated blocks.
pub open spec fn report_duplications(d: Seq<DuplicationFinding>) -> Seq<char> {
    "## 2. Code Duplication\n\n"@ + "Found "@ + decimal(d.len())
        + " duplication patterns. Review the following areas for potential extraction:\n\n"@
        + duplication_blocks(d, d.len() as int)
}

fn render_duplication(number: usize, d: &DuplicationFinding) -> (s: String)
    ensures
        s@ == duplication_block(number as nat, *d),
{
    let mut s = "### Pattern ".to_string();
    push_decimal(&mut s, number);
    s.append("\n\n");
    s.append("- **Line Count:** ");
    push_decimal(&mut s, d.line_count);
    s.append(" lines\n");
    s.append("- **Occurrences:** ");
    push_decimal(&mut s, d.files.len());
    s.append("\n");
    s.append("- **Files:**\n");
    let ghost o = occurrences_view(d.files@);
    let ghost head = s@;
    let mut i: usize = 0;
    while i < d.files.len()
        invariant
            0 <= i <= d.files@.len(),
            o == occurrences_view(d.files@),
            s@ == head + occurrence_rows(o, i as int),
        decreases d.files@.len() - i,
    {
        let (fp, st, en) = &d.files[i];
        assert(o[i as int] == (fp@, *st, *en));
        s.append("  - [`");
        s.append(fp.as_str());
        s.append("`](");
        s.append(link_path_of(fp.as_str()).as_str());
        s.append(") (lines ");
        push_decimal(&mut s, *st);
        s.append("-");
        push_decimal(&mut s, *en);
        s.append(")\n");
        assert(s@ =~= head + occurrence_rows(o, i + 1));
        i += 1;
    }
    s.append("- **Preview:**\n");
    s.append("```rust\n");
    let cs = chars_of(d.pattern.as_str());
    let b = line_bounds(&cs);
    let ghost lines = lines_spec(cs@);
    let take = if b.len() < 3 { b.len() } else { 3 };
    let ghost head2 = s@;
    let mut k: usize = 0;
    while k < take
        invariant
            line_bounds_of(cs@, b@),
            lines == lines_spec(cs@),
            take <= b@.len(),
            0 <= k <= take,
            s@ == head2 + preview_lines(lines, k as int),
        decreases take - k,
    {
        let (from, to) = b[k];
        assert(b@[k as int].0 <= b@[k as int].1 <= cs@.len());
        assert(cs@.subrange(from as int, to as int) == lines[k as int]);
        let line = string_of(cs.as_slice(), from, to);
        s.append(line.as_str());
        s.append("\n");
        assert(s@ =~= head2 + preview_lines(lines, k + 1));
        k += 1;
    }
    s.append("```\n\n");
    s.append("**Recommendation:** Extract this repeated pattern into a shared function or module.\n\n");
    s
}

fn render_duplications(d: &Vec<DuplicationFinding>) -> (s: String)
    ensures
        s@ == report_duplications(d@),
{
    let mut s = "## 2. Code Duplication\n\n".to_string();
    s.append("Found ");
    push_decimal(&mut s, d.len());
    s.append(" duplication patterns. Review the following areas for potential extraction:\n\n");
    let ghost head = s@;
    let mut i: usize = 0;
    while i < d.len()
        invariant
            0 <= i <= d@.len(),
            s@ == head + duplication_blocks(d@, i as int),
        decreases d@.len() - i,
    {
        let block = render_duplication(i + 1, &d[i]);
        s.append(block.as_str());
        assert(s@ =~= head + duplication_blocks(d@, i + 1));
        i += 1;
    }
    s
}


/// The issue types in the order the report lists them.
pub open spec fn report_issue_types() -> Seq<Seq<char>> {
    seq![
        "Potential Panic Risk"@, "Potential SRP Violation"@, "Long File"@, "Complex Closure"@,
        "Complex Async Chain"@, "Large Struct Definition"@, "Missing Documentation"@, "Unfinished Work"@,
    ]
}

fn report_issue_type_texts() -> (v: Vec<&'static str>)
    ensures
        v@.map_values(|p: &str| p@) == report_issue_types(),
{
    let mut v: Vec<&'static str> = Vec::new();
    v.push("Potential Panic Risk");
    v.push("Potential SRP Violation");
    v.push("Long File");
    v.push("Complex Closure");
    v.push("Complex Async Chain");
    v.push("Large Struct Definition");
    v.push("Missing Documentation");
    v.push("Unfinished Work");
    assert(v@.map_values(|p: &str| p@) =~= report_issue_types());
    v
}

/// Selects the issues of type `ty`.
pub open spec fn of_type(ty: Seq<char>) -> spec_fn(IssueView) -> bool {
    |i: IssueView| i.issue_type == ty
}

/// The entry of an issue.
pub open spec fn issue_entry(i: IssueView) -> Seq<char> {
    "#### ["@ + i.file_path + "]:["@ + (match i.line_number {
        Some(n) => decimal(n as nat),
        None => "multiple"@,
    }) + "]\n\n"@ + "- **Issue:** "@ + i.description + "\n"@ + "- **Recommendation:** "@ + i.recommendation + "\n"@ + "\n"@
}

/// The entries of the first `k` issues.
pub open spec fn issue_entries(s: Seq<IssueView>, k: int) -> Seq<char>
    decreases k,
{
    if k <= 0 || k > s.len() { Seq::empty() } else { issue_entries(s, k - 1) + issue_entry(s[k - 1]) }
}

/// The group of the issues of type `ty`, empty when there is none.
pub open spec fn issue_group(issues: Seq<IssueView>, ty: Seq<char>) -> Seq<char> {
    let g = issues.filter(of_type(ty));
    if g.len() == 0 {
        Seq::empty()
    } else {
        "### "@ + ty + " ("@ + decimal(g.len()) + ")\n\n"@ + issue_entries(g, g.len() as int)
    }
}

/// The groups of the first `k` report types.
pub open spec fn issue_groups(issues: Seq<IssueView>, k: int) -> Seq<char>
    decreases k,
{
    if k <= 0 || k > report_issue_types().len() {
        Seq::empty()
    } else {
        issue_groups(issues, k - 1) + issue_group(issues, report_issue_types()[k - 1])
    }
}

/// The section of design issues, grouped by type in the report's order.
pub open spec fn report_issues(issues: Seq<IssueView>) -> Seq<char> {
    "## 3. Design Issues\n\n"@ + issue_groups(issues, 8)
}

fn render_issue_entry(d: &DesignIssue) -> (s: String)
    ensures
        s@ == issue_entry(d@),
{
    let mut s = "#### [".to_string();
    s.append(d.file_path.as_str());
    s.append("]:[");
    match d.line_number {
        Some(n) => push_decimal(&mut s, n),
        None => s.append("multiple"),
    }
    s.append("]\n\n");
    s.append("- **Issue:** ");
    s.append(d.description.as_str());
    s.append("\n");
    s.append("- **Recommendation:** ");
    s.append(d.recommendation.as_str());
    s.append("\n");
    s.append("\n");
    s
}

fn render_issue_group(issues: &Vec<DesignIssue>, ty: &str) -> (s: String)
    ensures
        s@ == issue_group(issues_view(issues@), ty@),
{
    let ghost v = issues_view(issues@);
    let ghost p = of_type(ty@);
    let mut group: Vec<DesignIssue> = Vec::new();
    let mut i: usize = 0;
    while i < issues.len()
        invariant
            0 <= i <= issues@.len(),
            v == issues_view(issues@),
            p == of_type(ty@),
            issues_view(group@) == v.take(i as int).filter(p),
        decreases issues@.len() - i,
    {
        proof {
            assert(v.take(i + 1) =~= v.take(i as int).push(v[i as int]));
            v.take(i as int).lemma_filter_push(v[i as int], p);
        }
        assert(v[i as int] == issues@[i as int]@);
        if crate::text::str_eq(issues[i].issue_type.as_str(), ty) {
            let d = issues[i].clone();
            push_issue(&mut group, d);
        }
        i += 1;
    }
    assert(v.take(issues@.len() as int) =~= v);
    let ghost g = issues_view(group@);
    if group.len() == 0 {
        return String::new();
    }
    let mut s = "### ".to_string();
    s.append(ty);
    s.append(" (");
    push_decimal(&mut s, group.len());
    s.append(")\n\n");
    let ghost head = s@;
    let mut k: usize = 0;
    while k < group.len()
        invariant
            0 <= k <= group@.len(),
            g == issues_view(group@),
            s@ == head + issue_entries(g, k as int),
        decreases group@.len() - k,
    {
        let d = &group[k];
        assert(g[k as int] == d@);
        let entry = render_issue_entry(d);
        s.append(entry.as_str());
        assert(s@ =~= head + issue_entries(g, k + 1));
        k += 1;
    }
    s
}

fn render_issues(issues: &Vec<DesignIssue>) -> (s: String)
    ensures
        s@ == report_issues(issues_view(issues@)),
{
    let types = report_issue_type_texts();
    assert(types@.map_values(|p: &str| p@).len() == types@.len());
    let mut s = "## 3. Design Issues\n\n".to_string();
    let ghost head = s@;
    let mut k: usize = 0;
    while k < types.len()
        invariant
            types@.map_values(|p: &str| p@) == report_issue_types(),
            types@.len() == 8,
            0 <= k <= 8,
            s@ == head + issue_groups(issues_view(issues@), k as int),
        decreases 8 - k,
    {
        assert(types@.map_values(|p: &str| p@)[k as int] == types@[k as int]@);
        let group = render_issue_group(issues, types[k]);
        s.append(group.as_str());
        assert(s@ =~= head + issue_groups(issues_view(issues@), k + 1));
        k += 1;
    }
    s
}

/// Whether some issue has type `ty`.
pub open spec fn has_issue_type(issues: Seq<IssueView>, ty: Seq<char>) -> bool {
    exists|i: int| 0 <= i < issues.len() && #[trigger] issues[i].issue_type == ty
}

/// The closing section: the recommendations that the findings call for, then
/// the footer.
pub open spec fn report_recommendations(longest: Seq<FileInfo>, duplications: nat, issues: Seq<IssueView>) -> Seq<char> {
    let long = longest.len() > 0 && longest[0].line_count > 300;
    let dup = duplications > 0;
    let panic = has_issue_type(issues, "Potential Panic Risk"@);
    let docs = has_issue_type(issues, "Missing Documentation"@);
    "## 4. Recommendations\n\n"@
        + (if long { "- **Long Files:** Consider breaking down files with >300 lines into smaller, focused modules. This improves maintainability and makes the codebase easier to navigate.\n"@ } else { Seq::empty() })
        + (if dup { "- **Code Duplication:** Extract repeated code blocks into shared utilities. This reduces maintenance burden and ensures consistency across the codebase.\n"@ } else { Seq::empty() })
        + (if panic { "- **Panic Risks:** Replace `.unwrap()` calls with proper error handling using the `?` operator or `match` statements. This makes the codebase more robust.\n"@ } else { Seq::empty() })
        + (if docs { "- **Documentation:** Add doc comments to public functions and structs. This improves API discoverability and helps other developers understand the intended usage.\n"@ } else { Seq::empty() })
        + (if long || dup || panic || docs { "\n"@ } else { Seq::empty() })
        + "---\n\n"@ + "*This report was generated by the Code Review Agent for the automation-rust project.*\n"@
}

fn any_issue_of_type(issues: &Vec<DesignIssue>, ty: &str) -> (b: bool)
    ensures
        b == has_issue_type(issues_view(issues@), ty@),
{
    let mut i: usize = 0;
    while i < issues.len()
        invariant
            0 <= i <= issues@.len(),
            forall|j: int| 0 <= j < i ==> #[trigger] issues_view(issues@)[j].issue_type != ty@,
        decreases issues@.len() - i,
    {
        assert(issues_view(issues@)[i as int] == issues@[i as int]@);
        if crate::text::str_eq(issues[i].issue_type.as_str(), ty) {
            assert(issues_view(issues@)[i as int].issue_type == ty@);
            return true;
        }
        i += 1;
    }
    false
}

fn render_recommendations(longest: &Vec<FileInfo>, duplications: usize, issues: &Vec<DesignIssue>) -> (s: String)
    ensures
        s@ == report_recommendations(longest@, duplications as nat, issues_view(issues@)),
{
    let long = longest.len() > 0 && longest[0].line_count > 300;
    let dup = duplications > 0;
    let panic = any_issue_of_type(issues, "Potential Panic Risk");
    let docs = any_issue_of_type(issues, "Missing Documentation");
    let mut s = "## 4. Recommendations\n\n".to_string();
    let ghost s0 = s@;
    if long {
        s.append("- **Long Files:** Consider breaking down files with >300 lines into smaller, focused modules. This improves maintainability and makes the codebase easier to navigate.\n");
    }
    let ghost s1 = s@;
    if dup {
        s.append("- **Code Duplication:** Extract repeated code blocks into shared utilities. This reduces maintenance burden and ensures consistency across the codebase.\n");
    }
    let ghost s2 = s@;
    if panic {
        s.append("- **Panic Risks:** Replace `.unwrap()` calls with proper error handling using the `?` operator or `match` statements. This makes the codebase more robust.\n");
    }
    let ghost s3 = s@;
    if docs {
        s.append("- **Documentation:** Add doc comments to public functions and structs. This improves API discoverability and helps other developers understand the intended usage.\n");
    }
    let ghost s4 = s@;
    if long || dup || panic || docs {
        s.append("\n");
    }
    s.append("---\n\n");
    s.append("*This report was generated by the Code Review Agent for the automation-rust project.*\n");
    assert(s@ =~= report_recommendations(longest@, duplications as nat, issues_view(issues@)));
    s
}

/// The whole report.
pub open spec fn report_spec(
    timestamp: Seq<char>,
    dir: Seq<char>,
    longest: Seq<FileInfo>,
    duplications: Seq<DuplicationFinding>,
    issues: Seq<IssueView>,
) -> Seq<char> {
    report_header(timestamp, dir) + report_summary(longest, duplications.len(), issues.len()) + report_longest(longest)
        + report_duplications(duplications) + report_issues(issues)
        + report_recommendations(longest, duplications.len(), issues)
}

/// Writes the Markdown report of an analysis of `analyze_dir` made at
/// `timestamp` (see [`report_spec`]).
pub fn generate_report(
    timestamp: &str,
    analyze_dir: &str,
    longest_files: &Vec<FileInfo>,
    duplications: &Vec<DuplicationFinding>,
    design_issues: &Vec<DesignIssue>,
) -> (r: String)
    ensures
        r@ == report_spec(timestamp@, analyze_dir@, longest_files@, duplications@, issues_view(design_issues@)),
{
    let mut r = render_header(timestamp, analyze_dir);
    r.append(render_summary(longest_files, duplications.len(), design_issues.len()).as_str());
    r.append(render_longest(longest_files).as_str());
    r.append(render_duplications(duplications).as_str());
    r.append(render_issues(design_issues).as_str());
    r.append(render_recommendations(longest_files, duplications.len(), design_issues).as_str());
    r
}


/// The directories that the analysis skips, from the comma-separated option:
/// each piece trimmed of white space.
pub fn parse_exclude_list(exclude: &str) -> (r: Vec<String>)
    ensures
        r@.map_values(|x: String| x@) == crate::text::split_pieces(exclude@, ',').map_values(|p: Seq<char>| trim_spec(p)),
{
    crate::text::split_trimmed(exclude, ',')
}

/// The hidden files that the analysis still reads.
pub open spec fn allowed_hidden(name: Seq<char>) -> bool {
    name == ".automation-rust.toml"@ || name == ".env.example"@ || name == ".gitignore"@
}

/// Whether the walk enters an entry named `name`: not a directory whose name
/// contains an excluded name, and not hidden (starting with a dot) unless it is
/// one of the allowed hidden files.
pub open spec fn entry_allowed_spec(name: Seq<char>, is_dir: bool, exclude: Seq<Seq<char>>) -> bool {
    &&& !(is_dir && exists|k: int| 0 <= k < exclude.len() && contains_spec(name, #[trigger] exclude[k]))
    &&& !(name.len() > 0 && name[0] == '.' && !allowed_hidden(name))
}

/// Whether the walk enters an entry (see [`entry_allowed_spec`]).
pub fn entry_allowed(name: &str, is_dir: bool, exclude_dirs: &Vec<String>) -> (b: bool)
    ensures
        b == entry_allowed_spec(name@, is_dir, exclude_dirs@.map_values(|x: String| x@)),
{
    let ghost ex = exclude_dirs@.map_values(|x: String| x@);
    let cs = chars_of(name);
    if is_dir {
        let mut k: usize = 0;
        while k < exclude_dirs.len()
            invariant
                cs@ == name@,
                is_dir,
                ex == exclude_dirs@.map_values(|x: String| x@),
                0 <= k <= exclude_dirs@.len(),
                forall|j: int| 0 <= j < k ==> !contains_spec(name@, #[trigger] ex[j]),
            decreases exclude_dirs@.len() - k,
        {
            let p = chars_of(exclude_dirs[k].as_str());
            assert(ex[k as int] == p@);
            assert(cs@.subrange(0, cs@.len() as int) =~= cs@);
            if contains_in(&cs, 0, cs.len(), &p) {
                assert(contains_spec(name@, ex[k as int]));
                assert(ex.len() == exclude_dirs@.len());
                assert(!entry_allowed_spec(name@, is_dir, ex));
                return false;
            }
            k += 1;
        }
    }
    if cs.len() > 0 && cs[0] == '.' {
        let allowed = crate::text::str_eq(name, ".automation-rust.toml") || crate::text::str_eq(name, ".env.example")
            || crate::text::str_eq(name, ".gitignore");
        if !allowed {
            return false;
        }
    }
    true
}

/// The extensions of the files that the analysis reads.
pub open spec fn supported_extension(ext: Seq<char>) -> bool {
    ext == "rs"@ || ext == "toml"@ || ext == "md"@ || ext == "json"@ || ext == "yaml"@ || ext == "yml"@
        || ext == "sh"@ || ext == "ps1"@
}

/// Whether the analysis reads a file named `name`: its extension is supported.
pub fn is_supported_file(name: &str) -> (b: bool)
    ensures
        b == (crate::lock::split_at_last_dot(name@).1 matches Some(e) && supported_extension(e)),
{
    let (_, ext) = crate::lock::split_extension(name);
    match ext {
        Some(e) => {
            let e = e.as_str();
            crate::text::str_eq(e, "rs") || crate::text::str_eq(e, "toml") || crate::text::str_eq(e, "md")
                || crate::text::str_eq(e, "json") || crate::text::str_eq(e, "yaml") || crate::text::str_eq(e, "yml")
                || crate::text::str_eq(e, "sh") || crate::text::str_eq(e, "ps1")
        },
        None => false,
    }
}

/// The directory to analyze: the one given, else the workspace.
pub fn determine_analyze_dir(analyze_dir: Option<String>, workspace: &str) -> (d: String)
    ensures
        d@ == match analyze_dir {
            Some(a) => a@,
            None => workspace@,
        },
{
    match analyze_dir {
        Some(a) => a,
        None => workspace.to_string(),
    }
}

/// Where the report goes when no output is given: `./reports/code-review-<stamp>.md`.
pub fn default_report_path(stamp: &str) -> (p: String)
    ensures
        p@ == "./reports/code-review-"@ + stamp@ + ".md"@,
{
    let mut p = "./reports/code-review-".to_string();
    p.append(stamp);
    p.append(".md");
    p
}

/// Settings of the code review agent.
#[derive(Debug)]
pub struct CodeReviewConfig {
    pub workspace_path: String,
    pub state_dir: String,
    pub interval_minutes: u64,
    pub timeout_minutes: u64,
    pub immediate: bool,
}

/// The code review settings from the configuration file at `config_path`: the
/// resolved workspace, the state directory resolved against it (see
/// [`crate::bootstrap::state_dir_spec`]), and the schedule of the code review
/// section.
pub fn code_review_config(
    config_path: &str,
    workspace: String,
    state_path: &str,
    settings: &crate::workspace_config::AgentConfig,
) -> (c: CodeReviewConfig)
    ensures
        c.workspace_path@ == workspace@,
        c.state_dir@ == crate::bootstrap::state_dir_spec(config_path@, workspace@, state_path@),
        c.interval_minutes == settings.interval_minutes,
        c.timeout_minutes == settings.timeout_minutes,
        c.immediate == settings.immediate,
{
    let state_dir = crate::bootstrap::resolve_state_dir(config_path, workspace.as_str(), state_path);
    CodeReviewConfig {
        workspace_path: workspace,
        state_dir,
        interval_minutes: settings.interval_minutes,
        timeout_minutes: settings.timeout_minutes,
        immediate: settings.immediate,
    }
}


/// The abstract value of a list of files: path, line count, content.
pub open spec fn files_view(s: Seq<FileInfo>) -> Seq<(Seq<char>, usize, Seq<char>)> {
    s.map_values(|f: FileInfo| (f.path@, f.line_count, f.content@))
}

/// Whether files run from the longest to the shortest.
pub open spec fn longest_first(s: Seq<(Seq<char>, usize, Seq<char>)>) -> bool {
    forall|i: int, j: int| 0 <= i < j < s.len() ==> s[i].1 >= s[j].1
}

/// The line count of a file, by which files are ordered.
pub open spec fn by_line_count() -> spec_fn((Seq<char>, usize, Seq<char>)) -> int {
    |x: (Seq<char>, usize, Seq<char>)| x.1 as int
}

/// Orders files from the longest to the shortest; files of equal length keep
/// their order.
pub fn sort_longest_first(files: &Vec<FileInfo>) -> (r: Vec<FileInfo>)
    ensures
        stably_sorted_desc(files_view(r@), files_view(files@), by_line_count()),
        longest_first(files_view(r@)),
        files_view(r@).to_multiset() == files_view(files@).to_multiset(),
{
    broadcast use vstd::seq_lib::group_to_multiset_ensures;
    let mut r: Vec<FileInfo> = Vec::new();
    let mut k: usize = 0;
    proof {
        lemma_empty_is_stable(by_line_count());
        assert(files_view(r@) =~= Seq::<(Seq<char>, usize, Seq<char>)>::empty());
        assert(files_view(files@.subrange(0, 0)) =~= Seq::<(Seq<char>, usize, Seq<char>)>::empty());
    }
    while k < files.len()
        invariant
            0 <= k <= files@.len(),
            stably_sorted_desc(files_view(r@), files_view(files@.subrange(0, k as int)), by_line_count()),
            longest_first(files_view(r@)),
            files_view(r@).to_multiset() == files_view(files@.subrange(0, k as int)).to_multiset(),
        decreases files@.len() - k,
    {
        let x = files[k].clone();
        let t = x.line_count;
        let mut p: usize = 0;
        while p < r.len() && r[p].line_count >= t
            invariant
                0 <= p <= r@.len(),
                forall|i: int| 0 <= i < p ==> r@[i].line_count >= t,
            decreases r@.len() - p,
        {
            p += 1;
        }
        let ghost before = r@;
        r.insert(p, x);
        proof {
            let xv = (x.path@, x.line_count, x.content@);
            assert(files_view(r@) =~= files_view(before).insert(p as int, xv));
            assert(p < before.len() ==> before[p as int].line_count < t);
            assert forall|i: int, j: int| 0 <= i < j < files_view(r@).len() implies
                files_view(r@)[i].1 >= files_view(r@)[j].1 by {
                if j < p {
                    assert(files_view(before)[i].1 >= files_view(before)[j].1);
                } else if j == p {
                    assert(before[i].line_count >= t);
                } else if i < p {
                    assert(before[i].line_count >= t);
                    assert(files_view(before)[p as int].1 >= files_view(before)[j - 1].1);
                } else if i == p {
                    assert(files_view(before)[p as int].1 >= files_view(before)[j - 1].1);
                } else {
                    assert(files_view(before)[i - 1].1 >= files_view(before)[j - 1].1);
                }
            }
            assert(files@.subrange(0, k + 1) =~= files@.subrange(0, k as int).push(files@[k as int]));
            assert(files_view(files@.subrange(0, k + 1)) =~= files_view(files@.subrange(0, k as int)).push(xv));
            vstd::seq_lib::to_multiset_insert(files_view(before), p as int, xv);
            vstd::seq_lib::to_multiset_build(files_view(files@.subrange(0, k as int)), xv);
            assert forall|i: int| 0 <= i < p implies by_line_count()(files_view(before)[i]) >= by_line_count()(xv) by {
                assert(before[i].line_count >= t);
            }
            lemma_insert_keeps_stable(files_view(before), files_view(files@.subrange(0, k as int)), by_line_count(), p as int, xv);
        }
        k += 1;
    }
    assert(files@.subrange(0, files@.len() as int) =~= files@);
    r
}

/// The five longest files, longest first (files of equal length in their given
/// order).
pub fn longest_files(files: &Vec<FileInfo>) -> (r: Vec<FileInfo>)
    ensures
        exists|s: Seq<(Seq<char>, usize, Seq<char>)>| {
            &&& stably_sorted_desc(s, files_view(files@), by_line_count())
            &&& longest_first(s)
            &&& s.to_multiset() == files_view(files@).to_multiset()
            &&& files_view(r@) == #[trigger] crate::task_registry::take_at_most(s, 5)
        },
{
    let sorted = sort_longest_first(files);
    let mut r: Vec<FileInfo> = Vec::new();
    let n = if sorted.len() < 5 { sorted.len() } else { 5 };
    let mut i: usize = 0;
    while i < n
        invariant
            n <= sorted@.len(),
            n == (if sorted@.len() < 5 { sorted@.len() } else { 5 }),
            0 <= i <= n,
            files_view(r@) == files_view(sorted@).take(i as int),
        decreases n - i,
    {
        let f = sorted[i].clone();
        let ghost before = files_view(r@);
        r.push(f);
        assert(files_view(r@) =~= before.push(files_view(sorted@)[i as int]));
        assert(files_view(sorted@).take(i + 1) =~= files_view(sorted@).take(i as int).push(files_view(sorted@)[i as int]));
        i += 1;
    }
    assert(files_view(r@) =~= crate::task_registry::take_at_most(files_view(sorted@), 5));
    r
}

/// Every line of `lines`, among the first `k`, that holds `TODO:` or `FIXME:`
/// gives its issue.
proof fn lemma_todo_issues_cover(path: Seq<char>, lines: Seq<Seq<char>>, k: int, i: int)
    requires
        0 <= i < k <= lines.len(),
        contains_spec(lines[i], "TODO:"@) || contains_spec(lines[i], "FIXME:"@),
    ensures
        todo_issues(path, lines, k).contains(todo_issue(path, (i + 1) as usize, trim_spec(lines[i]))),
    decreases k,
{
    let x = todo_issue(path, (i + 1) as usize, trim_spec(lines[i]));
    let prev = todo_issues(path, lines, k - 1);
    if i == k - 1 {
        let whole = todo_issues(path, lines, k);
        assert(whole == prev + seq![x]);
        assert(whole[prev.len() as int] == x);
    } else {
        lemma_todo_issues_cover(path, lines, k - 1, i);
        let j = choose|j: int| 0 <= j < prev.len() && prev[j] == x;
        let whole = todo_issues(path, lines, k);
        assert(whole.subrange(0, prev.len() as int) =~= prev);
        assert(whole[j] == x);
    }
}

/// Unfinished work is reported: every line of a file that holds `TODO:` or
/// `FIXME:` gives an "Unfinished Work" issue numbered by that line (counting
/// from 1) and described by the trimmed line.
pub proof fn law_unfinished_work_is_reported(path: Seq<char>, line_count: usize, content: Seq<char>, i: int)
    requires
        0 <= i < lines_spec(content).len(),
        contains_spec(lines_spec(content)[i], "TODO:"@) || contains_spec(lines_spec(content)[i], "FIXME:"@),
    ensures
        file_issues(path, line_count, content).contains(
            issue(path, "Unfinished Work"@, trim_spec(lines_spec(content)[i]), Some((i + 1) as usize),
                "Address or update the TODO/FIXME comment"@)),
{
    let lines = lines_spec(content);
    lemma_todo_issues_cover(path, lines, lines.len() as int, i);
    let x = todo_issue(path, (i + 1) as usize, trim_spec(lines[i]));
    let t = todo_issues(path, lines, lines.len() as int);
    let a = per_line_issues(path, lines, lines.len() as int)
        + (if line_count > 400 { seq![long_file_issue(path, line_count)] } else { Seq::empty() });
    let rest = (if contains_spec(content, ".unwrap()"@) {
            let u = unwrap_issues(path, lines, lines.len() as int);
            if u.len() <= 3 { u } else { u.take(3) }
        } else {
            Seq::empty()
        })
        + (if has_suffix(path, ".rs"@) { doc_issues(path, lines, lines.len() as int) } else { Seq::empty() });
    let whole = file_issues(path, line_count, content);
    assert(whole =~= a + t + rest);
    let j = choose|j: int| 0 <= j < t.len() && t[j] == x;
    assert(whole[a.len() + j] == x);
}

/// A block made only of blank lines and lines that start (after white space)
/// with a common pattern is common boilerplate.
pub proof fn law_blank_and_pattern_lines_are_boilerplate(block: Seq<char>)
    requires
        forall|j: int| 0 <= j < lines_spec(block).len() ==> {
            let t = #[trigger] trim_spec(lines_spec(block)[j]);
            t.len() == 0 || exists|k: int| 0 <= k < common_patterns().len() && has_prefix(t, #[trigger] common_patterns()[k])
        },
    ensures
        is_common_pattern_spec(block),
{
    assert forall|j: int| 0 <= j < lines_spec(block).len() implies is_boilerplate_line(#[trigger] lines_spec(block)[j]) by {
        let t = trim_spec(lines_spec(block)[j]);
        if t.len() != 0 {
            let k = choose|k: int| 0 <= k < common_patterns().len() && has_prefix(t, #[trigger] common_patterns()[k]);
            assert(has_prefix(trim_spec(lines_spec(block)[j]), common_patterns()[k]));
        }
    }
}

/// Whether `part` occurs as a contiguous piece of `whole`.
pub open spec fn occurs_in(part: Seq<char>, whole: Seq<char>) -> bool {
    exists|a: int| 0 <= a && a + part.len() <= whole.len() && #[trigger] whole.subrange(a, a + part.len()) == part
}

proof fn lemma_occurs_in_context(part: Seq<char>, x: Seq<char>, y: Seq<char>, z: Seq<char>)
    requires
        occurs_in(part, x),
    ensures
        occurs_in(part, y + x + z),
{
    let a = choose|a: int| 0 <= a && a + part.len() <= x.len() && #[trigger] x.subrange(a, a + part.len()) == part;
    let w = y + x + z;
    let b = y.len() + a;
    assert(w.subrange(b, b + part.len()) =~= x.subrange(a, a + part.len()));
}

proof fn lemma_occurs_whole(part: Seq<char>)
    ensures
        occurs_in(part, part),
{
    let a: int = 0;
    assert(part.subrange(a, a + part.len()) =~= part);
}

proof fn lemma_entries_hold_entry(g: Seq<IssueView>, k: int, j: int)
    requires
        0 <= j < k <= g.len(),
    ensures
        occurs_in(issue_entry(g[j]), issue_entries(g, k)),
    decreases k,
{
    let prev = issue_entries(g, k - 1);
    let e = issue_entry(g[k - 1]);
    assert(issue_entries(g, k) == prev + e);
    if j == k - 1 {
        lemma_occurs_whole(e);
        lemma_occurs_in_context(e, e, prev, Seq::empty());
        assert(prev + e + Seq::<char>::empty() =~= prev + e);
    } else {
        lemma_entries_hold_entry(g, k - 1, j);
        lemma_occurs_in_context(issue_entry(g[j]), prev, Seq::empty(), e);
        assert(Seq::<char>::empty() + prev + e =~= prev + e);
    }
}

proof fn lemma_group_holds_entry(issues: Seq<IssueView>, ty: Seq<char>, j: int)
    requires
        0 <= j < issues.len(),
        issues[j].issue_type == ty,
    ensures
        occurs_in(issue_entry(issues[j]), issue_group(issues, ty)),
{
    let g = issues.filter(of_type(ty));
    issues.lemma_filter_contains(of_type(ty), j);
    let m = choose|m: int| 0 <= m < g.len() && g[m] == issues[j];
    lemma_entries_hold_entry(g, g.len() as int, m);
    let head = "### "@ + ty + " ("@ + decimal(g.len()) + ")\n\n"@;
    lemma_occurs_in_context(issue_entry(issues[j]), issue_entries(g, g.len() as int), head, Seq::empty());
    assert(head + issue_entries(g, g.len() as int) + Seq::<char>::empty() =~= issue_group(issues, ty));
}

proof fn lemma_groups_hold_entry(issues: Seq<IssueView>, k: int, t: int, j: int)
    requires
        0 <= t < k <= report_issue_types().len(),
        0 <= j < issues.len(),
        issues[j].issue_type == report_issue_types()[t],
    ensures
        occurs_in(issue_entry(issues[j]), issue_groups(issues, k)),
    decreases k,
{
    let prev = issue_groups(issues, k - 1);
    let last = issue_group(issues, report_issue_types()[k - 1]);
    assert(issue_groups(issues, k) == prev + last);
    if t == k - 1 {
        lemma_group_holds_entry(issues, report_issue_types()[t], j);
        lemma_occurs_in_context(issue_entry(issues[j]), last, prev, Seq::empty());
        assert(prev + last + Seq::<char>::empty() =~= prev + last);
    } else {
        lemma_groups_hold_entry(issues, k - 1, t, j);
        lemma_occurs_in_context(issue_entry(issues[j]), prev, Seq::empty(), last);
        assert(Seq::<char>::empty() + prev + last =~= prev + last);
    }
}

/// Every design issue whose type is one of the report's types appears in the
/// design issues section of the report, as its entry (location, description
/// and recommendation).
pub proof fn law_every_reported_type_issue_appears(issues: Seq<IssueView>, j: int)
    requires
        0 <= j < issues.len(),
        report_issue_types().contains(issues[j].issue_type),
    ensures
        occurs_in(
            "#### ["@ + issues[j].file_path + "]:["@ + (match issues[j].line_number {
                Some(n) => decimal(n as nat),
                None => "multiple"@,
            }) + "]\n\n"@ + "- **Issue:** "@ + issues[j].description + "\n"@ + "- **Recommendation:** "@
                + issues[j].recommendation + "\n"@ + "\n"@,
            report_issues(issues),
        ),
{
    let t = choose|t: int| 0 <= t < report_issue_types().len() && report_issue_types()[t] == issues[j].issue_type;
    lemma_groups_hold_entry(issues, 8, t, j);
    let head = "## 3. Design Issues\n\n"@;
    lemma_occurs_in_context(issue_entry(issues[j]), issue_groups(issues, 8), head, Seq::empty());
    assert(head + issue_groups(issues, 8) + Seq::<char>::empty() =~= report_issues(issues));
}

} // verus!
