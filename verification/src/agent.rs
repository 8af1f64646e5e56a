//! Preparing the run of one stage by an outside program, and checking what
//! the run has changed.

use vstd::prelude::*;
use crate::task::{stage_name, stages_of, string_views, Stage, Task, TaskRecord, TaskType};
use crate::text::{
    chars_of, contains, contains_seq, first_index_of, matches_at, occurs_at, push_all,
    push_str, replace_all, replaced, slice_of, string_of,
};

verus! {

/// What the run of a stage left behind.
#[derive(Debug)]
pub struct AgentResult {
    pub exit_code: i32,
    pub log_file: String,
    pub model: &'static str,
}

/// The directory of the logs.
pub open spec fn log_dir() -> Seq<char> {
    "var/agent-logs"@
}

impl Stage {
    /// The model that runs the stage: the stages that write tests or code
    /// get the larger one.
    pub fn model(self) -> (r: &'static str)
        ensures
            r@ == (match self {
                Stage::Reproduce | Stage::Design | Stage::Verify => "sonnet"@,
                Stage::Test | Stage::Fix | Stage::Impl => "opus"@,
            }),
    {
        match self {
            Stage::Reproduce | Stage::Design | Stage::Verify => "sonnet",
            Stage::Test | Stage::Fix | Stage::Impl => "opus",
        }
    }

    /// The file that holds the instructions for the stage of a task of the
    /// kind `task_type`. The stage has to be one of that kind of task.
    pub fn template(self, task_type: TaskType) -> (r: &'static str)
        requires
            stages_of(task_type).contains(self),
        ensures
            r@ == (match (task_type, self) {
                (_, Stage::Verify) => "verify.md"@,
                (TaskType::Bug, Stage::Reproduce) => "bug-reproduce.md"@,
                (TaskType::Bug, Stage::Test) => "bug-test.md"@,
                (TaskType::Bug, Stage::Fix) => "bug-fix.md"@,
                (TaskType::Feature, Stage::Design) => "feature-design.md"@,
                (TaskType::Feature, Stage::Test) => "feature-test.md"@,
                (_, _) => "feature-impl.md"@,
            }),
    {
        proof {
            let order = stages_of(task_type);
            let i = choose|i: int| 0 <= i < order.len() && order[i] == self;
            assert(order[i] == self);
        }
        match (task_type, self) {
            (_, Stage::Verify) => "verify.md",
            (TaskType::Bug, Stage::Reproduce) => "bug-reproduce.md",
            (TaskType::Bug, Stage::Test) => "bug-test.md",
            (TaskType::Bug, Stage::Fix) => "bug-fix.md",
            (TaskType::Feature, Stage::Design) => "feature-design.md",
            (TaskType::Feature, Stage::Test) => "feature-test.md",
            (_, _) => "feature-impl.md",
        }
    }

    /// Whether the stage is one of the kind of task `task_type`.
    pub fn belongs_to(self, task_type: TaskType) -> (r: bool)
        ensures
            r == stages_of(task_type).contains(self),
    {
        let r = match (task_type, self) {
            (_, Stage::Verify) | (_, Stage::Test) => true,
            (TaskType::Bug, Stage::Reproduce) | (TaskType::Bug, Stage::Fix) => true,
            (TaskType::Feature, Stage::Design) | (TaskType::Feature, Stage::Impl) => true,
            _ => false,
        };
        proof {
            let order = stages_of(task_type);
            if r {
                assert(order[0] == self || order[1] == self || order[2] == self || order[3]
                    == self);
            }
        }
        r
    }
}

/// Strings joined with `separator` between them.
pub open spec fn joined_with(parts: Seq<Seq<char>>, separator: Seq<char>, n: int) -> Seq<char>
    decreases n,
{
    if n <= 0 {
        Seq::empty()
    } else if n == 1 {
        parts[0]
    } else {
        joined_with(parts, separator, n - 1) + separator + parts[n - 1]
    }
}

/// Joins strings with `separator` between them.
pub fn join_strings(parts: &Vec<String>, separator: &str) -> (r: Vec<char>)
    ensures
        r@ == joined_with(string_views(parts@), separator@, parts@.len() as int),
{
    let ghost views = string_views(parts@);
    let mut out: Vec<char> = Vec::new();
    let mut i: usize = 0;
    while i < parts.len()
        invariant
            i <= parts.len(),
            views == string_views(parts@),
            out@ == joined_with(views, separator@, i as int),
        decreases parts.len() - i,
    {
        assert(views[i as int] == parts@[i as int]@);
        if i > 0 {
            push_str(&mut out, separator);
        }
        push_str(&mut out, parts[i].as_str());
        assert(out@ =~= joined_with(views, separator@, i + 1));
        i += 1;
    }
    out
}

/// The instructions of a stage with the task filled in: each of the marks
/// for the id, the title, the description, the files and the kind of the
/// task is replaced, in this order.
pub open spec fn filled_in(template: Seq<char>, task: TaskRecord) -> Seq<char> {
    replaced(
        replaced(
            replaced(
                replaced(replaced(template, "{{id}}"@, task.id), "{{title}}"@, task.title),
                "{{description}}"@,
                task.description,
            ),
            "{{context_files}}"@,
            joined_with(task.context_files, ", "@, task.context_files.len() as int),
        ),
        "{{type}}"@,
        match task.task_type {
            TaskType::Bug => "bug"@,
            TaskType::Feature => "feature"@,
        },
    )
}

/// What the outside program is told: the preamble, a rule, and the
/// instructions of the stage with the task filled in.
pub open spec fn prompt_of(preamble: Seq<char>, template: Seq<char>, task: TaskRecord) -> Seq<char> {
    preamble + "\n\n---\n\n"@ + filled_in(template, task)
}

/// Composes what the outside program is told for one stage of a task.
pub fn compose_prompt(preamble: &str, template: &str, task: &Task) -> (r: String)
    ensures
        r@ == prompt_of(preamble@, template@, task@),
{
    let files = join_strings(&task.context_files, ", ");
    let a = replace_all(&chars_of(template), &chars_of("{{id}}"), &chars_of(task.id.as_str()));
    let b = replace_all(&a, &chars_of("{{title}}"), &chars_of(task.title.as_str()));
    let c = replace_all(&b, &chars_of("{{description}}"), &chars_of(task.description.as_str()));
    let d = replace_all(&c, &chars_of("{{context_files}}"), &files);
    let e = replace_all(&d, &chars_of("{{type}}"), &chars_of(task.task_type.name()));
    let mut out = chars_of(preamble);
    push_str(&mut out, "\n\n---\n\n");
    push_all(&mut out, &e);
    string_of(&out)
}

/// The file that takes the output of a stage of a task.
pub fn log_file(task_id: &str, stage: Stage) -> (r: String)
    ensures
        r@ == log_dir() + "/"@ + task_id@ + "-"@ + stage_name(stage) + ".log"@,
{
    let mut out = chars_of("var/agent-logs");
    push_str(&mut out, "/");
    push_str(&mut out, task_id);
    push_str(&mut out, "-");
    push_str(&mut out, stage.name());
    push_str(&mut out, ".log");
    string_of(&out)
}

/// The file that keeps what the outside program was told.
pub fn prompt_file(task_id: &str, stage: Stage) -> (r: String)
    ensures
        r@ == log_dir() + "/"@ + task_id@ + "-"@ + stage_name(stage) + ".prompt.md"@,
{
    let mut out = chars_of("var/agent-logs");
    push_str(&mut out, "/");
    push_str(&mut out, task_id);
    push_str(&mut out, "-");
    push_str(&mut out, stage.name());
    push_str(&mut out, ".prompt.md");
    string_of(&out)
}

/// Whether a stage may reach the network: only the stages that reproduce
/// and test, and only for a task that allows it.
pub fn network_allowed(task: &Task, stage: Stage) -> (r: bool)
    ensures
        r == (task.allow_network && (stage == Stage::Reproduce || stage == Stage::Test)),
{
    task.allow_network && matches!(stage, Stage::Reproduce | Stage::Test)
}

/// The parts of addresses that no added line may hold: they would let a
/// test reach a real service.
pub open spec fn forbidden_patterns() -> Seq<Seq<char>> {
    seq![
        "://qobuz.com"@,
        "://bandcamp.com"@,
        "://akamaized.net"@,
        "://popplers5"@,
        "://bcbits.com"@,
        ".qobuz.com/"@,
        ".bandcamp.com/"@,
        ".akamaized.net/"@,
        ".bcbits.com/"@,
    ]
}

/// The forbidden parts of addresses.
pub fn forbidden() -> (r: Vec<Vec<char>>)
    ensures
        r@.map_values(|p: Vec<char>| p@) == forbidden_patterns(),
{
    let mut r: Vec<Vec<char>> = Vec::new();
    r.push(chars_of("://qobuz.com"));
    r.push(chars_of("://bandcamp.com"));
    r.push(chars_of("://akamaized.net"));
    r.push(chars_of("://popplers5"));
    r.push(chars_of("://bcbits.com"));
    r.push(chars_of(".qobuz.com/"));
    r.push(chars_of(".bandcamp.com/"));
    r.push(chars_of(".akamaized.net/"));
    r.push(chars_of(".bcbits.com/"));
    assert(r@.map_values(|p: Vec<char>| p@) =~= forbidden_patterns());
    r
}

/// A line without the carriage return that may end it.
pub open spec fn without_cr(line: Seq<char>) -> Seq<char> {
    if line.len() > 0 && line.last() == '\r' {
        line.drop_last()
    } else {
        line
    }
}

/// The lines of a text. A line ends with a line feed, or with a carriage
/// return and a line feed, neither of which belongs to it; what follows the
/// last line feed is a line unless it is empty.
pub open spec fn lines_of(text: Seq<char>) -> Seq<Seq<char>>
    decreases text.len(),
{
    let k = first_index_of(text, '\n');
    if text.len() == 0 {
        Seq::empty()
    } else if k < 0 || k >= text.len() {
        seq![text]
    } else {
        seq![without_cr(text.take(k))] + lines_of(text.skip(k + 1))
    }
}

/// Splits a text into its lines.
pub fn split_lines(text: &Vec<char>) -> (lines: Vec<Vec<char>>)
    ensures
        lines@.map_values(|l: Vec<char>| l@) == lines_of(text@),
{
    let mut lines: Vec<Vec<char>> = Vec::new();
    let mut start: usize = 0;
    assert(text@.skip(0) =~= text@);
    while start < text.len()
        invariant
            start <= text.len(),
            lines_of(text@) == lines@.map_values(|l: Vec<char>| l@) + lines_of(
                text@.skip(start as int),
            ),
        decreases text.len() - start,
    {
        let ghost rest = text@.skip(start as int);
        let ghost before = lines@.map_values(|l: Vec<char>| l@);
        let mut end: usize = start;
        assert(rest.skip(0) =~= rest);
        while end < text.len() && text[end] != '\n'
            invariant
                start <= end <= text.len(),
                rest == text@.skip(start as int),
                first_index_of(rest, '\n') == (end - start) + first_index_of(
                    rest.skip(end - start),
                    '\n',
                ),
            decreases text.len() - end,
        {
            assert(rest.skip(end - start).drop_first() =~= rest.skip(end - start + 1));
            end += 1;
        }
        proof {
            if end < text.len() {
                assert(rest.skip(end - start)[0] == '\n');
            } else {
                assert(rest.skip(end - start).len() == 0);
            }
            assert(first_index_of(rest, '\n') == end - start);
        }
        if end >= text.len() {
            let line = slice_of(text, start, text.len());
            assert(line@ =~= rest);
            lines.push(line);
            proof {
                assert(lines@.map_values(|l: Vec<char>| l@) =~= before.push(rest));
                assert(text@.skip(text@.len() as int).len() == 0);
                assert(before + seq![rest] =~= lines@.map_values(|l: Vec<char>| l@) + lines_of(
                    text@.skip(text@.len() as int),
                ));
            }
            start = text.len();
        } else {
            let stop: usize = if end > start && text[end - 1] == '\r' {
                (end - 1) as usize
            } else {
                end
            };
            let line = slice_of(text, start, stop);
            proof {
                assert(rest.take(end - start) =~= text@.subrange(start as int, end as int));
                assert(line@ =~= without_cr(rest.take(end - start)));
                assert(rest.skip(end - start + 1) =~= text@.skip(end + 1));
            }
            lines.push(line);
            proof {
                assert(lines@.map_values(|l: Vec<char>| l@) =~= before.push(line@));
                assert(before + (seq![line@] + lines_of(text@.skip(end + 1))) =~= lines@.map_values(
                    |l: Vec<char>| l@,
                ) + lines_of(text@.skip(end + 1)));
            }
            start = end + 1;
        }
    }
    assert(lines@.map_values(|l: Vec<char>| l@) + lines_of(text@.skip(text@.len() as int))
        =~= lines@.map_values(|l: Vec<char>| l@));
    lines
}

/// Whether a changed file is one that is checked: a test, or a file kept
/// beside the tasks.
pub open spec fn is_guarded(path: Seq<char>) -> bool {
    occurs_at(path, "tests/"@, 0) || occurs_at(path, "var/"@, 0)
}

/// What opens the line of a patch that names the changed file.
pub open spec fn file_header() -> Seq<char> {
    "+++ b/"@
}

/// The report of one forbidden part found in a line added to `file`.
pub open spec fn violation_of(file: Seq<char>, pattern: Seq<char>) -> Seq<char> {
    file + ": added line contains '"@ + pattern + "'"@
}

/// The reports for the first `n` forbidden parts that the added line
/// `added` holds, in the order of the parts.
pub open spec fn violations_in(file: Seq<char>, added: Seq<char>, n: int) -> Seq<Seq<char>>
    decreases n,
{
    if n <= 0 {
        Seq::empty()
    } else if contains_seq(added, forbidden_patterns()[n - 1]) {
        violations_in(file, added, n - 1).push(violation_of(file, forbidden_patterns()[n - 1]))
    } else {
        violations_in(file, added, n - 1)
    }
}

/// Where the scan stands after the first `n` lines of a patch: the
/// changed file that it is in, if that is one that is checked, and the
/// reports so far.
pub open spec fn checked_upto(lines: Seq<Seq<char>>, n: int) -> (Option<Seq<char>>, Seq<Seq<char>>)
    decreases n,
{
    if n <= 0 {
        (None, Seq::empty())
    } else {
        let (file, found) = checked_upto(lines, n - 1);
        let line = lines[n - 1];
        if occurs_at(line, file_header(), 0) {
            (
                if is_guarded(line.skip(6)) {
                    Some(line.skip(6))
                } else {
                    None
                },
                found,
            )
        } else if file is Some && line.len() > 0 && line[0] == '+' {
            (file, found + violations_in(file->0, line.skip(1), 9))
        } else {
            (file, found)
        }
    }
}

/// The reports for a patch: one for each forbidden part in each line
/// added to a checked file.
pub open spec fn diff_violations(diff: Seq<char>) -> Seq<Seq<char>> {
    checked_upto(lines_of(diff), lines_of(diff).len() as int).1
}

/// Checks the lines that a patch adds to tests and to files kept beside
/// the tasks for addresses of real services, and reports each one found.
pub fn scan_diff(diff: &str) -> (violations: Vec<String>)
    ensures
        violations@.map_values(|v: String| v@) == diff_violations(diff@),
{
    let lines = split_lines(&chars_of(diff));
    let patterns = forbidden();
    let header = chars_of("+++ b/");
    let tests = chars_of("tests/");
    let var = chars_of("var/");
    let ghost all = lines@.map_values(|l: Vec<char>| l@);
    let mut violations: Vec<String> = Vec::new();
    let mut file: Option<Vec<char>> = None;
    let mut n: usize = 0;
    proof {
        reveal_strlit("+++ b/");
        assert(violations@.map_values(|v: String| v@) =~= Seq::empty());
    }
    while n < lines.len()
        invariant
            n <= lines.len(),
            all == lines@.map_values(|l: Vec<char>| l@),
            patterns@.map_values(|p: Vec<char>| p@) == forbidden_patterns(),
            header@ == file_header(),
            header@.len() == 6,
            tests@ == "tests/"@,
            var@ == "var/"@,
            checked_upto(all, n as int).1 == violations@.map_values(|v: String| v@),
            match file {
                Some(path) => checked_upto(all, n as int).0 == Some(path@),
                None => checked_upto(all, n as int).0 is None,
            },
        decreases lines.len() - n,
    {
        let line = &lines[n];
        assert(all[n as int] == line@);
        if matches_at(line, &header, 0) {
            let path = slice_of(line, 6, line.len());
            assert(path@ =~= line@.skip(6));
            if matches_at(&path, &tests, 0) || matches_at(&path, &var, 0) {
                file = Some(path);
            } else {
                file = None;
            }
        } else if line.len() > 0 && line[0] == '+' {
            match &file {
                Some(path) => {
                    let added = slice_of(line, 1, line.len());
                    assert(added@ =~= line@.skip(1));
                    let ghost before = violations@.map_values(|v: String| v@);
                    let mut k: usize = 0;
                    assert(patterns@.len() == 9) by {
                        assert(patterns@.map_values(|p: Vec<char>| p@).len() == 9);
                    }
                    while k < patterns.len()
                        invariant
                            k <= patterns.len() == 9,
                            patterns@.map_values(|p: Vec<char>| p@) == forbidden_patterns(),
                            violations@.map_values(|v: String| v@) == before + violations_in(
                                path@,
                                added@,
                                k as int,
                            ),
                        decreases patterns.len() - k,
                    {
                        assert(patterns@.map_values(|p: Vec<char>| p@)[k as int] == patterns@[k as int]@);
                        if contains(&added, &patterns[k]) {
                            let mut text: Vec<char> = Vec::new();
                            push_all(&mut text, path);
                            push_str(&mut text, ": added line contains '");
                            push_all(&mut text, &patterns[k]);
                            push_str(&mut text, "'");
                            assert(text@ =~= violation_of(path@, patterns@[k as int]@));
                            let ghost sofar = violations@.map_values(|v: String| v@);
                            let report = string_of(&text);
                            violations.push(report);
                            assert(violations@.map_values(|v: String| v@) =~= sofar.push(report@));
                        }
                        assert(violations@.map_values(|v: String| v@) =~= before + violations_in(
                            path@,
                            added@,
                            k + 1,
                        ));
                        k += 1;
                    }
                },
                None => {},
            }
        }
        n += 1;
    }
    violations
}

} // verus!
