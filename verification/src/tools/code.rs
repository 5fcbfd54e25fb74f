//! Editing files, and working with git.
use vstd::prelude::*;

use crate::numbers::{dec, decimal};
use crate::paths::{parent_of, parent_path};
use crate::text::{
    cat, cat3, cat4, cat5, char_count, chars_of, find, first_chars, first_match, has,
    lemma_first_match, line_list, lines, owned, replaced, stands_at, string_of, take_chars, texts, trim,
    trimmed,
};
use crate::value::{lemma_lookup_push, no_fields, Data, Fields, Json};

use super::filesystem::{resolve_path, resolved_path};
use super::{ResultView, ToolContext, ToolError, ToolResult};

verus! {

/// How often a text, which is not empty, stands in another, counted from the
/// left and without overlaps.
pub open spec fn occurrences(s: Seq<char>, p: Seq<char>) -> nat
    decreases s.len(),
{
    if p.len() == 0 {
        0
    } else {
        match first_match(s, p) {
            Some(k) => if 0 <= k && k + p.len() <= s.len() {
                1 + occurrences(s.skip(k + p.len()), p)
            } else {
                0
            },
            None => 0,
        }
    }
}

/// How often a text stands in another.
fn count_occurrences(s: &Vec<char>, p: &Vec<char>) -> (n: usize)
    requires
        p@.len() > 0,
    ensures
        n == occurrences(s@, p@),
        n <= s@.len(),
{
    let mut n: usize = 0;
    let mut from: usize = 0;
    let mut rest = string_of(s, 0, s.len());
    let mut tail = chars_of(rest.as_str());
    proof {
        assert(tail@ =~= s@.skip(0));
        assert(s@.skip(0) =~= s@);
    }
    loop
        invariant
            from <= s@.len(),
            n <= from,
            p@.len() > 0,
            tail@ == s@.skip(from as int),
            occurrences(s@, p@) == n + occurrences(tail@, p@),
        ensures
            n == occurrences(s@, p@),
            n <= s@.len(),
        decreases s@.len() - from,
    {
        match find(&tail, p) {
            Some(k) => {
                let total: usize = s.len();
                let left: usize = tail.len();
                proof {
                    assert(k + p@.len() <= left <= total - from);
                }
                let step: usize = k + p.len();
                let ghost before = tail@;
                from = from + step;
                n = n + 1;
                rest = string_of(s, from, s.len());
                tail = chars_of(rest.as_str());
                proof {
                    assert(tail@ =~= s@.skip(from as int));
                    assert(before.skip(step as int) =~= s@.skip(from as int));
                }
            },
            None => {
                break;
            },
        }
    }
    n
}

/// A text with its first occurrence of another replaced.
pub open spec fn replaced_first(s: Seq<char>, old_text: Seq<char>, new_text: Seq<char>) -> Seq<char> {
    match first_match(s, old_text) {
        Some(k) => s.take(k) + new_text + s.skip(k + old_text.len()),
        None => s,
    }
}

/// What an edit comes to: the new text of the file where it is changed, and the
/// result.
pub struct EditView {
    pub updated: Option<Seq<char>>,
    pub result: ResultView,
}

/// What an edit comes to. An empty old text means that the new one is appended;
/// otherwise the old text must occur exactly once.
pub open spec fn edited(
    path: Seq<char>,
    old_text: Seq<char>,
    new_text: Seq<char>,
    content: Seq<char>,
) -> EditView {
    let n = occurrences(content, old_text);
    if old_text.len() > 0 && n == 0 {
        EditView {
            updated: None,
            result: ResultView {
                success: false,
                content: "old_string not found in "@ + path + " ("@ + dec(content.len())
                    + " chars searched). Use read_file first to see exact contents."@,
                metadata: None,
            },
        }
    } else if old_text.len() > 0 && n > 1 {
        EditView {
            updated: None,
            result: ResultView {
                success: false,
                content: "old_string found "@ + dec(n) + " times in "@ + path
                    + ". Include more surrounding context to make it unique."@,
                metadata: None,
            },
        }
    } else {
        EditView {
            updated: Some(
                if old_text.len() == 0 {
                    content + new_text
                } else {
                    replaced_first(content, old_text, new_text)
                },
            ),
            result: ResultView {
                success: true,
                content: "Edited "@ + path + ": replaced "@ + dec(old_text.len()) + " chars with "@
                    + dec(new_text.len()) + " chars ("@ + dec(line_list(content).len())
                    + " line total)."@,
                metadata: Some(Json::Table(no_fields().push(("path"@, Json::Str(path))))),
            },
        }
    }
}

/// An edit that is made takes out one occurrence of the old text, of which there
/// is no other, and puts the new one in its place; nothing else changes.
pub proof fn edit_changes_one_place(
    path: Seq<char>,
    old_text: Seq<char>,
    new_text: Seq<char>,
    content: Seq<char>,
)
    requires
        old_text.len() > 0,
    ensures
        edited(path, old_text, new_text, content).updated matches Some(updated) ==> exists|
            a: Seq<char>,
            b: Seq<char>,
        |
            content == #[trigger] (a + old_text + b) && updated == a + new_text + b && has(b, old_text)
                == false && occurrences(content, old_text) == 1,
        edited(path, old_text, new_text, content).updated is Some == (occurrences(
            content,
            old_text,
        ) == 1),
{
    lemma_first_match(content, old_text);
    match first_match(content, old_text) {
        Some(k) => {
            let a = content.take(k);
            let b = content.skip(k + old_text.len());
            assert(content.subrange(k, k + old_text.len()) == old_text);
            assert(content =~= a + old_text + b);
            lemma_first_match(b, old_text);
            if occurrences(content, old_text) == 1 {
                assert(occurrences(b, old_text) == 0);
                match first_match(b, old_text) {
                    Some(j) => {
                        assert(occurrences(b, old_text) >= 1);
                    },
                    None => {},
                }
            }
        },
        None => {},
    }
}

/// A find-and-replace edit of a file.
#[derive(Debug)]
pub struct EditPlan {
    pub path: String,
    pub file: String,
    pub old_string: String,
    pub new_string: String,
}

/// What an edit comes to.
#[derive(Debug)]
pub struct Edit {
    pub updated: Option<String>,
    pub result: ToolResult,
}

impl View for Edit {
    type V = EditView;

    open spec fn view(&self) -> EditView {
        EditView { updated: crate::text::opt(self.updated), result: self.result@ }
    }
}

/// Applies a find-and-replace edit to a file.
pub struct EditFileTool;

impl EditFileTool {
    /// What is replaced by what, and in which file.
    pub fn plan(ctx: &ToolContext, input: &Data) -> (r: Result<EditPlan, ToolError>)
        ensures
            match input@.at("path"@).text() {
                None => r matches Err(e) && e.message@ == "Missing required parameter: path"@,
                Some(path) => match input@.at("new_string"@).text() {
                    None => r matches Err(e) && e.message@
                        == "Missing required parameter: new_string"@,
                    Some(new_string) => r matches Ok(p) && p.path@ == path && p.file@
                        == resolved_path(*ctx, path) && p.new_string@ == new_string && p.old_string@
                        == input@.at("old_string"@).text_or_empty(),
                },
            },
            r matches Ok(p) ==> is_edit_plan(p, *ctx, input@),
    {
        let path = match input.str_at("path") {
            Some(s) => owned(s),
            None => {
                return Err(ToolError::new("Missing required parameter: path"));
            },
        };
        match input.str_at("new_string") {
            Some(s) => Ok(
                EditPlan {
                    file: resolve_path(ctx, path.as_str()),
                    path,
                    old_string: input.text_at("old_string"),
                    new_string: owned(s),
                },
            ),
            None => Err(ToolError::new("Missing required parameter: new_string")),
        }
    }

    /// What the edit comes to, where the file holds that text.
    pub fn apply(plan: &EditPlan, content: &str) -> (r: Edit)
        ensures
            r@ == edited(plan.path@, plan.old_string@, plan.new_string@, content@),
    {
        let path = plan.path.as_str();
        let v = chars_of(content);
        let p = chars_of(plan.old_string.as_str());
        let updated = if p.len() == 0 {
            cat(content, plan.new_string.as_str())
        } else {
            let n = count_occurrences(&v, &p);
            if n == 0 {
                return Edit {
                    updated: None,
                    result: ToolResult {
                        success: false,
                        content: cat5(
                            "old_string not found in ",
                            path,
                            " (",
                            decimal(v.len() as u64).as_str(),
                            " chars searched). Use read_file first to see exact contents.",
                        ),
                        metadata: None,
                    },
                };
            }
            if n > 1 {
                return Edit {
                    updated: None,
                    result: ToolResult {
                        success: false,
                        content: cat5(
                            "old_string found ",
                            decimal(n as u64).as_str(),
                            " times in ",
                            path,
                            ". Include more surrounding context to make it unique.",
                        ),
                        metadata: None,
                    },
                };
            }
            match find(&v, &p) {
                Some(k) => {
                    let total: usize = v.len();
                    proof {
                        assert(k + p@.len() <= total);
                    }
                    let a = string_of(&v, 0, k);
                    let b = string_of(&v, k + p.len(), v.len());
                    proof {
                        assert(a@ =~= content@.take(k as int));
                        assert(b@ =~= content@.skip(k + p@.len()));
                    }
                    cat3(a.as_str(), plan.new_string.as_str(), b.as_str())
                },
                None => owned(content),
            }
        };
        let rows = lines(content);
        proof {
            assert(line_list(content@).len() == rows@.len()) by {
                assert(texts(rows@).len() == rows@.len());
            }
        }
        let mut text = cat5(
            "Edited ",
            path,
            ": replaced ",
            decimal(p.len() as u64).as_str(),
            " chars with ",
        );
        text.append(decimal(char_count(plan.new_string.as_str()) as u64).as_str());
        text.append(" chars (");
        text.append(decimal(rows.len() as u64).as_str());
        text.append(" line total).");
        let mut f = Fields::new();
        f.put_str("path", path);
        Edit {
            updated: Some(updated),
            result: ToolResult { success: true, content: text, metadata: Some(f.done()) },
        }
    }
}

/// A repository, or a file in it, that the input names: nothing where it names
/// none.
pub open spec fn repo_param(ctx: ToolContext, input: Json) -> Option<Seq<char>> {
    match input.at("path"@).text() {
        Some(p) => Some(resolved_path(ctx, p)),
        None => None,
    }
}

/// A repository, or a file in it, that the input names.
pub fn repo_dir(ctx: &ToolContext, input: &Data) -> (r: Option<String>)
    ensures
        crate::text::opt(r) == repo_param(*ctx, input@),
{
    match input.str_at("path") {
        Some(p) => Some(resolve_path(ctx, p)),
        None => None,
    }
}

/// The directory that git runs in: the one that is named, or the one that the named
/// file lies in, else the working directory.
pub open spec fn git_place(
    named: Option<Seq<char>>,
    is_file: bool,
    cwd: Option<Seq<char>>,
) -> Result<Seq<char>, Seq<char>> {
    match named {
        Some(path) => if is_file {
            match parent_of(path) {
                Some(dir) => Ok(dir),
                None => Err("Could not determine directory from path"@),
            }
        } else {
            Ok(path)
        },
        None => match cwd {
            Some(dir) => Ok(dir),
            None => Err("Failed to resolve current directory"@),
        },
    }
}

/// The directory that git runs in. `is_file` is whether the path that is named is
/// that of a file; `cwd` is the working directory, where there is one.
pub fn git_dir(named: Option<&str>, is_file: bool, cwd: Option<&str>) -> (r: Result<
    String,
    ToolError,
>)
    ensures
        match git_place(
            match named {
                Some(s) => Some(s@),
                None => None,
            },
            is_file,
            match cwd {
                Some(s) => Some(s@),
                None => None,
            },
        ) {
            Ok(dir) => r matches Ok(s) && s@ == dir,
            Err(message) => r matches Err(e) && e.message@ == message,
        },
{
    match named {
        Some(path) => if is_file {
            match parent_path(path) {
                Some(dir) => Ok(dir),
                None => Err(ToolError::new("Could not determine directory from path")),
            }
        } else {
            Ok(owned(path))
        },
        None => match cwd {
            Some(dir) => Ok(owned(dir)),
            None => Err(ToolError::new("Failed to resolve current directory")),
        },
    }
}

/// A result that is a text.
pub open spec fn plain_result(content: Seq<char>) -> ResultView {
    ResultView { success: true, content, metadata: None }
}

/// Shows the state of a working tree.
pub struct GitStatusTool;

impl GitStatusTool {
    /// The arguments for git.
    pub fn arguments() -> (r: Vec<String>)
        ensures
            texts(r@) == seq!["status"@, "--short"@, "--branch"@],
    {
        let mut v: Vec<String> = Vec::new();
        v.push(owned("status"));
        v.push(owned("--short"));
        v.push(owned("--branch"));
        proof {
            assert(texts(v@) =~= seq!["status"@, "--short"@, "--branch"@]);
        }
        v
    }

    /// The result for what git printed.
    pub fn finish(path: &str, output: &str) -> (r: ToolResult)
        ensures
            r@ == plain_result(
                if output@.len() == 0 {
                    "Git repository at "@ + path@ + " is clean."@
                } else {
                    "Git status for "@ + path@ + ":\n"@ + output@
                },
            ),
            r@ == plain_result(status_text(path@, output@)),
    {
        let content = if output.is_empty() {
            cat3("Git repository at ", path, " is clean.")
        } else {
            cat4("Git status for ", path, ":\n", output)
        };
        ToolResult { success: true, content, metadata: None }
    }
}

/// What a diff is shown as, after its summary.
pub open spec fn diff_text(stat: Seq<char>, diff: Seq<char>) -> Seq<char> {
    let start = "Diff stat:\n"@ + stat + "\n\n"@;
    if diff.len() == 0 {
        start + "(no changes)"@
    } else if diff.len() > 30000 {
        start + first_chars(diff, 30000) + "\n... [diff truncated]"@
    } else {
        start + first_chars(diff, 30000)
    }
}

/// Shows what has changed.
pub struct GitDiffTool;

impl GitDiffTool {
    /// Whether the changes that are staged are meant.
    pub fn is_staged(input: &Data) -> (r: bool)
        ensures
            r == (input@.at("staged"@).truth() == Some(true)),
    {
        match input.bool_at("staged") {
            Some(b) => b,
            None => false,
        }
    }

    /// The arguments for git: for the summary, or for the diff.
    pub fn arguments(staged: bool, summary: bool) -> (r: Vec<String>)
        ensures
            texts(r@) == seq!["diff"@] + (if staged {
                seq!["--staged"@]
            } else {
                seq![]
            }) + (if summary {
                seq!["--stat"@]
            } else {
                seq![]
            }),
            texts(r@) == diff_arguments(staged, summary),
    {
        let mut v: Vec<String> = Vec::new();
        v.push(owned("diff"));
        if staged {
            v.push(owned("--staged"));
        }
        if summary {
            v.push(owned("--stat"));
        }
        proof {
            assert(texts(v@) =~= seq!["diff"@] + (if staged {
                seq!["--staged"@]
            } else {
                seq![]
            }) + (if summary {
                seq!["--stat"@]
            } else {
                seq![]
            }));
        }
        v
    }

    /// The result for what git printed: the summary, and the diff, of which the
    /// first thirty thousand characters are shown.
    pub fn finish(stat: &str, diff: &str) -> (r: ToolResult)
        ensures
            r@ == plain_result(diff_text(stat@, diff@)),
    {
        let mut content = cat3("Diff stat:\n", stat, "\n\n");
        if diff.is_empty() {
            content.append("(no changes)");
        } else {
            content.append(take_chars(diff, 30000).as_str());
            if char_count(diff) > 30000 {
                content.append("\n... [diff truncated]");
            }
        }
        ToolResult { success: true, content, metadata: None }
    }
}

/// Commits all changes.
pub struct GitCommitTool;

impl GitCommitTool {
    /// The message of the commit.
    pub fn message(input: &Data) -> (r: Result<String, ToolError>)
        ensures
            match input@.at("message"@).text() {
                Some(s) => r matches Ok(message) && message@ == s,
                None => r matches Err(e) && e.message@ == "Missing required parameter: message"@,
            },
    {
        match input.str_at("message") {
            Some(s) => Ok(owned(s)),
            None => Err(ToolError::new("Missing required parameter: message")),
        }
    }

    /// The arguments for git that stage everything.
    pub fn add_arguments() -> (r: Vec<String>)
        ensures
            texts(r@) == seq!["add"@, "-A"@],
    {
        let mut v: Vec<String> = Vec::new();
        v.push(owned("add"));
        v.push(owned("-A"));
        proof {
            assert(texts(v@) =~= seq!["add"@, "-A"@]);
        }
        v
    }

    /// The arguments for git that commit what is staged, with that message.
    pub fn commit_arguments(message: &str) -> (r: Vec<String>)
        ensures
            texts(r@) == seq!["commit"@, "-m"@, message@],
    {
        let mut v: Vec<String> = Vec::new();
        v.push(owned("commit"));
        v.push(owned("-m"));
        v.push(owned(message));
        proof {
            assert(texts(v@) =~= seq!["commit"@, "-m"@, message@]);
        }
        v
    }

    /// The arguments for git that show the last commit in one line.
    pub fn show_arguments() -> (r: Vec<String>)
        ensures
            texts(r@) == seq!["log"@, "-1"@, "--oneline"@],
    {
        let mut v: Vec<String> = Vec::new();
        v.push(owned("log"));
        v.push(owned("-1"));
        v.push(owned("--oneline"));
        proof {
            assert(texts(v@) =~= seq!["log"@, "-1"@, "--oneline"@]);
        }
        v
    }

    /// The result for what git printed when it staged, committed, and showed the
    /// commit.
    pub fn finish(added: &str, committed: &str, short: &str) -> (r: ToolResult)
        ensures
            r@ == plain_result(
                "Staged: "@ + (if added@.len() == 0 {
                    "(nothing to stage)"@
                } else {
                    trimmed(added@)
                }) + "\nCommitted: "@ + trimmed(committed@) + "\n"@ + trimmed(short@),
            ),
            r@ == plain_result(commit_text(added@, committed@, short@)),
    {
        let staged = if added.is_empty() {
            owned("(nothing to stage)")
        } else {
            trim(added)
        };
        let mut content = cat5(
            "Staged: ",
            staged.as_str(),
            "\nCommitted: ",
            trim(committed).as_str(),
            "\n",
        );
        content.append(trim(short).as_str());
        ToolResult { success: true, content, metadata: None }
    }
}

/// An edit without an old text appends the new one and keeps all that was there. An old
/// text that is not there, or stands there more than once, changes nothing and is no
/// success; one that stands there once is replaced, and that is a success.
pub proof fn edits_are_made_or_refused(
    path: Seq<char>,
    old_text: Seq<char>,
    new_text: Seq<char>,
    content: Seq<char>,
)
    ensures
        old_text.len() == 0 ==> edited(path, old_text, new_text, content).updated == Some(
            content + new_text,
        ) && edited(path, old_text, new_text, content).result.success,
        old_text.len() > 0 && has(content, old_text) == false ==> edited(
            path,
            old_text,
            new_text,
            content,
        ).updated is None && !edited(path, old_text, new_text, content).result.success,
        old_text.len() > 0 && occurrences(content, old_text) > 1 ==> edited(
            path,
            old_text,
            new_text,
            content,
        ).updated is None && !edited(path, old_text, new_text, content).result.success,
        old_text.len() > 0 && occurrences(content, old_text) == 1 ==> edited(
            path,
            old_text,
            new_text,
            content,
        ).updated is Some && edited(path, old_text, new_text, content).result.success,
{
    lemma_first_match(content, old_text);
    if old_text.len() > 0 && has(content, old_text) == false {
        assert(occurrences(content, old_text) == 0) by {
            match first_match(content, old_text) {
                Some(k) => {
                    assert(stands_at(content, old_text, k));
                },
                None => {},
            }
        }
    }
}

/// Occurrences are counted one after the other: a text that stands in another once more,
/// behind a part in which none begins, is counted once more; and none is counted where
/// there is none.
pub proof fn occurrences_are_counted(front: Seq<char>, p: Seq<char>, rest: Seq<char>)
    requires
        p.len() > 0,
        forall|k: int| 0 <= k < front.len() ==> !#[trigger] stands_at(front + p + rest, p, k),
    ensures
        occurrences(front + p + rest, p) == 1 + occurrences(rest, p),
        has(rest, p) == false ==> occurrences(rest, p) == 0,
{
    let s = front + p + rest;
    let n = front.len() as int;
    assert(s.subrange(n, n + p.len()) =~= p);
    assert(stands_at(s, p, n));
    lemma_first_match(s, p);
    match first_match(s, p) {
        Some(k) => {
            assert(k == n);
            assert(s.skip(n + p.len()) =~= rest);
        },
        None => {
            assert(has(s, p));
        },
    }
    if has(rest, p) == false {
        lemma_first_match(rest, p);
        match first_match(rest, p) {
            Some(k) => {
                assert(stands_at(rest, p, k));
            },
            None => {},
        }
    }
}

/// Git runs where it is told to: in the directory that is named, in the directory of the
/// file that is named, else in the working directory.
pub proof fn git_runs_where_it_is_told(path: Seq<char>, cwd: Option<Seq<char>>)
    ensures
        git_place(Some(path), false, cwd) == Ok::<Seq<char>, Seq<char>>(path),
        parent_of(path) matches Some(dir) ==> git_place(Some(path), true, cwd) == Ok::<
            Seq<char>,
            Seq<char>,
        >(dir),
        parent_of(path) is None ==> git_place(Some(path), true, cwd) is Err,
        cwd matches Some(dir) ==> git_place(None, false, cwd) == Ok::<Seq<char>, Seq<char>>(dir),
        cwd is None ==> git_place(None, false, cwd) is Err,
{
}

/// A repository that is named by a path lies below the workspace, or where the path says
/// if it is absolute.
pub proof fn repositories_are_named_by_path(ctx: ToolContext, input: Json)
    ensures
        input.at("path"@) matches Json::Str(p) ==> repo_param(ctx, input) == Some(
            resolved_path(ctx, p),
        ),
        !(input.at("path"@) is Str) ==> repo_param(ctx, input) is None,
{
}

/// A diff is shown behind its summary: whole, unless it has more than thirty thousand
/// characters; then the first of them, and a note.
pub proof fn diffs_are_shown(stat: Seq<char>, diff: Seq<char>)
    ensures
        diff.len() == 0 ==> diff_text(stat, diff) == "Diff stat:\n"@ + stat + "\n\n"@
            + "(no changes)"@,
        0 < diff.len() <= 30000 ==> diff_text(stat, diff) == "Diff stat:\n"@ + stat + "\n\n"@ + diff,
        diff.len() > 30000 ==> diff_text(stat, diff) == "Diff stat:\n"@ + stat + "\n\n"@
            + diff.take(30000) + "\n... [diff truncated]"@,
{
}

/// What an edit did is told with its sizes, and why none was made with what was found.
pub proof fn edits_are_told(
    path: Seq<char>,
    old_text: Seq<char>,
    new_text: Seq<char>,
    content: Seq<char>,
)
    ensures
        ({
            let r = edited(path, old_text, new_text, content).result;
            let n = occurrences(content, old_text);
            &&& old_text.len() == 0 || n == 1 ==> r.content == "Edited "@ + path + ": replaced "@
                + dec(old_text.len()) + " chars with "@ + dec(new_text.len()) + " chars ("@ + dec(
                line_list(content).len(),
            ) + " line total)."@ && (r.metadata matches Some(m) && m.at("path"@) == Json::Str(path))
            &&& old_text.len() > 0 && n == 0 ==> r.content == "old_string not found in "@ + path
                + " ("@ + dec(content.len())
                + " chars searched). Use read_file first to see exact contents."@
            &&& old_text.len() > 0 && n > 1 ==> r.content == "old_string found "@ + dec(n)
                + " times in "@ + path + ". Include more surrounding context to make it unique."@
        }),
{
    broadcast use lemma_lookup_push;

}

/// What the state of a working tree is shown as.
pub open spec fn status_text(path: Seq<char>, output: Seq<char>) -> Seq<char> {
    if output.len() == 0 {
        "Git repository at "@ + path + " is clean."@
    } else {
        "Git status for "@ + path + ":\n"@ + output
    }
}

/// What a commit is shown as.
pub open spec fn commit_text(
    added: Seq<char>,
    committed: Seq<char>,
    short: Seq<char>,
) -> Seq<char> {
    "Staged: "@ + (if added.len() == 0 {
        "(nothing to stage)"@
    } else {
        trimmed(added)
    }) + "\nCommitted: "@ + trimmed(committed) + "\n"@ + trimmed(short)
}

/// The arguments for git: for the summary of a diff, or for the diff.
pub open spec fn diff_arguments(staged: bool, summary: bool) -> Seq<Seq<char>> {
    seq!["diff"@] + (if staged {
        seq!["--staged"@]
    } else {
        seq![]
    }) + (if summary {
        seq!["--stat"@]
    } else {
        seq![]
    })
}

/// Whether a plan is what the input asks for.
pub open spec fn is_edit_plan(p: EditPlan, ctx: ToolContext, input: Json) -> bool {
    &&& input.at("path"@) == Json::Str(p.path@)
    &&& p.file@ == resolved_path(ctx, p.path@)
    &&& input.at("new_string"@) == Json::Str(p.new_string@)
    &&& p.old_string@ == input.at("old_string"@).text_or_empty()
}

/// An edit is planned with the texts and for the file that are given, and without an old
/// text where none is given.
pub proof fn edits_are_planned_as_asked(p: EditPlan, ctx: ToolContext, input: Json)
    requires
        is_edit_plan(p, ctx, input),
    ensures
        input.at("path"@) matches Json::Str(path) ==> p.path@ == path && p.file@ == resolved_path(
            ctx,
            path,
        ),
        input.at("new_string"@) matches Json::Str(text) ==> p.new_string@ == text,
        input.at("old_string"@) matches Json::Str(text) ==> p.old_string@ == text,
        !(input.at("old_string"@) is Str) ==> p.old_string@.len() == 0,
{
}

/// What git printed is a success, and is shown whole; a working tree of which nothing was
/// printed is clean.
pub proof fn git_output_is_shown(
    path: Seq<char>,
    output: Seq<char>,
    committed: Seq<char>,
    short: Seq<char>,
)
    ensures
        plain_result(output).success,
        plain_result(output).content == output,
        plain_result(output).metadata is None,
        output.len() > 0 ==> status_text(path, output) == "Git status for "@ + path + ":\n"@
            + output,
        output.len() == 0 ==> status_text(path, output) == "Git repository at "@ + path
            + " is clean."@,
        output.len() > 0 ==> commit_text(output, committed, short) == "Staged: "@ + trimmed(output)
            + "\nCommitted: "@ + trimmed(committed) + "\n"@ + trimmed(short),
        output.len() == 0 ==> commit_text(output, committed, short) == "Staged: "@
            + "(nothing to stage)"@ + "\nCommitted: "@ + trimmed(committed) + "\n"@ + trimmed(
            short,
        ),
{
}

/// A diff is asked for with its summary exactly where that is meant, and of what is staged
/// exactly where that is meant.
pub proof fn diffs_are_asked_for(staged: bool, summary: bool)
    ensures
        diff_arguments(staged, summary)[0] == "diff"@,
        diff_arguments(staged, summary).contains("--staged"@) <==> staged,
        diff_arguments(staged, summary).contains("--stat"@) <==> summary,
{
    reveal_strlit("diff");
    reveal_strlit("--staged");
    reveal_strlit("--stat");
    assert("diff"@.len() == 4 && "--staged"@.len() == 8 && "--stat"@.len() == 6);
    let all = diff_arguments(staged, summary);
    if staged {
        assert(all[1] == "--staged"@);
    }
    if summary {
        assert(all[all.len() - 1] == "--stat"@);
    }
}

} // verus!
