//! Searching for files by glob pattern, and in files by regular expression.
use vstd::prelude::*;

use crate::numbers::{dec, decimal};
use crate::paths::{file_name, join_path, last_name, path_join, show_path, shown};
use crate::patterns::{is_pattern, match_each, pattern_matches};
use crate::sort::{
    keyed, sort_by_key, sorted, sorting_is_stable, sorting_keeps_every_item, Keyed,
};
use crate::text::{
    before, cat, cat3, cat5, chars_of, contains, from_utf8_lossy, has, holds, join, joined, line_list,
    lines, lossy, opt, owned, replace, replaced, str_eq, texts, trim, trimmed,
};
use crate::value::{lemma_lookup_push, no_fields, Data, Fields, Json};
use crate::workspace::EntryKind;

use super::filesystem::{resolve_path, resolved_path};
use super::{ResultView, ToolContext, ToolError, ToolResult};

verus! {

/// Whether a directory is not searched.
pub open spec fn is_unsearched(name: Seq<char>) -> bool {
    name == ".git"@ || name == "node_modules"@ || name == "target"@ || name == "dist"@ || name
        == "build"@ || name == ".venv"@ || name == "venv"@ || name == "__pycache__"@ || name
        == ".next"@ || name == ".cache"@ || name == ".idea"@ || name == ".vscode"@
}

/// Whether a directory is not searched.
pub fn skips_search(name: &str) -> (r: bool)
    ensures
        r == is_unsearched(name@),
{
    str_eq(name, ".git") || str_eq(name, "node_modules") || str_eq(name, "target") || str_eq(
        name,
        "dist",
    ) || str_eq(name, "build") || str_eq(name, ".venv") || str_eq(name, "venv") || str_eq(
        name,
        "__pycache__",
    ) || str_eq(name, ".next") || str_eq(name, ".cache") || str_eq(name, ".idea") || str_eq(
        name,
        ".vscode",
    )
}

/// How deep directories are searched.
pub const MAX_DEPTH: usize = 10;

/// Whether a character means something in a regular expression.
pub open spec fn is_special(c: char) -> bool {
    c == '.' || c == '+' || c == '(' || c == ')' || c == '[' || c == ']' || c == '{' || c == '}' || c
        == '^' || c == '$' || c == '|' || c == '\\'
}

/// A glob pattern as a part of a regular expression. `**` stands for any text,
/// with a slash after it that may be missing; `*` for any text without a slash;
/// `?` for a character other than a slash; and any other character for itself.
pub open spec fn glob_body(s: Seq<char>) -> Seq<char>
    decreases s.len(),
{
    if s.len() == 0 {
        seq![]
    } else if s[0] == '*' && s.len() > 1 && s[1] == '*' {
        if s.len() > 2 && s[2] == '/' {
            ".*"@ + "/?"@ + glob_body(s.skip(3))
        } else {
            ".*"@ + glob_body(s.skip(2))
        }
    } else if s[0] == '*' {
        "[^/]*"@ + glob_body(s.skip(1))
    } else if s[0] == '?' {
        "[^/]"@ + glob_body(s.skip(1))
    } else if is_special(s[0]) {
        seq!['\\', s[0]] + glob_body(s.skip(1))
    } else {
        seq![s[0]] + glob_body(s.skip(1))
    }
}

/// A pattern without wildcards and without characters that mean something in a
/// regular expression stands for itself.
pub proof fn plain_patterns_stand_for_themselves(s: Seq<char>)
    requires
        forall|i: int|
            0 <= i < s.len() ==> #[trigger] s[i] != '*' && s[i] != '?' && !is_special(s[i]),
    ensures
        glob_body(s) == s,
    decreases s.len(),
{
    if s.len() > 0 {
        let rest = s.skip(1);
        assert forall|i: int| 0 <= i < rest.len() implies #[trigger] rest[i] != '*' && rest[i] != '?'
            && !is_special(rest[i]) by {
            assert(rest[i] == s[i + 1]);
        }
        plain_patterns_stand_for_themselves(rest);
        assert(seq![s[0]] + rest =~= s);
    } else {
        assert(glob_body(s) =~= s);
    }
}

/// The regular expression that a glob pattern stands for.
pub open spec fn glob_regex(pattern: Seq<char>) -> Seq<char> {
    "^"@ + glob_body(pattern) + "$"@
}

/// The regular expression that a glob pattern stands for.
pub fn glob_to_regex(pattern: &str) -> (r: String)
    ensures
        r@ == glob_regex(pattern@),
{
    let v = chars_of(pattern);
    let mut out = owned("^");
    let mut i: usize = 0;
    proof {
        assert(v@.skip(0) =~= v@);
    }
    while i < v.len()
        invariant
            i <= v@.len(),
            v@ == pattern@,
            "^"@ + glob_body(pattern@) == out@ + glob_body(v@.skip(i as int)),
        decreases v@.len() - i,
    {
        let ghost before = out@;
        let ghost rest = v@.skip(i as int);
        let c = v[i];
        proof {
            assert(rest[0] == c);
            assert(rest.len() > 1 ==> rest[1] == v@[i + 1]);
            assert(rest.len() > 2 ==> rest[2] == v@[i + 2]);
            assert(rest.skip(1) =~= v@.skip(i + 1));
            assert(rest.len() > 1 ==> rest.skip(2) =~= v@.skip(i + 2));
            assert(rest.len() > 2 ==> rest.skip(3) =~= v@.skip(i + 3));
        }
        if c == '*' && v.len() - i > 1 && v[i + 1] == '*' {
            out.append(".*");
            if v.len() - i > 2 && v[i + 2] == '/' {
                out.append("/?");
                i = i + 3;
                proof {
                    assert(before + (".*"@ + "/?"@ + glob_body(rest.skip(3))) =~= out@ + glob_body(
                        v@.skip(i as int),
                    ));
                }
            } else {
                i = i + 2;
                proof {
                    assert(before + (".*"@ + glob_body(rest.skip(2))) =~= out@ + glob_body(
                        v@.skip(i as int),
                    ));
                }
            }
        } else if c == '*' {
            out.append("[^/]*");
            i = i + 1;
            proof {
                assert(before + ("[^/]*"@ + glob_body(rest.skip(1))) =~= out@ + glob_body(
                    v@.skip(i as int),
                ));
            }
        } else if c == '?' {
            out.append("[^/]");
            i = i + 1;
            proof {
                assert(before + ("[^/]"@ + glob_body(rest.skip(1))) =~= out@ + glob_body(
                    v@.skip(i as int),
                ));
            }
        } else if c == '.' || c == '+' || c == '(' || c == ')' || c == '[' || c == ']' || c == '{'
            || c == '}' || c == '^' || c == '$' || c == '|' || c == '\\' {
            out.push('\\');
            out.push(c);
            i = i + 1;
            proof {
                assert(before + (seq!['\\', c] + glob_body(rest.skip(1))) =~= out@ + glob_body(
                    v@.skip(i as int),
                ));
            }
        } else {
            out.push(c);
            i = i + 1;
            proof {
                assert(before + (seq![c] + glob_body(rest.skip(1))) =~= out@ + glob_body(
                    v@.skip(i as int),
                ));
            }
        }
    }
    proof {
        assert(v@.skip(i as int) =~= seq![]);
        assert(out@ + glob_body(v@.skip(i as int)) =~= out@);
    }
    out.append("$");
    out
}

/// A walk through directories: those that are still to be read, each with its
/// depth, and the files that were found.
pub struct WalkView {
    pub stack: Seq<(Seq<char>, nat)>,
    pub files: Seq<Seq<char>>,
}

/// The directories without those on top that are too deep.
pub open spec fn readable(stack: Seq<(Seq<char>, nat)>) -> Seq<(Seq<char>, nat)>
    decreases stack.len(),
{
    if stack.len() > 0 && stack.last().1 >= 10 {
        readable(stack.drop_last())
    } else {
        stack
    }
}

/// An entry of a directory that is walked through.
#[derive(Debug)]
pub struct WalkEntry {
    pub name: String,
    pub kind: EntryKind,
}

/// What an entry says.
pub open spec fn entry_views(v: Seq<WalkEntry>) -> Seq<(Seq<char>, EntryKind)> {
    Seq::new(v.len(), |i: int| (v[i].name@, v[i].kind))
}

/// A walk after the entries of a directory were read: its directories are still
/// to be read, but for those that are not searched, and its files were found.
pub open spec fn walked(
    w: WalkView,
    dir: Seq<char>,
    depth: nat,
    entries: Seq<(Seq<char>, EntryKind)>,
) -> WalkView
    decreases entries.len(),
{
    if entries.len() == 0 {
        w
    } else {
        let before = walked(w, dir, depth, entries.drop_last());
        let (name, kind) = entries.last();
        match kind {
            EntryKind::Dir => if is_unsearched(name) {
                before
            } else {
                WalkView { stack: before.stack.push((path_join(dir, name), depth + 1)), ..before }
            },
            EntryKind::File => WalkView {
                files: before.files.push(path_join(dir, name)),
                ..before
            },
            EntryKind::Other => before,
        }
    }
}

/// Paths with what orders them as keys: their components, which the lowest
/// character keeps apart.
pub open spec fn path_keys(files: Seq<Seq<char>>) -> Seq<(Seq<char>, Seq<char>)> {
    Seq::new(files.len(), |i: int| (replaced(files[i], "/"@, "\0"@), files[i]))
}

/// Paths in the order of their components.
pub open spec fn in_path_order(files: Seq<Seq<char>>) -> Seq<Seq<char>> {
    Seq::new(files.len(), |i: int| sorted(path_keys(files))[i].1)
}

/// A walk through directories.
pub struct FileWalk {
    stack: Vec<(String, usize)>,
    files: Vec<String>,
}

impl View for FileWalk {
    type V = WalkView;

    closed spec fn view(&self) -> WalkView {
        WalkView {
            stack: Seq::new(
                self.stack@.len(),
                |i: int| (self.stack@[i].0@, self.stack@[i].1 as nat),
            ),
            files: texts(self.files@),
        }
    }
}

impl FileWalk {
    /// A walk that begins at a root.
    pub fn new(root: &str) -> (r: FileWalk)
        ensures
            r@ == (WalkView { stack: seq![(root@, 0nat)], files: seq![] }),
    {
        let mut stack: Vec<(String, usize)> = Vec::new();
        stack.push((owned(root), 0));
        let r = FileWalk { stack, files: Vec::new() };
        proof {
            assert(r@.stack =~= seq![(root@, 0nat)]);
            assert(r@.files =~= seq![]);
        }
        r
    }

    /// The directory that is to be read next, with its depth, where there is one.
    pub fn next_dir(&mut self) -> (r: Option<(String, usize)>)
        ensures
            ({
                let left = readable(old(self)@.stack);
                if left.len() == 0 {
                    r is None && final(self)@ == (WalkView { stack: left, ..old(self)@ })
                } else {
                    &&& r matches Some((dir, depth)) && (dir@, depth as nat) == left.last() && depth
                        < 10
                    &&& final(self)@ == (WalkView { stack: left.drop_last(), ..old(self)@ })
                }
            }),
    {
        let ghost start = self@;
        while self.stack.len() > 0 && self.stack[self.stack.len() - 1].1 >= MAX_DEPTH
            invariant
                self@.files == start.files,
                readable(start.stack) == readable(self@.stack),
            decreases self.stack@.len(),
        {
            let ghost before = self@.stack;
            let top = self.stack.pop();
            proof {
                assert(self@.stack =~= before.drop_last());
            }
        }
        let ghost left = self@.stack;
        match self.stack.pop() {
            Some(top) => {
                proof {
                    assert(self@.stack =~= left.drop_last());
                    assert(left.last() == (top.0@, top.1 as nat));
                }
                Some(top)
            },
            None => None,
        }
    }

    /// The entries of a directory were read.
    pub fn on_entries(&mut self, dir: &str, depth: usize, entries: &Vec<WalkEntry>)
        requires
            depth < 10,
        ensures
            final(self)@ == walked(old(self)@, dir@, depth as nat, entry_views(entries@)),
    {
        let ghost start = self@;
        let ghost all = entry_views(entries@);
        proof {
            assert(all.take(0) =~= seq![]);
        }
        for i in 0..entries.len()
            invariant
                depth < 10,
                all == entry_views(entries@),
                self@ == walked(start, dir@, depth as nat, all.take(i as int)),
        {
            let ghost before = self@;
            let e = &entries[i];
            proof {
                assert(all.take(i + 1).drop_last() =~= all.take(i as int));
                assert(all.take(i + 1).last() == (e.name@, e.kind));
            }
            match e.kind {
                EntryKind::Dir => {
                    if !skips_search(e.name.as_str()) {
                        let path = join_path(dir, e.name.as_str());
                        self.stack.push((path, depth + 1));
                        proof {
                            assert(self@.stack =~= before.stack.push((path@, (depth + 1) as nat)));
                        }
                    }
                },
                EntryKind::File => {
                    let path = join_path(dir, e.name.as_str());
                    self.files.push(path);
                    proof {
                        assert(self@.files =~= before.files.push(path@));
                    }
                },
                EntryKind::Other => {},
            }
        }
        proof {
            assert(all.take(all.len() as int) =~= all);
        }
    }

    /// The files that were found, in the order of the components of their paths.
    pub fn walk_files(self) -> (r: Vec<String>)
        ensures
            texts(r@) == in_path_order(self@.files),
    {
        sort_paths(self.files)
    }
}

/// Paths in the order of their components.
fn sort_paths(files: Vec<String>) -> (r: Vec<String>)
    ensures
        texts(r@) == in_path_order(texts(files@)),
{
    let ghost all = texts(files@);
    let mut items: Vec<Keyed<String>> = Vec::new();
    proof {
        reveal_strlit("/");
    }
    for path in it: files
        invariant
            it.seq() == files@,
            items@.len() == it.index(),
            "/"@.len() > 0,
            forall|j: int|
                0 <= j < it.index() ==> (#[trigger] items@[j]).key@ == replaced(
                    files@[j]@,
                    "/"@,
                    "\0"@,
                ) && items@[j].value == files@[j],
    {
        items.push(Keyed { key: replace(path.as_str(), "/", "\0"), value: path });
    }
    let ghost f = |s: String| s@;
    proof {
        assert(crate::sort::with_values(keyed(items@), f) =~= path_keys(all));
        crate::sort::sorting_looks_at_keys(keyed(items@), f);
        crate::sort::sorting_is_stable(path_keys(all));
    }
    let ordered = sort_by_key(items);
    let mut out: Vec<String> = Vec::new();
    for item in it: ordered
        invariant
            it.seq() == ordered@,
            out@.len() == it.index(),
            forall|j: int| 0 <= j < it.index() ==> #[trigger] out@[j] == ordered@[j].value,
    {
        out.push(item.value);
    }
    proof {
        let want = in_path_order(all);
        assert forall|j: int| 0 <= j < out@.len() implies texts(out@)[j] == (#[trigger] want[j]) by {
            assert(sorted(path_keys(all))[j] == crate::sort::with_values(keyed(ordered@), f)[j]);
        }
        assert(texts(out@) =~= want);
    }
    out
}

/// The directory that is searched: the one that is given, or the workspace.
pub open spec fn search_root(ctx: ToolContext, input: Json) -> Seq<char> {
    match input.at("path"@).text() {
        Some(p) => resolved_path(ctx, p),
        None => ctx.workspace_dir@,
    }
}

/// The directory that is searched.
fn root_of(ctx: &ToolContext, input: &Data) -> (r: String)
    ensures
        r@ == search_root(*ctx, input@),
{
    match input.str_at("path") {
        Some(p) => resolve_path(ctx, p),
        None => ctx.workspace_dir.clone(),
    }
}

/// A limit that is given, or another.
pub open spec fn limit_or(input: Json, otherwise: int) -> int {
    match input.at("max_results"@).uint() {
        Some(n) => n,
        None => otherwise,
    }
}

/// The result where the directory that is to be searched does not exist.
pub fn root_not_found(root: &str) -> (r: ToolResult)
    ensures
        r@ == (ResultView {
            success: false,
            content: "Directory not found: "@ + root@,
            metadata: None,
        }),
{
    ToolResult { success: false, content: cat("Directory not found: ", root), metadata: None }
}

/// What is held against a pattern for a file: its path below the root where the
/// pattern has a slash, else its name.
pub open spec fn glob_subject(pattern: Seq<char>, root: Seq<char>, file: Seq<char>) -> Seq<char> {
    if has(pattern, "/"@) {
        shown(file, root)
    } else {
        match last_name(file) {
            Some(name) => name,
            None => seq![],
        }
    }
}

/// What is held against a pattern for each file.
fn glob_subjects(pattern: &str, root: &str, files: &Vec<String>) -> (r: Vec<String>)
    ensures
        texts(r@) == Seq::new(
            files@.len(),
            |i: int| glob_subject(pattern@, root@, files@[i]@),
        ),
{
    let whole = contains(pattern, "/");
    let mut out: Vec<String> = Vec::new();
    for i in 0..files.len()
        invariant
            out@.len() == i,
            whole == has(pattern@, "/"@),
            forall|j: int|
                0 <= j < i ==> #[trigger] out@[j]@ == glob_subject(pattern@, root@, files@[j]@),
    {
        let subject = if whole {
            show_path(files[i].as_str(), root)
        } else {
            match file_name(files[i].as_str()) {
                Some(name) => name,
                None => {
                    let s = String::new();
                    proof {
                        assert(s@ =~= seq![]);
                    }
                    s
                },
            }
        };
        out.push(subject);
    }
    proof {
        assert(texts(out@) =~= Seq::new(
            files@.len(),
            |i: int| glob_subject(pattern@, root@, files@[i]@),
        ));
    }
    out
}

/// Which files a glob pattern matches.
pub open spec fn glob_matches(pattern: Seq<char>, root: Seq<char>, files: Seq<Seq<char>>) -> Seq<
    bool,
> {
    Seq::new(
        files.len(),
        |i: int| pattern_matches(glob_regex(pattern), glob_subject(pattern, root, files[i])),
    )
}

/// Which files a glob pattern matches, where it is one.
fn match_files(pattern: &str, root: &str, files: &Vec<String>) -> (r: Result<Vec<bool>, ToolError>)
    ensures
        if is_pattern(glob_regex(pattern@)) {
            r is Ok && r->Ok_0@ == glob_matches(pattern@, root@, texts(files@))
        } else {
            r is Err && r->Err_0.message@ == "Invalid glob pattern"@
        },
{
    let regex = glob_to_regex(pattern);
    let subjects = glob_subjects(pattern, root, files);
    let ghost held = texts(subjects@);
    proof {
        assert(held.len() == files@.len());
    }
    match match_each(regex.as_str(), &subjects) {
        Some(found) => {
            proof {
                assert forall|j: int| 0 <= j < found@.len() implies found@[j] == (
                #[trigger] glob_matches(pattern@, root@, texts(files@))[j]) by {
                    assert(held[j] == glob_subject(pattern@, root@, files@[j]@));
                }
                assert(found@ =~= glob_matches(pattern@, root@, texts(files@)));
            }
            Ok(found)
        },
        None => Err(ToolError::new("Invalid glob pattern")),
    }
}

/// The items that are marked, the first so many of them.
pub open spec fn first_marked(
    items: Seq<Seq<char>>,
    marked: Seq<bool>,
    limit: int,
) -> Seq<Seq<char>>
    decreases items.len(),
{
    if items.len() == 0 {
        seq![]
    } else {
        let before = first_marked(items.drop_last(), marked, limit);
        if marked[items.len() - 1] && before.len() < limit {
            before.push(items.last())
        } else {
            before
        }
    }
}

/// A search takes only what is marked, and no more than it may.
pub proof fn searches_take_what_is_marked(items: Seq<Seq<char>>, marked: Seq<bool>, limit: int)
    requires
        limit >= 0,
    ensures
        first_marked(items, marked, limit).len() <= limit,
        forall|k: int|
            0 <= k < first_marked(items, marked, limit).len() ==> is_marked(
                items,
                marked,
                #[trigger] first_marked(items, marked, limit)[k],
            ),
    decreases items.len(),
{
    if items.len() > 0 {
        searches_take_what_is_marked(items.drop_last(), marked, limit);
        let before = first_marked(items.drop_last(), marked, limit);
        let all = first_marked(items, marked, limit);
        assert forall|k: int| 0 <= k < all.len() implies is_marked(
            items,
            marked,
            #[trigger] all[k],
        ) by {
            if k < before.len() {
                assert(all[k] == before[k]);
                let j = choose|j: int|
                    0 <= j < items.drop_last().len() && #[trigger] items.drop_last()[j] == before[k]
                        && marked[j];
                assert(items[j] == before[k]);
            } else {
                assert(items[items.len() - 1] == all[k]);
            }
        }
    }
}

/// Whether a text is one of the items that are marked.
pub open spec fn is_marked(items: Seq<Seq<char>>, marked: Seq<bool>, text: Seq<char>) -> bool {
    exists|j: int| 0 <= j < items.len() && #[trigger] items[j] == text && marked[j]
}

/// The files that are marked, as they are shown, the first so many of them.
pub fn take_marked(files: &Vec<String>, root: &str, marked: &Vec<bool>, limit: u64) -> (r: Vec<
    String,
>)
    requires
        marked@.len() == files@.len(),
    ensures
        texts(r@) == first_marked(
            Seq::new(files@.len(), |i: int| shown(files@[i]@, root@)),
            marked@,
            limit as int,
        ),
{
    let ghost all = Seq::new(files@.len(), |i: int| shown(files@[i]@, root@));
    let mut out: Vec<String> = Vec::new();
    proof {
        assert(texts(out@) =~= first_marked(all.take(0), marked@, limit as int));
    }
    for i in 0..files.len()
        invariant
            marked@.len() == files@.len(),
            all == Seq::new(files@.len(), |i: int| shown(files@[i]@, root@)),
            texts(out@) == first_marked(all.take(i as int), marked@, limit as int),
    {
        let ghost before = texts(out@);
        proof {
            assert(all.take(i + 1).drop_last() =~= all.take(i as int));
            assert(all.take(i + 1).last() == all[i as int]);
        }
        if marked[i] && (out.len() as u64) < limit {
            let path = show_path(files[i].as_str(), root);
            out.push(path);
            proof {
                assert(texts(out@) =~= before.push(path@));
            }
        }
    }
    proof {
        assert(all.take(all.len() as int) =~= all);
    }
    out
}

/// What a search by glob pattern found, as a result.
pub open spec fn glob_result(
    pattern: Seq<char>,
    root: Seq<char>,
    found: Seq<Seq<char>>,
    limit: int,
) -> ResultView {
    ResultView {
        success: found.len() > 0,
        content: if found.len() == 0 {
            "No files matched pattern"@
        } else {
            joined(found, "\n"@)
        },
        metadata: Some(
            Json::Table(
                no_fields().push(("pattern"@, Json::Str(pattern))).push(
                    ("root"@, Json::Str(root)),
                ).push(("count"@, Json::Num(found.len() as int))).push(
                    ("truncated"@, Json::Bool(found.len() >= limit)),
                ),
            ),
        ),
    }
}

/// A search by glob pattern.
#[derive(Debug)]
pub struct GlobPlan {
    pub pattern: String,
    pub root: String,
    pub max_results: u64,
}

/// Whether a plan is what the input asks for.
pub open spec fn is_glob_plan(
    p: GlobPlan,
    ctx: ToolContext,
    pattern: Seq<char>,
    input: Json,
) -> bool {
    &&& p.pattern@ == pattern
    &&& p.root@ == search_root(ctx, input)
    &&& p.max_results == limit_or(input, 200)
}

/// A search by glob pattern is what was asked for: its pattern, below the directory that
/// is given or the workspace, and two hundred files unless a number is given.
pub proof fn globs_are_as_asked(p: GlobPlan, ctx: ToolContext, pattern: Seq<char>, input: Json)
    requires
        is_glob_plan(p, ctx, pattern, input),
    ensures
        p.pattern@ == pattern,
        !(input.at("max_results"@) is Num) ==> p.max_results == 200,
        input.at("max_results"@) matches Json::Num(n) && 0 <= n <= u64::MAX ==> p.max_results
            == input.at("max_results"@)->Num_0,
        !(input.at("path"@) is Str) ==> p.root@ == ctx.workspace_dir@,
        input.at("path"@) matches Json::Str(path) ==> p.root@ == resolved_path(ctx, path),
{
}

/// Finds files by glob pattern.
pub struct GlobTool;

impl GlobTool {
    /// What is searched for, and where.
    pub fn plan(ctx: &ToolContext, input: &Data) -> (r: Result<GlobPlan, ToolError>)
        ensures
            match input@.at("pattern"@).text() {
                Some(pattern) => r matches Ok(p) && p.pattern@ == pattern && p.root@ == search_root(
                    *ctx,
                    input@,
                ) && p.max_results == limit_or(input@, 200) && is_glob_plan(
                    p,
                    *ctx,
                    pattern,
                    input@,
                ),
                None => r matches Err(e) && e.message@ == "Missing 'pattern' parameter"@,
            },
    {
        match input.str_at("pattern") {
            Some(pattern) => Ok(
                GlobPlan {
                    pattern: owned(pattern),
                    root: root_of(ctx, input),
                    max_results: match input.u64_at("max_results") {
                        Some(n) => n,
                        None => 200,
                    },
                },
            ),
            None => Err(ToolError::new("Missing 'pattern' parameter")),
        }
    }

    /// The result for the files below the root.
    pub fn finish(plan: &GlobPlan, files: &Vec<String>) -> (r: Result<ToolResult, ToolError>)
        ensures
            if is_pattern(glob_regex(plan.pattern@)) {
                r matches Ok(result) && result@ == glob_result(
                    plan.pattern@,
                    plan.root@,
                    first_marked(
                        Seq::new(files@.len(), |i: int| shown(files@[i]@, plan.root@)),
                        glob_matches(plan.pattern@, plan.root@, texts(files@)),
                        plan.max_results as int,
                    ),
                    plan.max_results as int,
                )
            } else {
                r matches Err(e) && e.message@ == "Invalid glob pattern"@
            },
    {
        let marked = match match_files(plan.pattern.as_str(), plan.root.as_str(), files) {
            Ok(marked) => marked,
            Err(e) => {
                return Err(e);
            },
        };
        let found = take_marked(files, plan.root.as_str(), &marked, plan.max_results);
        let content = if found.len() == 0 {
            owned("No files matched pattern")
        } else {
            join(&found, "\n")
        };
        let mut f = Fields::new();
        f.put_str("pattern", plan.pattern.as_str());
        f.put_str("root", plan.root.as_str());
        f.put_uint("count", found.len() as u64);
        f.put_bool("truncated", found.len() as u64 >= plan.max_results);
        Ok(ToolResult { success: found.len() > 0, content, metadata: Some(f.done()) })
    }
}

/// A hit in a file, as a line.
pub open spec fn hit_line(rel: Seq<char>, index: int, line: Seq<char>, numbers: bool) -> Seq<char> {
    if numbers {
        rel + ":"@ + dec((index + 1) as nat) + ": "@ + trimmed(line)
    } else {
        rel + ": "@ + trimmed(line)
    }
}

/// The hits in the lines of a file: the lines that match and are not blank.
pub open spec fn file_hits(
    rel: Seq<char>,
    rows: Seq<Seq<char>>,
    matched: Seq<bool>,
    numbers: bool,
) -> Seq<Seq<char>>
    decreases rows.len(),
{
    if rows.len() == 0 {
        seq![]
    } else {
        let before = file_hits(rel, rows.drop_last(), matched, numbers);
        if matched[rows.len() - 1] && trimmed(rows.last()).len() > 0 {
            before.push(hit_line(rel, rows.len() - 1, rows.last(), numbers))
        } else {
            before
        }
    }
}

/// A search in files: what was found so far, and in which files.
pub struct GrepView {
    pub hits: Seq<Seq<char>>,
    pub hit_files: Seq<Seq<char>>,
}

/// The first hits, one at least.
pub open spec fn limited(hits: Seq<Seq<char>>, limit: int) -> Seq<Seq<char>> {
    let n = if limit < 1 {
        1
    } else {
        limit
    };
    if hits.len() <= n {
        hits
    } else {
        hits.take(n)
    }
}

/// Whether a search has found as much as it may.
pub open spec fn is_full(g: GrepView, limit: int) -> bool {
    g.hits.len() > 0 && g.hits.len() >= limit
}

/// A search after one more file, given which of its lines match.
pub open spec fn searched(
    g: GrepView,
    rel: Seq<char>,
    rows: Seq<Seq<char>>,
    matched: Seq<bool>,
    numbers: bool,
    limit: int,
) -> GrepView {
    let hits = limited(g.hits + file_hits(rel, rows, matched, numbers), limit);
    GrepView {
        hits,
        hit_files: if hits.len() > g.hits.len() && !g.hit_files.contains(rel) {
            g.hit_files.push(rel)
        } else {
            g.hit_files
        },
    }
}

/// A search in files holds no more hits than it may, but for one that it always
/// may hold; it keeps what it found; and once it is full nothing is added.
pub proof fn searches_keep_to_the_limit(
    g: GrepView,
    rel: Seq<char>,
    rows: Seq<Seq<char>>,
    matched: Seq<bool>,
    numbers: bool,
    limit: int,
)
    requires
        g.hits.len() <= 1 || g.hits.len() <= limit,
    ensures
        searched(g, rel, rows, matched, numbers, limit).hits.len() <= 1 || searched(
            g,
            rel,
            rows,
            matched,
            numbers,
            limit,
        ).hits.len() <= limit,
        g.hits.is_prefix_of(searched(g, rel, rows, matched, numbers, limit).hits),
        is_full(g, limit) ==> searched(g, rel, rows, matched, numbers, limit) == g,
{
    let more = file_hits(rel, rows, matched, numbers);
    let after = searched(g, rel, rows, matched, numbers, limit);
    assert((g.hits + more).take(g.hits.len() as int) =~= g.hits);
    assert(after.hits.take(g.hits.len() as int) =~= g.hits);
    if is_full(g, limit) {
        assert(after.hits =~= g.hits);
    }
}

/// What a search in files found, as a result.
pub open spec fn grep_result(
    pattern: Seq<char>,
    root: Seq<char>,
    g: GrepView,
    limit: int,
) -> ResultView {
    let hits = if g.hits.len() <= limit {
        g.hits
    } else {
        g.hits.take(limit)
    };
    ResultView {
        success: hits.len() > 0,
        content: if hits.len() == 0 {
            "No matches found"@
        } else {
            joined(hits, "\n"@)
        },
        metadata: Some(
            Json::Table(
                no_fields().push(("pattern"@, Json::Str(pattern))).push(
                    ("root"@, Json::Str(root)),
                ).push(("matches"@, Json::Num(hits.len() as int))).push(
                    ("files"@, Json::Num(g.hit_files.len() as int)),
                ),
            ),
        ),
    }
}

/// A search in files.
#[derive(Debug)]
pub struct GrepPlan {
    pub pattern: String,
    pub root: String,
    pub only: Option<String>,
    pub max_results: u64,
    pub line_numbers: bool,
}

/// Whether a plan is what the input asks for.
pub open spec fn is_grep_plan(p: GrepPlan, ctx: ToolContext, pattern: Seq<char>, input: Json) -> bool {
    &&& p.pattern@ == pattern
    &&& p.root@ == search_root(ctx, input)
    &&& opt(p.only) == input.at("include"@).text()
    &&& p.max_results == limit_or(input, 100)
    &&& p.line_numbers == (input.at("line_numbers"@).truth() != Some(false))
}

/// The files that are searched: those whose names or paths match the pattern for
/// them, where there is one.
pub open spec fn included(files: Seq<Seq<char>>, marked: Seq<bool>) -> Seq<Seq<char>>
    decreases files.len(),
{
    if files.len() == 0 {
        seq![]
    } else {
        let before = included(files.drop_last(), marked);
        if marked[files.len() - 1] {
            before.push(files.last())
        } else {
            before
        }
    }
}

/// Searches in files.
pub struct GrepTool;

impl GrepTool {
    /// What is searched for, and where. The pattern must be a regular expression.
    pub fn plan(ctx: &ToolContext, input: &Data) -> (r: Result<GrepPlan, ToolError>)
        ensures
            match input@.at("pattern"@).text() {
                Some(pattern) => if is_pattern(pattern) {
                    r matches Ok(p) && is_grep_plan(p, *ctx, pattern, input@)
                } else {
                    r matches Err(e) && e.message@ == "Invalid regex pattern"@
                },
                None => r matches Err(e) && e.message@ == "Missing 'pattern' parameter"@,
            },
    {
        let pattern = match input.str_at("pattern") {
            Some(s) => owned(s),
            None => {
                return Err(ToolError::new("Missing 'pattern' parameter"));
            },
        };
        let nothing: Vec<String> = Vec::new();
        if match_each(pattern.as_str(), &nothing).is_none() {
            return Err(ToolError::new("Invalid regex pattern"));
        }
        Ok(
            GrepPlan {
                pattern,
                root: root_of(ctx, input),
                only: match input.str_at("include") {
                    Some(s) => Some(owned(s)),
                    None => None,
                },
                max_results: match input.u64_at("max_results") {
                    Some(n) => n,
                    None => 100,
                },
                line_numbers: match input.bool_at("line_numbers") {
                    Some(b) => b,
                    None => true,
                },
            },
        )
    }

    /// The files below the root that are searched.
    pub fn select(plan: &GrepPlan, files: Vec<String>) -> (r: Result<Vec<String>, ToolError>)
        ensures
            match opt(plan.only) {
                Some(only) => if is_pattern(glob_regex(only)) {
                    r matches Ok(v) && texts(v@) == included(
                        texts(files@),
                        glob_matches(only, plan.root@, texts(files@)),
                    )
                } else {
                    r matches Err(e) && e.message@ == "Invalid glob pattern"@
                },
                None => r matches Ok(v) && texts(v@) == texts(files@),
            },
    {
        match &plan.only {
            None => Ok(files),
            Some(only) => match match_files(only.as_str(), plan.root.as_str(), &files) {
                Err(e) => Err(e),
                Ok(marked) => {
                    let ghost all = texts(files@);
                    let mut out: Vec<String> = Vec::new();
                    proof {
                        assert(texts(out@) =~= included(all.take(0), marked@));
                    }
                    for i in 0..files.len()
                        invariant
                            marked@.len() == files@.len(),
                            all == texts(files@),
                            texts(out@) == included(all.take(i as int), marked@),
                    {
                        let ghost before = texts(out@);
                        proof {
                            assert(all.take(i + 1).drop_last() =~= all.take(i as int));
                            assert(all.take(i + 1).last() == files@[i as int]@);
                        }
                        if marked[i] {
                            out.push(files[i].clone());
                            proof {
                                assert(texts(out@) =~= before.push(files@[i as int]@));
                            }
                        }
                    }
                    proof {
                        assert(all.take(all.len() as int) =~= all);
                    }
                    Ok(out)
                },
            },
        }
    }
}

/// A search in files that goes on.
pub struct GrepRun {
    plan: GrepPlan,
    hits: Vec<String>,
    hit_files: Vec<String>,
}

impl View for GrepRun {
    type V = GrepView;

    closed spec fn view(&self) -> GrepView {
        GrepView { hits: texts(self.hits@), hit_files: texts(self.hit_files@) }
    }
}

/// Whether bytes are those of a text file: there is no zero byte in them.
pub open spec fn is_text(bytes: Seq<u8>) -> bool {
    !bytes.contains(0)
}

/// Whether there is no zero byte.
fn has_no_zero(bytes: &Vec<u8>) -> (r: bool)
    ensures
        r == is_text(bytes@),
{
    let mut i: usize = 0;
    while i < bytes.len()
        invariant
            i <= bytes@.len(),
            forall|j: int| 0 <= j < i ==> bytes@[j] != 0,
        decreases bytes@.len() - i,
    {
        if bytes[i] == 0 {
            proof {
                assert(bytes@.contains(bytes@[i as int]));
            }
            return false;
        }
        i = i + 1;
    }
    true
}

impl GrepRun {
    /// What is searched for, and where.
    pub closed spec fn plan(self) -> GrepPlan {
        self.plan
    }

    /// A search that begins.
    pub fn new(plan: GrepPlan) -> (r: GrepRun)
        ensures
            r.plan() == plan,
            r@ == (GrepView { hits: seq![], hit_files: seq![] }),
    {
        let r = GrepRun { plan, hits: Vec::new(), hit_files: Vec::new() };
        proof {
            assert(r@.hits =~= seq![]);
            assert(r@.hit_files =~= seq![]);
        }
        r
    }

    /// Whether the search has found as much as it may.
    pub fn is_done(&self) -> (r: bool)
        ensures
            r == is_full(self@, self.plan().max_results as int),
    {
        self.hits.len() > 0 && self.hits.len() as u64 >= self.plan.max_results
    }

    /// Adds the hits of a file, given which of its lines match.
    pub fn on_lines(&mut self, rel: &str, rows: &Vec<String>, matched: &Vec<bool>)
        requires
            matched@.len() == rows@.len(),
            !is_full(old(self)@, old(self).plan().max_results as int),
        ensures
            final(self).plan() == old(self).plan(),
            final(self)@ == searched(
                old(self)@,
                rel@,
                texts(rows@),
                matched@,
                old(self).plan().line_numbers,
                old(self).plan().max_results as int,
            ),
    {
        let ghost start = self@;
        let ghost all = texts(rows@);
        let ghost numbers = self.plan.line_numbers;
        let ghost limit = self.plan.max_results as int;
        let ghost plan = self.plan;
        let ghost found = file_hits(rel@, all, matched@, numbers);
        let before: usize = self.hits.len();
        let mut i: usize = 0;
        proof {
            assert(start.hits + file_hits(rel@, all.take(0), matched@, numbers) =~= start.hits);
        }
        while i < rows.len() && !(self.hits.len() > 0 && self.hits.len() as u64
            >= self.plan.max_results)
            invariant
                i <= rows@.len(),
                matched@.len() == rows@.len(),
                all == texts(rows@),
                self.plan == plan,
                numbers == plan.line_numbers,
                limit == plan.max_results,
                self@.hit_files == start.hit_files,
                self@.hits == start.hits + file_hits(rel@, all.take(i as int), matched@, numbers),
                !is_full(start, limit),
                self@.hits.len() <= 1 || self@.hits.len() <= limit,
            decreases rows@.len() - i,
        {
            let ghost now = self@.hits;
            proof {
                assert(all.take(i + 1).drop_last() =~= all.take(i as int));
                assert(all.take(i + 1).last() == rows@[i as int]@);
            }
            if matched[i] {
                let t = trim(rows[i].as_str());
                if !t.as_str().is_empty() {
                    let line = if self.plan.line_numbers {
                        cat5(rel, ":", decimal((i + 1) as u64).as_str(), ": ", t.as_str())
                    } else {
                        cat3(rel, ": ", t.as_str())
                    };
                    self.hits.push(line);
                    proof {
                        assert(self@.hits =~= now.push(line@));
                        assert(line@ == hit_line(rel@, i as int, rows@[i as int]@, numbers));
                        assert(now.push(line@) =~= start.hits + file_hits(
                            rel@,
                            all.take(i + 1),
                            matched@,
                            numbers,
                        ));
                    }
                }
            }
            i = i + 1;
        }
        proof {
            lemma_hits_grow(rel@, all, matched@, numbers, i as int);
            let part = file_hits(rel@, all.take(i as int), matched@, numbers);
            if i == rows@.len() {
                assert(all.take(i as int) =~= all);
                assert(self@.hits =~= limited(start.hits + found, limit));
            } else {
                assert(self@.hits =~= limited(start.hits + found, limit)) by {
                    assert((start.hits + found).take((start.hits + part).len() as int)
                        =~= start.hits + part);
                }
            }
        }
        if self.hits.len() > before && !holds(&self.hit_files, rel) {
            self.hit_files.push(owned(rel));
            proof {
                assert(self@.hit_files =~= start.hit_files.push(rel@));
            }
        }
    }

    /// A file was read. It is passed over where it could not be read, where it is
    /// not a text, or where the pattern is no regular expression.
    pub fn on_read(&mut self, file: &str, bytes: Option<&Vec<u8>>)
        requires
            !is_full(old(self)@, old(self).plan().max_results as int),
        ensures
            final(self).plan() == old(self).plan(),
            final(self)@ == (match bytes {
                Some(b) => if is_text(b@) && is_pattern(old(self).plan().pattern@) {
                    searched(
                        old(self)@,
                        shown(file@, old(self).plan().root@),
                        line_list(lossy(b@)),
                        matching_lines(old(self).plan().pattern@, line_list(lossy(b@))),
                        old(self).plan().line_numbers,
                        old(self).plan().max_results as int,
                    )
                } else {
                    old(self)@
                },
                None => old(self)@,
            }),
            final(self)@ == after_read(
                old(self)@,
                old(self).plan(),
                file@,
                match bytes {
                    Some(b) => Some(b@),
                    None => None,
                },
            ),
    {
        match bytes {
            None => {},
            Some(b) => {
                if has_no_zero(b) {
                    let rel = show_path(file, self.plan.root.as_str());
                    let rows = lines(from_utf8_lossy(b).as_str());
                    let ghost all = line_list(lossy(b@));
                    match match_each(self.plan.pattern.as_str(), &rows) {
                        Some(matched) => {
                            proof {
                                assert(all.len() == rows@.len());
                                assert forall|j: int| 0 <= j < matched@.len() implies matched@[j]
                                    == (#[trigger] matching_lines(
                                    self.plan.pattern@,
                                    all,
                                )[j]) by {
                                    assert(all[j] == rows@[j]@);
                                }
                                assert(matched@ =~= matching_lines(self.plan.pattern@, all));
                            }
                            self.on_lines(rel.as_str(), &rows, &matched);
                        },
                        None => {},
                    }
                }
            },
        }
    }

    /// The result of the search.
    pub fn finish(&self) -> (r: ToolResult)
        ensures
            r@ == grep_result(
                self.plan().pattern@,
                self.plan().root@,
                self@,
                self.plan().max_results as int,
            ),
    {
        let mut shown_hits: Vec<String> = Vec::new();
        let ghost all = self@.hits;
        let mut i: usize = 0;
        while i < self.hits.len() && (i as u64) < self.plan.max_results
            invariant
                i <= self.hits@.len(),
                i <= self.plan.max_results,
                all == texts(self.hits@),
                texts(shown_hits@) == all.take(i as int),
            decreases self.hits@.len() - i,
        {
            let ghost before = texts(shown_hits@);
            shown_hits.push(self.hits[i].clone());
            proof {
                assert(texts(shown_hits@) =~= before.push(self.hits@[i as int]@));
                assert(all.take(i + 1) =~= before.push(self.hits@[i as int]@));
            }
            i = i + 1;
        }
        let ghost want = if all.len() <= self.plan.max_results {
            all
        } else {
            all.take(self.plan.max_results as int)
        };
        proof {
            assert(texts(shown_hits@) =~= want);
        }
        let content = if shown_hits.len() == 0 {
            owned("No matches found")
        } else {
            join(&shown_hits, "\n")
        };
        let mut f = Fields::new();
        f.put_str("pattern", self.plan.pattern.as_str());
        f.put_str("root", self.plan.root.as_str());
        f.put_uint("matches", shown_hits.len() as u64);
        f.put_uint("files", self.hit_files.len() as u64);
        proof {
            assert(self@.hit_files.len() == self.hit_files@.len());
        }
        ToolResult { success: shown_hits.len() > 0, content, metadata: Some(f.done()) }
    }
}

/// Which lines match a regular expression.
pub open spec fn matching_lines(pattern: Seq<char>, rows: Seq<Seq<char>>) -> Seq<bool> {
    Seq::new(rows.len(), |i: int| pattern_matches(pattern, rows[i]))
}

/// The hits in the first lines of a file are the first of its hits.
proof fn lemma_hits_grow(
    rel: Seq<char>,
    rows: Seq<Seq<char>>,
    matched: Seq<bool>,
    numbers: bool,
    k: int,
)
    requires
        0 <= k <= rows.len(),
    ensures
        file_hits(rel, rows.take(k), matched, numbers).is_prefix_of(
            file_hits(rel, rows, matched, numbers),
        ),
    decreases rows.len() - k,
{
    let part = file_hits(rel, rows.take(k), matched, numbers);
    if k == rows.len() {
        assert(rows.take(k) =~= rows);
        assert(part.subrange(0, part.len() as int) =~= part);
    } else {
        lemma_hits_grow(rel, rows, matched, numbers, k + 1);
        let more = file_hits(rel, rows.take(k + 1), matched, numbers);
        let all = file_hits(rel, rows, matched, numbers);
        assert(rows.take(k + 1).drop_last() =~= rows.take(k));
        assert(more.subrange(0, part.len() as int) =~= part);
        assert(all.subrange(0, part.len() as int) =~= more.subrange(0, part.len() as int));
    }
}

/// One more line of a file adds its own hit and nothing else: where the line matches, is
/// not blank, and the search is not full, the line stands behind the hits that were
/// there, after the path, with its number where numbers are asked for, and without the
/// white space around it. Files without lines add nothing.
pub proof fn lines_add_their_own_hits(
    g: GrepView,
    rel: Seq<char>,
    rows: Seq<Seq<char>>,
    row: Seq<char>,
    matched: Seq<bool>,
    numbers: bool,
    limit: int,
)
    requires
        matched.len() == rows.len() + 1,
        g.hits.len() <= 1 || g.hits.len() <= limit,
    ensures
        searched(g, rel, seq![], matched, numbers, limit) == g,
        ({
            let before = searched(g, rel, rows, matched, numbers, limit).hits;
            let after = searched(g, rel, rows.push(row), matched, numbers, limit).hits;
            let full = before.len() > 0 && before.len() >= limit;
            if matched.last() && trimmed(row).len() > 0 && !full {
                after == before.push(
                    if numbers {
                        rel + ":"@ + dec((rows.len() + 1) as nat) + ": "@ + trimmed(row)
                    } else {
                        rel + ": "@ + trimmed(row)
                    },
                )
            } else {
                after == before
            }
        }),
{
    let all = rows.push(row);
    assert(all.drop_last() =~= rows);
    let found = file_hits(rel, rows, matched, numbers);
    let more = file_hits(rel, all, matched, numbers);
    let none: Seq<Seq<char>> = seq![];
    assert(file_hits(rel, none, matched, numbers) =~= none);
    assert(g.hits + none =~= g.hits);
    assert(limited(g.hits, limit) == g.hits);
    if matched.last() && trimmed(row).len() > 0 {
        let line = hit_line(rel, rows.len() as int, row, numbers);
        assert(more == found.push(line));
        assert(g.hits + more =~= (g.hits + found).push(line));
        let before = limited(g.hits + found, limit);
        let after = limited(g.hits + more, limit);
        if before.len() > 0 && before.len() >= limit {
            assert(after =~= before);
        } else {
            assert(after =~= before.push(line));
        }
    }
}

/// A file that is searched: how its path is shown, its lines, and which of them match.
pub struct SearchedFile {
    pub rel: Seq<char>,
    pub rows: Seq<Seq<char>>,
    pub matched: Seq<bool>,
}

/// A search through files, one after the other.
pub open spec fn searched_all(
    g: GrepView,
    files: Seq<SearchedFile>,
    numbers: bool,
    limit: int,
) -> GrepView
    decreases files.len(),
{
    if files.len() == 0 {
        g
    } else {
        let f = files.last();
        searched(
            searched_all(g, files.drop_last(), numbers, limit),
            f.rel,
            f.rows,
            f.matched,
            numbers,
            limit,
        )
    }
}

/// A search finds every line that matches, in whichever of the files it stands: the line
/// is among the hits, unless they are as many as may be. The files with hits are told.
pub proof fn every_matching_line_is_found(
    files: Seq<SearchedFile>,
    numbers: bool,
    limit: int,
    f: int,
    i: int,
)
    requires
        0 <= f < files.len(),
        0 <= i < files[f].rows.len(),
        files[f].matched[i],
        trimmed(files[f].rows[i]).len() > 0,
    ensures
        ({
            let hits = searched_all(
                GrepView { hits: seq![], hit_files: seq![] },
                files,
                numbers,
                limit,
            ).hits;
            (hits.len() > 0 && hits.len() >= limit) || hits.contains(
                if numbers {
                    files[f].rel + ":"@ + dec((i + 1) as nat) + ": "@ + trimmed(files[f].rows[i])
                } else {
                    files[f].rel + ": "@ + trimmed(files[f].rows[i])
                },
            )
        }),
    decreases files.len(),
{
    let none = GrepView { hits: seq![], hit_files: seq![] };
    let front = files.drop_last();
    let before = searched_all(none, front, numbers, limit);
    let last = files.last();
    let after = searched(before, last.rel, last.rows, last.matched, numbers, limit);
    let line = hit_line(files[f].rel, i, files[f].rows[i], numbers);
    lemma_within_limit(front, numbers, limit);
    searches_keep_to_the_limit(before, last.rel, last.rows, last.matched, numbers, limit);
    if f < front.len() {
        assert(front[f] == files[f]);
        every_matching_line_is_found(front, numbers, limit, f, i);
        if before.hits.contains(line) {
            let k = choose|k: int| 0 <= k < before.hits.len() && before.hits[k] == line;
            assert(after.hits[k] == line);
        }
    } else {
        let found = file_hits(last.rel, last.rows, last.matched, numbers);
        lemma_hit_is_there(last.rel, last.rows, last.matched, numbers, i);
        let k = choose|k: int| 0 <= k < found.len() && found[k] == line;
        let all = before.hits + found;
        assert(all[before.hits.len() + k] == line);
        if after.hits.len() == all.len() {
            assert(after.hits[before.hits.len() + k] == line);
        }
    }
}

/// A search through files holds no more than it may.
proof fn lemma_within_limit(files: Seq<SearchedFile>, numbers: bool, limit: int)
    ensures
        ({
            let hits = searched_all(
                GrepView { hits: seq![], hit_files: seq![] },
                files,
                numbers,
                limit,
            ).hits;
            hits.len() <= 1 || hits.len() <= limit
        }),
    decreases files.len(),
{
    if files.len() > 0 {
        lemma_within_limit(files.drop_last(), numbers, limit);
        let f = files.last();
        searches_keep_to_the_limit(
            searched_all(
                GrepView { hits: seq![], hit_files: seq![] },
                files.drop_last(),
                numbers,
                limit,
            ),
            f.rel,
            f.rows,
            f.matched,
            numbers,
            limit,
        );
    }
}

/// A line that matches and is not blank is a hit of its file.
proof fn lemma_hit_is_there(
    rel: Seq<char>,
    rows: Seq<Seq<char>>,
    matched: Seq<bool>,
    numbers: bool,
    i: int,
)
    requires
        0 <= i < rows.len(),
        matched[i],
        trimmed(rows[i]).len() > 0,
    ensures
        file_hits(rel, rows, matched, numbers).contains(hit_line(rel, i, rows[i], numbers)),
{
    let upto = rows.take(i + 1);
    assert(upto.last() == rows[i]);
    assert(upto.drop_last() =~= rows.take(i));
    let found = file_hits(rel, upto, matched, numbers);
    assert(found.last() == hit_line(rel, i, rows[i], numbers));
    lemma_hits_grow(rel, rows, matched, numbers, i + 1);
    assert(file_hits(rel, rows, matched, numbers)[found.len() - 1] == found.last());
}

/// A file is told as one with hits exactly where it was told before or adds a hit, and
/// no file is told twice.
pub proof fn files_with_hits_are_told_once(
    g: GrepView,
    rel: Seq<char>,
    rows: Seq<Seq<char>>,
    matched: Seq<bool>,
    numbers: bool,
    limit: int,
)
    requires
        g.hit_files.no_duplicates(),
        g.hits.len() <= 1 || g.hits.len() <= limit,
    ensures
        ({
            let after = searched(g, rel, rows, matched, numbers, limit);
            &&& after.hit_files.no_duplicates()
            &&& g.hit_files.is_prefix_of(after.hit_files)
            &&& after.hit_files.contains(rel) <==> (g.hit_files.contains(rel) || after.hits.len()
                > g.hits.len())
            &&& forall|other: Seq<char>|
                other != rel ==> (#[trigger] after.hit_files.contains(other)
                    <==> g.hit_files.contains(other))
        }),
{
    let after = searched(g, rel, rows, matched, numbers, limit);
    searches_keep_to_the_limit(g, rel, rows, matched, numbers, limit);
    if after.hit_files != g.hit_files {
        assert(after.hit_files.last() == rel);
        assert forall|other: Seq<char>| other != rel implies (#[trigger] after.hit_files.contains(
            other,
        ) <==> g.hit_files.contains(other)) by {
            if g.hit_files.contains(other) {
                let k = choose|k: int| 0 <= k < g.hit_files.len() && g.hit_files[k] == other;
                assert(after.hit_files[k] == other);
            }
            if after.hit_files.contains(other) {
                let k = choose|k: int| 0 <= k < after.hit_files.len() && after.hit_files[k] == other;
                assert(g.hit_files[k] == other);
            }
        }
        assert forall|a: int, b: int|
            0 <= a < after.hit_files.len() && 0 <= b < after.hit_files.len() && a
                != b implies after.hit_files[a] != after.hit_files[b] by {
            if a < g.hit_files.len() {
                assert(g.hit_files.contains(g.hit_files[a]));
            }
            if b < g.hit_files.len() {
                assert(g.hit_files.contains(g.hit_files[b]));
            }
        }
    }
}

/// The result of a search in files shows its hits, a line each, no more than so many,
/// and says how many they are and in how many files they stand. A search without hits
/// is no success.
pub proof fn searches_show_their_hits(
    pattern: Seq<char>,
    root: Seq<char>,
    g: GrepView,
    limit: int,
)
    requires
        limit >= 0,
    ensures
        ({
            let r = grep_result(pattern, root, g, limit);
            let n = if g.hits.len() <= limit {
                g.hits.len() as int
            } else {
                limit
            };
            &&& r.success == (n > 0)
            &&& n == 0 ==> r.content == "No matches found"@
            &&& n > 0 ==> r.content == joined(g.hits.take(n), "\n"@)
            &&& r.metadata matches Some(m) && m.at("pattern"@) == Json::Str(pattern) && m.at(
                "root"@,
            ) == Json::Str(root) && m.at("matches"@) == Json::Num(n) && m.at("files"@)
                == Json::Num(g.hit_files.len() as int)
        }),
{
    broadcast use lemma_lookup_push;
    lemma_metadata_names();
    assert(g.hits.take(g.hits.len() as int) =~= g.hits);
}

/// The names of what a search says of itself differ.
proof fn lemma_metadata_names()
    ensures
        "pattern"@ != "root"@,
        "pattern"@ != "matches"@,
        "pattern"@ != "files"@,
        "pattern"@ != "count"@,
        "pattern"@ != "truncated"@,
        "root"@ != "matches"@,
        "root"@ != "files"@,
        "root"@ != "count"@,
        "root"@ != "truncated"@,
        "matches"@ != "files"@,
        "count"@ != "truncated"@,
{
    reveal_strlit("pattern");
    reveal_strlit("root");
    reveal_strlit("matches");
    reveal_strlit("files");
    reveal_strlit("count");
    reveal_strlit("truncated");
    assert("pattern"@[0] == 'p' && "matches"@[0] == 'm');
    assert("root"@.len() == 4 && "files"@.len() == 5 && "count"@.len() == 5);
    assert("pattern"@.len() == 7 && "matches"@.len() == 7 && "truncated"@.len() == 9);
}

/// The result of a search by glob pattern shows the files that were found, a line each,
/// and says how many they are and whether there may be more. A search that finds no
/// file is no success.
pub proof fn searches_show_their_files(
    pattern: Seq<char>,
    root: Seq<char>,
    found: Seq<Seq<char>>,
    limit: int,
)
    ensures
        ({
            let r = glob_result(pattern, root, found, limit);
            &&& r.success == (found.len() > 0)
            &&& found.len() == 0 ==> r.content == "No files matched pattern"@
            &&& found.len() > 0 ==> r.content == joined(found, "\n"@)
            &&& r.metadata matches Some(m) && m.at("pattern"@) == Json::Str(pattern) && m.at(
                "root"@,
            ) == Json::Str(root) && m.at("count"@) == Json::Num(found.len() as int) && m.at(
                "truncated"@,
            ) == Json::Bool(found.len() >= limit)
        }),
{
    broadcast use lemma_lookup_push;
    lemma_metadata_names();
}

/// One more item is taken exactly where it is marked and the limit is not reached, and
/// it stands behind the others.
pub proof fn marked_items_are_taken_in_order(
    items: Seq<Seq<char>>,
    item: Seq<char>,
    marked: Seq<bool>,
    limit: int,
)
    requires
        marked.len() == items.len() + 1,
    ensures
        first_marked(seq![], marked, limit).len() == 0,
        first_marked(items.push(item), marked, limit) == (if marked.last() && first_marked(
            items,
            marked,
            limit,
        ).len() < limit {
            first_marked(items, marked, limit).push(item)
        } else {
            first_marked(items, marked, limit)
        }),
{
    assert(items.push(item).drop_last() =~= items);
}

/// Every item that is marked is taken, unless so many were taken already.
pub proof fn every_marked_item_is_taken(
    items: Seq<Seq<char>>,
    marked: Seq<bool>,
    limit: int,
    j: int,
)
    requires
        0 <= j < items.len(),
        marked[j],
    ensures
        first_marked(items, marked, limit).contains(items[j]) || first_marked(
            items,
            marked,
            limit,
        ).len() >= limit,
    decreases items.len(),
{
    let front = items.drop_last();
    let before = first_marked(front, marked, limit);
    let after = first_marked(items, marked, limit);
    if j < front.len() {
        assert(front[j] == items[j]);
        every_marked_item_is_taken(front, marked, limit, j);
        if before.contains(items[j]) {
            let k = choose|k: int| 0 <= k < before.len() && before[k] == items[j];
            assert(after[k] == items[j]);
        }
    } else if before.len() < limit {
        assert(after.last() == items[j]);
    }
}

/// A file is searched exactly where it is marked.
pub proof fn marked_files_are_searched(files: Seq<Seq<char>>, file: Seq<char>, marked: Seq<bool>)
    requires
        marked.len() == files.len() + 1,
    ensures
        included(seq![], marked).len() == 0,
        included(files.push(file), marked) == (if marked.last() {
            included(files, marked).push(file)
        } else {
            included(files, marked)
        }),
{
    assert(files.push(file).drop_last() =~= files);
}

/// The directories of versions, dependencies, builds, caches and editors are not
/// searched, and every other one is.
pub proof fn only_listed_directories_are_unsearched(name: Seq<char>)
    ensures
        is_unsearched(name) <==> seq![
            ".git"@,
            "node_modules"@,
            "target"@,
            "dist"@,
            "build"@,
            ".venv"@,
            "venv"@,
            "__pycache__"@,
            ".next"@,
            ".cache"@,
            ".idea"@,
            ".vscode"@,
        ].contains(name),
{
    let all = seq![
        ".git"@,
        "node_modules"@,
        "target"@,
        "dist"@,
        "build"@,
        ".venv"@,
        "venv"@,
        "__pycache__"@,
        ".next"@,
        ".cache"@,
        ".idea"@,
        ".vscode"@,
    ];
    assert(all[0] == ".git"@ && all[1] == "node_modules"@ && all[2] == "target"@ && all[3]
        == "dist"@ && all[4] == "build"@ && all[5] == ".venv"@ && all[6] == "venv"@ && all[7]
        == "__pycache__"@ && all[8] == ".next"@ && all[9] == ".cache"@ && all[10] == ".idea"@
        && all[11] == ".vscode"@);
}

/// Whether a path is that of a file among the entries of a directory.
pub open spec fn is_file_in(
    entries: Seq<(Seq<char>, EntryKind)>,
    dir: Seq<char>,
    path: Seq<char>,
) -> bool {
    exists|j: int|
        0 <= j < entries.len() && (#[trigger] entries[j]).1 == EntryKind::File && path == path_join(
            dir,
            entries[j].0,
        )
}

/// Whether a path is that of a directory to be searched among the entries of a
/// directory.
pub open spec fn is_dir_in(
    entries: Seq<(Seq<char>, EntryKind)>,
    dir: Seq<char>,
    path: Seq<char>,
) -> bool {
    exists|j: int|
        0 <= j < entries.len() && (#[trigger] entries[j]).1 == EntryKind::Dir && !is_unsearched(
            entries[j].0,
        ) && path == path_join(dir, entries[j].0)
}

/// A walk takes up every entry of a directory that it reads: a file is found, a
/// directory that is searched is read later, one deeper, and nothing else changes.
pub proof fn walks_take_up_every_entry(
    w: WalkView,
    dir: Seq<char>,
    depth: nat,
    entries: Seq<(Seq<char>, EntryKind)>,
    i: int,
)
    requires
        0 <= i < entries.len(),
    ensures
        ({
            let after = walked(w, dir, depth, entries);
            &&& w.files.is_prefix_of(after.files) && w.stack.is_prefix_of(after.stack)
            &&& entries[i].1 == EntryKind::File ==> after.files.contains(
                path_join(dir, entries[i].0),
            )
            &&& entries[i].1 == EntryKind::Dir && !is_unsearched(entries[i].0)
                ==> after.stack.contains((path_join(dir, entries[i].0), depth + 1))
            &&& forall|k: int|
                w.files.len() <= k < after.files.len() ==> is_file_in(
                    entries,
                    dir,
                    #[trigger] after.files[k],
                )
            &&& forall|k: int|
                w.stack.len() <= k < after.stack.len() ==> is_dir_in(
                    entries,
                    dir,
                    (#[trigger] after.stack[k]).0,
                ) && after.stack[k].1 == depth + 1
        }),
{
    lemma_walked(w, dir, depth, entries);
    let after = walked(w, dir, depth, entries);
    lemma_walked_entry(w, dir, depth, entries, i);
}

/// What a walk adds comes from the entries.
proof fn lemma_walked(
    w: WalkView,
    dir: Seq<char>,
    depth: nat,
    entries: Seq<(Seq<char>, EntryKind)>,
)
    ensures
        ({
            let after = walked(w, dir, depth, entries);
            &&& w.files.is_prefix_of(after.files) && w.stack.is_prefix_of(after.stack)
            &&& forall|k: int|
                w.files.len() <= k < after.files.len() ==> is_file_in(
                    entries,
                    dir,
                    #[trigger] after.files[k],
                )
            &&& forall|k: int|
                w.stack.len() <= k < after.stack.len() ==> is_dir_in(
                    entries,
                    dir,
                    (#[trigger] after.stack[k]).0,
                ) && after.stack[k].1 == depth + 1
        }),
    decreases entries.len(),
{
    let after = walked(w, dir, depth, entries);
    if entries.len() > 0 {
        let front = entries.drop_last();
        let before = walked(w, dir, depth, front);
        lemma_walked(w, dir, depth, front);
        let n = entries.len() - 1;
        assert forall|k: int| w.files.len() <= k < after.files.len() implies is_file_in(
            entries,
            dir,
            #[trigger] after.files[k],
        ) by {
            if k < before.files.len() {
                assert(before.files[k] == after.files[k]);
                let j = choose|j: int|
                    0 <= j < front.len() && (#[trigger] front[j]).1 == EntryKind::File
                        && before.files[k] == path_join(dir, front[j].0);
                assert(entries[j] == front[j]);
            } else {
                assert(entries[n].1 == EntryKind::File);
                assert(after.files[k] == path_join(dir, entries[n].0));
            }
        }
        assert forall|k: int| w.stack.len() <= k < after.stack.len() implies is_dir_in(
            entries,
            dir,
            (#[trigger] after.stack[k]).0,
        ) && after.stack[k].1 == depth + 1 by {
            if k < before.stack.len() {
                assert(before.stack[k] == after.stack[k]);
                let j = choose|j: int|
                    0 <= j < front.len() && (#[trigger] front[j]).1 == EntryKind::Dir
                        && !is_unsearched(front[j].0) && before.stack[k].0 == path_join(
                        dir,
                        front[j].0,
                    );
                assert(entries[j] == front[j]);
            } else {
                assert(entries[n].1 == EntryKind::Dir);
                assert(after.stack[k] == (path_join(dir, entries[n].0), depth + 1));
            }
        }
    }
}

/// What a walk makes of one entry.
proof fn lemma_walked_entry(
    w: WalkView,
    dir: Seq<char>,
    depth: nat,
    entries: Seq<(Seq<char>, EntryKind)>,
    i: int,
)
    requires
        0 <= i < entries.len(),
    ensures
        ({
            let after = walked(w, dir, depth, entries);
            &&& entries[i].1 == EntryKind::File ==> after.files.contains(
                path_join(dir, entries[i].0),
            )
            &&& entries[i].1 == EntryKind::Dir && !is_unsearched(entries[i].0)
                ==> after.stack.contains((path_join(dir, entries[i].0), depth + 1))
        }),
    decreases entries.len(),
{
    let front = entries.drop_last();
    let before = walked(w, dir, depth, front);
    let after = walked(w, dir, depth, entries);
    let file = path_join(dir, entries[i].0);
    let deeper = (path_join(dir, entries[i].0), depth + 1);
    if i < front.len() {
        assert(front[i] == entries[i]);
        lemma_walked_entry(w, dir, depth, front, i);
        if before.files.contains(file) {
            let k = choose|k: int| 0 <= k < before.files.len() && before.files[k] == file;
            assert(after.files[k] == file);
        }
        if before.stack.contains(deeper) {
            let k = choose|k: int| 0 <= k < before.stack.len() && before.stack[k] == deeper;
            assert(after.stack[k] == deeper);
        }
    } else {
        if entries[i].1 == EntryKind::File {
            assert(after.files.last() == file);
        }
        if entries[i].1 == EntryKind::Dir && !is_unsearched(entries[i].0) {
            assert(after.stack.last() == deeper);
        }
    }
}

/// Directories are read down to the tenth level and no deeper: of those that are still
/// to be read, the one that was found last is read next, unless it is too deep.
pub proof fn walks_go_ten_levels_deep(
    stack: Seq<(Seq<char>, nat)>,
    dir: Seq<char>,
    depth: nat,
)
    ensures
        depth < 10 ==> readable(stack.push((dir, depth))) == stack.push((dir, depth)),
        depth >= 10 ==> readable(stack.push((dir, depth))) == readable(stack),
        readable(seq![]).len() == 0,
{
    assert(stack.push((dir, depth)).drop_last() =~= stack);
}

/// The files that are found are all given, each as often as it was found, in the order
/// of their paths, where the parts between slashes are compared one after the other.
pub proof fn files_are_given_in_order(files: Seq<Seq<char>>)
    ensures
        in_path_order(files).to_multiset() == files.to_multiset(),
        forall|i: int, j: int|
            0 <= i < j < in_path_order(files).len() ==> !before(
                replaced(#[trigger] in_path_order(files)[j], "/"@, "\0"@),
                replaced(#[trigger] in_path_order(files)[i], "/"@, "\0"@),
            ),
{
    broadcast use vstd::seq_lib::group_to_multiset_ensures;

    let keys = path_keys(files);
    let all = sorted(keys);
    sorting_is_stable(keys);
    sorting_keeps_every_item(keys);
    let given = in_path_order(files);
    lemma_values_multiset(all, keys);
    assert(Seq::new(all.len(), |i: int| all[i].1) =~= given);
    assert(Seq::new(keys.len(), |i: int| keys[i].1) =~= files);
    assert forall|i: int| 0 <= i < all.len() implies (#[trigger] all[i]).0 == replaced(
        all[i].1,
        "/"@,
        "\0"@,
    ) by {
        assert(all.contains(all[i]));
        assert(keys.contains(all[i]));
    }
}

/// The values of items that are the same up to their order are the same up to theirs.
proof fn lemma_values_multiset(
    a: Seq<(Seq<char>, Seq<char>)>,
    b: Seq<(Seq<char>, Seq<char>)>,
)
    requires
        a.to_multiset() == b.to_multiset(),
    ensures
        Seq::new(a.len(), |i: int| a[i].1).to_multiset() == Seq::new(
            b.len(),
            |i: int| b[i].1,
        ).to_multiset(),
    decreases a.len(),
{
    broadcast use vstd::seq_lib::group_to_multiset_ensures;

    let x = Seq::new(a.len(), |i: int| a[i].1);
    let y = Seq::new(b.len(), |i: int| b[i].1);
    if a.len() == 0 {
        assert(a.to_multiset().len() == 0);
        assert(b.len() == b.to_multiset().len());
        assert(x =~= y);
    } else {
        let last = a.last();
        assert(a.contains(last));
        assert(a.to_multiset().count(last) > 0);
        assert(b.contains(last));
        let k = choose|k: int| 0 <= k < b.len() && b[k] == last;
        let p = a.drop_last();
        let q = b.remove(k);
        assert(a =~= p.push(last));
        assert(b =~= q.insert(k, last));
        assert(p.to_multiset() =~= a.to_multiset().remove(last));
        assert(q.to_multiset() =~= b.to_multiset().remove(last));
        lemma_values_multiset(p, q);
        let u = Seq::new(p.len(), |i: int| p[i].1);
        let v = Seq::new(q.len(), |i: int| q[i].1);
        assert(x =~= u.push(last.1));
        assert(y.remove(k) =~= v);
        assert(y.to_multiset().remove(last.1) == v.to_multiset());
        assert(y.contains(y[k]));
        assert(y.to_multiset().count(last.1) > 0);
        assert(y.to_multiset() =~= v.to_multiset().insert(last.1));
    }
}

/// Each sign of a glob pattern stands for what it should: two stars for any text, with a
/// slash behind them that may be missing; one star for any text without a slash; a
/// question mark for one character that is no slash; and any other sign for itself,
/// guarded where it would mean something in a regular expression. A pattern is held
/// against the whole subject.
pub proof fn glob_signs_stand_for(c: char, s: Seq<char>)
    ensures
        glob_body(seq!['*', '*', '/'] + s) == ".*/?"@ + glob_body(s),
        s.len() == 0 || s[0] != '/' ==> glob_body(seq!['*', '*'] + s) == ".*"@ + glob_body(s),
        s.len() == 0 || s[0] != '*' ==> glob_body(seq!['*'] + s) == "[^/]*"@ + glob_body(s),
        glob_body(seq!['?'] + s) == "[^/]"@ + glob_body(s),
        c != '*' && c != '?' && !".+()[]{}^$|\\"@.contains(c) ==> glob_body(seq![c] + s)
            == seq![c] + glob_body(s),
        ".+()[]{}^$|\\"@.contains(c) ==> glob_body(seq![c] + s) == seq!['\\', c] + glob_body(s),
        glob_body(seq![]).len() == 0,
        glob_regex(s) == "^"@ + glob_body(s) + "$"@,
{
    reveal_strlit(".*/?");
    reveal_strlit(".*");
    reveal_strlit("/?");
    reveal_strlit(".+()[]{}^$|\\");
    let signs = ".+()[]{}^$|\\"@;
    assert(signs.len() == 12);
    assert(signs[0] == '.' && signs[1] == '+' && signs[2] == '(' && signs[3] == ')' && signs[4]
        == '[' && signs[5] == ']' && signs[6] == '{' && signs[7] == '}' && signs[8] == '^'
        && signs[9] == '$' && signs[10] == '|' && signs[11] == '\\');
    assert(is_special(c) == signs.contains(c));
    let any = seq!['*', '*', '/'] + s;
    assert(any.skip(3) =~= s);
    assert(".*"@ + "/?"@ + glob_body(s) =~= ".*/?"@ + glob_body(s));
    let two = seq!['*', '*'] + s;
    assert(two.skip(2) =~= s);
    let one = seq!['*'] + s;
    assert(one.skip(1) =~= s);
    let mark = seq!['?'] + s;
    assert(mark.skip(1) =~= s);
    let other = seq![c] + s;
    assert(other.skip(1) =~= s);
    assert(other[0] == c);
}

/// A pattern with a slash is held against the path below the root, one without against
/// the name of the file; and a file is found exactly where its subject matches.
pub proof fn patterns_are_held_against(
    pattern: Seq<char>,
    root: Seq<char>,
    files: Seq<Seq<char>>,
    i: int,
)
    requires
        0 <= i < files.len(),
    ensures
        glob_matches(pattern, root, files).len() == files.len(),
        has(pattern, "/"@) ==> glob_matches(pattern, root, files)[i] == pattern_matches(
            glob_regex(pattern),
            shown(files[i], root),
        ),
        has(pattern, "/"@) == false && last_name(files[i]) is Some ==> glob_matches(
            pattern,
            root,
            files,
        )[i] == pattern_matches(glob_regex(pattern), last_name(files[i])->0),
{
}

/// A search takes place where it is asked for: in the directory that is given, below the
/// workspace where it is relative, else in the workspace; with the limit that is given.
pub proof fn searches_start_where_asked(ctx: ToolContext, input: Json, otherwise: int)
    ensures
        input.at("path"@) matches Json::Str(p) ==> search_root(ctx, input) == resolved_path(ctx, p),
        !(input.at("path"@) is Str) ==> search_root(ctx, input) == ctx.workspace_dir@,
        input.at("max_results"@) matches Json::Num(n) && 0 <= n <= u64::MAX ==> limit_or(
            input,
            otherwise,
        ) == input.at("max_results"@)->Num_0,
        !(input.at("max_results"@) is Num) ==> limit_or(input, otherwise) == otherwise,
{
}

/// A search in files is what was asked for: its pattern, the files that it is limited
/// to, a hundred hits unless a number is given, and line numbers unless they are not
/// wanted.
pub proof fn searches_are_as_asked(p: GrepPlan, ctx: ToolContext, pattern: Seq<char>, input: Json)
    requires
        is_grep_plan(p, ctx, pattern, input),
    ensures
        p.pattern@ == pattern,
        !(input.at("max_results"@) is Num) ==> p.max_results == 100,
        input.at("max_results"@) matches Json::Num(n) && 0 <= n <= u64::MAX ==> p.max_results
            == input.at("max_results"@)->Num_0,
        p.line_numbers <==> input.at("line_numbers"@) != Json::Bool(false),
        match input.at("include"@) {
            Json::Str(only) => p.only matches Some(s) && s@ == only,
            _ => p.only is None,
        },
{
}

/// A search after a file was read, or could not be.
pub open spec fn after_read(
    g: GrepView,
    plan: GrepPlan,
    file: Seq<char>,
    bytes: Option<Seq<u8>>,
) -> GrepView {
    match bytes {
        Some(b) => if is_text(b) && is_pattern(plan.pattern@) {
            searched(
                g,
                shown(file, plan.root@),
                line_list(lossy(b)),
                matching_lines(plan.pattern@, line_list(lossy(b))),
                plan.line_numbers,
                plan.max_results as int,
            )
        } else {
            g
        },
        None => g,
    }
}

/// A file that was read is searched line by line, each line that the pattern matches is
/// found, under the path of the file below the root, unless the search is full. A file
/// with a zero byte in it, or one that could not be read, is passed over.
pub proof fn files_are_searched_line_by_line(
    g: GrepView,
    plan: GrepPlan,
    file: Seq<char>,
    bytes: Seq<u8>,
    i: int,
)
    requires
        g.hits.len() <= 1 || g.hits.len() <= plan.max_results,
    ensures
        after_read(g, plan, file, None) == g,
        bytes.contains(0) ==> after_read(g, plan, file, Some(bytes)) == g,
        !bytes.contains(0) && is_pattern(plan.pattern@) && 0 <= i < line_list(lossy(bytes)).len()
            && pattern_matches(plan.pattern@, line_list(lossy(bytes))[i]) && trimmed(
            line_list(lossy(bytes))[i],
        ).len() > 0 ==> {
            let after = after_read(g, plan, file, Some(bytes)).hits;
            let line = trimmed(line_list(lossy(bytes))[i]);
            (after.len() > 0 && after.len() >= plan.max_results) || after.contains(
                if plan.line_numbers {
                    shown(file, plan.root@) + ":"@ + dec((i + 1) as nat) + ": "@ + line
                } else {
                    shown(file, plan.root@) + ": "@ + line
                },
            )
        },
{
    let rows = line_list(lossy(bytes));
    let rel = shown(file, plan.root@);
    let matched = matching_lines(plan.pattern@, rows);
    if !bytes.contains(0) && is_pattern(plan.pattern@) && 0 <= i < rows.len() && pattern_matches(
        plan.pattern@,
        rows[i],
    ) && trimmed(rows[i]).len() > 0 {
        lemma_hit_is_there(rel, rows, matched, plan.line_numbers, i);
        let found = file_hits(rel, rows, matched, plan.line_numbers);
        let line = hit_line(rel, i, rows[i], plan.line_numbers);
        let k = choose|k: int| 0 <= k < found.len() && found[k] == line;
        let all = g.hits + found;
        let after = after_read(g, plan, file, Some(bytes)).hits;
        assert(all[g.hits.len() + k] == line);
        if after.len() == all.len() {
            assert(after[g.hits.len() + k] == line);
        }
    }
}

} // verus!
