//! Reading, writing, listing and deleting files.
use vstd::prelude::*;

use crate::paths::{join_path, path_join, show_path, shown};
use crate::sort::{
    keyed, sort_by_key, sorted, sorting_is_stable, sorting_keeps_every_item, sorting_looks_at_keys,
    with_values, Keyed,
};
use crate::text::{before, byte_len, bytes_in, cat, join, joined, owned, texts};
use crate::value::{lemma_lookup_push, no_fields, Data, Fields, Json};

use super::{ResultView, ToolContext, ToolError, ToolResult};

verus! {

/// The path that a tool means: below the workspace, or the path itself where it
/// is absolute.
pub open spec fn resolved_path(ctx: ToolContext, path: Seq<char>) -> Seq<char> {
    path_join(ctx.workspace_dir@, path)
}

/// The path that a tool means.
pub fn resolve_path(ctx: &ToolContext, path_arg: &str) -> (r: String)
    ensures
        r@ == resolved_path(*ctx, path_arg@),
{
    join_path(ctx.workspace_dir.as_str(), path_arg)
}

/// A path as it is shown: relative to the workspace where it lies in it.
pub open spec fn displayed(ctx: ToolContext, path: Seq<char>) -> Seq<char> {
    shown(path, ctx.workspace_dir@)
}

/// A path as it is shown: relative to the workspace where it lies in it.
pub fn display_path(ctx: &ToolContext, path: &str) -> (r: String)
    ensures
        r@ == displayed(*ctx, path@),
{
    show_path(path, ctx.workspace_dir.as_str())
}

/// The path that the input names.
fn path_param(ctx: &ToolContext, input: &Data) -> (r: Result<String, ToolError>)
    ensures
        match input@.at("path"@).text() {
            Some(p) => r matches Ok(path) && path@ == resolved_path(*ctx, p),
            None => r matches Err(e) && e.message@ == "Missing 'path' parameter"@,
        },
{
    match input.str_at("path") {
        Some(p) => Ok(resolve_path(ctx, p)),
        None => Err(ToolError::new("Missing 'path' parameter")),
    }
}

/// The result where there is no file at a path.
pub open spec fn missing_file(ctx: ToolContext, path: Seq<char>) -> ResultView {
    ResultView {
        success: false,
        content: "File not found: "@ + displayed(ctx, path),
        metadata: None,
    }
}

/// The result where there is no file at a path.
fn no_such_file(ctx: &ToolContext, path: &str) -> (r: ToolResult)
    ensures
        r@ == missing_file(*ctx, path@),
{
    ToolResult {
        success: false,
        content: cat("File not found: ", display_path(ctx, path).as_str()),
        metadata: None,
    }
}

/// Reads a file.
pub struct ReadFileTool;

impl ReadFileTool {
    /// The file that is read.
    pub fn plan(ctx: &ToolContext, input: &Data) -> (r: Result<String, ToolError>)
        ensures
            match input@.at("path"@).text() {
                Some(p) => r matches Ok(path) && path@ == resolved_path(*ctx, p),
                None => r matches Err(e) && e.message@ == "Missing 'path' parameter"@,
            },
    {
        path_param(ctx, input)
    }

    /// The result where the file does not exist.
    pub fn not_found(ctx: &ToolContext, path: &str) -> (r: ToolResult)
        ensures
            r@ == missing_file(*ctx, path@),
    {
        no_such_file(ctx, path)
    }

    /// The result where the file holds that text.
    pub fn finish(ctx: &ToolContext, path: &str, content: String) -> (r: ToolResult)
        ensures
            r@ == (ResultView {
                success: true,
                content: content@,
                metadata: Some(
                    Json::Table(
                        no_fields().push(("path"@, Json::Str(displayed(*ctx, path@)))).push(
                            ("size"@, Json::Num(bytes_in(content@) as int)),
                        ),
                    ),
                ),
            }),
            r@ == read_result(*ctx, path@, content@),
    {
        let mut f = Fields::new();
        f.put_str("path", display_path(ctx, path).as_str());
        f.put_uint("size", byte_len(content.as_str()) as u64);
        ToolResult { success: true, content, metadata: Some(f.done()) }
    }
}

/// Writes a file.
pub struct WriteFileTool;

/// A file that is to be written.
#[derive(Debug)]
pub struct WritePlan {
    pub path: String,
    pub content: String,
}

impl WriteFileTool {
    /// The file that is written, and what is written to it.
    pub fn plan(ctx: &ToolContext, input: &Data) -> (r: Result<WritePlan, ToolError>)
        ensures
            match input@.at("path"@).text() {
                None => r matches Err(e) && e.message@ == "Missing 'path' parameter"@,
                Some(p) => match input@.at("content"@).text() {
                    None => r matches Err(e) && e.message@ == "Missing 'content' parameter"@,
                    Some(content) => r matches Ok(plan) && plan.path@ == resolved_path(*ctx, p)
                        && plan.content@ == content,
                },
            },
            r matches Ok(plan) ==> is_write_plan(plan, *ctx, input@),
    {
        let path = match path_param(ctx, input) {
            Ok(path) => path,
            Err(e) => {
                return Err(e);
            },
        };
        match input.str_at("content") {
            Some(content) => Ok(WritePlan { path, content: owned(content) }),
            None => Err(ToolError::new("Missing 'content' parameter")),
        }
    }

    /// The result where the file was written.
    pub fn finish(ctx: &ToolContext, plan: &WritePlan) -> (r: ToolResult)
        ensures
            r@ == (ResultView {
                success: true,
                content: "File written: "@ + displayed(*ctx, plan.path@),
                metadata: Some(
                    Json::Table(
                        no_fields().push(("path"@, Json::Str(displayed(*ctx, plan.path@)))).push(
                            ("bytes_written"@, Json::Num(bytes_in(plan.content@) as int)),
                        ),
                    ),
                ),
            }),
            r@ == write_result(*ctx, plan.path@, plan.content@),
    {
        let shown_path = display_path(ctx, plan.path.as_str());
        let mut f = Fields::new();
        f.put_str("path", shown_path.as_str());
        f.put_uint("bytes_written", byte_len(plan.content.as_str()) as u64);
        ToolResult {
            success: true,
            content: cat("File written: ", shown_path.as_str()),
            metadata: Some(f.done()),
        }
    }
}

/// An entry of a directory that is listed.
#[derive(Debug)]
pub struct ListEntry {
    pub name: String,
    pub is_dir: bool,
}

/// What an entry says.
pub struct EntryView {
    pub name: Seq<char>,
    pub is_dir: bool,
}

impl View for ListEntry {
    type V = EntryView;

    open spec fn view(&self) -> EntryView {
        EntryView { name: self.name@, is_dir: self.is_dir }
    }
}

/// What a list of entries says.
pub open spec fn entry_views(v: Seq<ListEntry>) -> Seq<EntryView> {
    Seq::new(v.len(), |i: int| v[i]@)
}

/// What orders the entries: directories come first, then names count.
pub open spec fn entry_key(e: EntryView) -> Seq<char> {
    if e.is_dir {
        "0"@ + e.name
    } else {
        "1"@ + e.name
    }
}

/// Entries with what orders them as keys.
pub open spec fn entry_keys(v: Seq<EntryView>) -> Seq<(Seq<char>, EntryView)> {
    Seq::new(v.len(), |i: int| (entry_key(v[i]), v[i]))
}

/// An entry as a line: a directory with a slash behind it.
pub open spec fn entry_line(e: EntryView) -> Seq<char> {
    if e.is_dir {
        e.name + "/"@
    } else {
        e.name
    }
}

/// The lines of a directory, in order.
pub open spec fn listing(entries: Seq<EntryView>) -> Seq<Seq<char>> {
    Seq::new(entries.len(), |i: int| entry_line(sorted(entry_keys(entries))[i].1))
}

/// In a listing every directory stands before every file, and within each of the
/// two no name stands before a lower one.
pub proof fn directories_are_listed_first(entries: Seq<EntryView>)
    ensures
        ({
            let s = sorted(entry_keys(entries));
            &&& s.len() == entries.len()
            &&& forall|i: int, j: int|
                0 <= i < j < s.len() ==> ((#[trigger] s[j]).1.is_dir ==> (#[trigger] s[i]).1.is_dir) && (
                s[i].1.is_dir == s[j].1.is_dir ==> !before(s[j].1.name, s[i].1.name))
        }),
{
    let given = entry_keys(entries);
    let s = sorted(given);
    sorting_is_stable(given);
    lemma_keys_kept(given);
    reveal_strlit("0");
    reveal_strlit("1");
    assert forall|i: int, j: int| 0 <= i < j < s.len() implies ((#[trigger] s[j]).1.is_dir ==> (
    #[trigger] s[i]).1.is_dir) && (s[i].1.is_dir == s[j].1.is_dir ==> !before(
        s[j].1.name,
        s[i].1.name,
    )) by {
        let a = s[i];
        let b = s[j];
        assert(!before(b.0, a.0));
        assert(a.0 == entry_key(a.1) && b.0 == entry_key(b.1));
        assert(a.0.drop_first() =~= a.1.name);
        assert(b.0.drop_first() =~= b.1.name);
    }
}

/// Sorting keeps each entry under its key.
proof fn lemma_keys_kept(s: Seq<(Seq<char>, EntryView)>)
    requires
        forall|i: int| 0 <= i < s.len() ==> (#[trigger] s[i]).0 == entry_key(s[i].1),
    ensures
        forall|i: int|
            0 <= i < sorted(s).len() ==> (#[trigger] sorted(s)[i]).0 == entry_key(sorted(s)[i].1),
    decreases s.len(),
{
    if s.len() > 0 {
        lemma_keys_kept(s.drop_last());
        lemma_key_kept(sorted(s.drop_last()), s.last());
    }
}

/// Inserting keeps each entry under its key.
proof fn lemma_key_kept(s: Seq<(Seq<char>, EntryView)>, x: (Seq<char>, EntryView))
    requires
        forall|i: int| 0 <= i < s.len() ==> (#[trigger] s[i]).0 == entry_key(s[i].1),
        x.0 == entry_key(x.1),
    ensures
        crate::sort::inserted(s, x).len() == s.len() + 1,
        forall|i: int|
            0 <= i <= s.len() ==> (#[trigger] crate::sort::inserted(s, x)[i]).0 == entry_key(
                crate::sort::inserted(s, x)[i].1,
            ),
    decreases s.len(),
{
    if s.len() > 0 && before(x.0, s.last().0) {
        lemma_key_kept(s.drop_last(), x);
    }
}

/// Lists a directory.
pub struct ListDirTool;

impl ListDirTool {
    /// The directory that is listed: the workspace where none is given.
    pub fn plan(ctx: &ToolContext, input: &Data) -> (r: String)
        ensures
            r@ == resolved_path(
                *ctx,
                match input@.at("path"@).text() {
                    Some(p) => p,
                    None => "."@,
                },
            ),
    {
        match input.str_at("path") {
            Some(p) => resolve_path(ctx, p),
            None => resolve_path(ctx, "."),
        }
    }

    /// The result where the directory does not exist.
    pub fn not_found(path: &str) -> (r: ToolResult)
        ensures
            r@ == (ResultView {
                success: false,
                content: "Directory not found: "@ + path@,
                metadata: None,
            }),
    {
        ToolResult { success: false, content: cat("Directory not found: ", path), metadata: None }
    }

    /// The result where the directory has those entries.
    pub fn finish(ctx: &ToolContext, path: &str, entries: Vec<ListEntry>) -> (r: ToolResult)
        ensures
            ({
                let text = joined(listing(entry_views(entries@)), "\n"@);
                r@ == (ResultView {
                    success: true,
                    content: if text.len() == 0 {
                        "(empty directory)"@
                    } else {
                        text
                    },
                    metadata: Some(
                        Json::Table(
                            no_fields().push(("path"@, Json::Str(displayed(*ctx, path@)))).push(
                                ("count"@, Json::Num(entries@.len() as int)),
                            ),
                        ),
                    ),
                })
            }),
            r@ == list_result(*ctx, path@, entry_views(entries@)),
    {
        let count: usize = entries.len();
        let rows = list_lines(entries);
        let text = join(&rows, "\n");
        let content = if text.as_str().is_empty() {
            owned("(empty directory)")
        } else {
            text
        };
        let mut f = Fields::new();
        f.put_str("path", display_path(ctx, path).as_str());
        f.put_uint("count", count as u64);
        ToolResult { success: true, content, metadata: Some(f.done()) }
    }
}

/// The lines of a directory, in order.
fn list_lines(entries: Vec<ListEntry>) -> (r: Vec<String>)
    ensures
        texts(r@) == listing(entry_views(entries@)),
{
    let ghost all = entry_views(entries@);
    let mut items: Vec<Keyed<ListEntry>> = Vec::new();
    for e in it: entries
        invariant
            it.seq() == entries@,
            items@.len() == it.index(),
            forall|j: int|
                0 <= j < it.index() ==> (#[trigger] items@[j]).key@ == entry_key(entries@[j]@)
                    && items@[j].value == entries@[j],
    {
        let key = if e.is_dir {
            cat("0", e.name.as_str())
        } else {
            cat("1", e.name.as_str())
        };
        items.push(Keyed { key, value: e });
    }
    let ghost f = |e: ListEntry| e@;
    proof {
        assert(with_values(keyed(items@), f) =~= entry_keys(all));
        sorting_looks_at_keys(keyed(items@), f);
        sorting_is_stable(entry_keys(all));
    }
    let done = sort_by_key(items);
    let mut out: Vec<String> = Vec::new();
    for i in 0..done.len()
        invariant
            out@.len() == i,
            forall|j: int| 0 <= j < i ==> #[trigger] out@[j]@ == entry_line(done@[j].value@),
    {
        let e = &done[i].value;
        out.push(
            if e.is_dir {
                cat(e.name.as_str(), "/")
            } else {
                e.name.clone()
            },
        );
    }
    proof {
        let want = listing(all);
        assert forall|j: int| 0 <= j < out@.len() implies texts(out@)[j] == (#[trigger] want[j]) by {
            assert(sorted(entry_keys(all))[j] == with_values(keyed(done@), f)[j]);
        }
        assert(texts(out@) =~= want);
    }
    out
}

/// Deletes a file or a directory.
pub struct DeleteFileTool;

impl DeleteFileTool {
    /// The file that is deleted.
    pub fn plan(ctx: &ToolContext, input: &Data) -> (r: Result<String, ToolError>)
        ensures
            match input@.at("path"@).text() {
                Some(p) => r matches Ok(path) && path@ == resolved_path(*ctx, p),
                None => r matches Err(e) && e.message@ == "Missing 'path' parameter"@,
            },
    {
        path_param(ctx, input)
    }

    /// The result where the file does not exist.
    pub fn not_found(ctx: &ToolContext, path: &str) -> (r: ToolResult)
        ensures
            r@ == missing_file(*ctx, path@),
    {
        no_such_file(ctx, path)
    }

    /// The result where the file, or the directory, was deleted.
    pub fn finish(ctx: &ToolContext, path: &str, was_dir: bool) -> (r: ToolResult)
        ensures
            r@ == (ResultView {
                success: true,
                content: "Deleted: "@ + displayed(*ctx, path@),
                metadata: Some(
                    Json::Table(
                        no_fields().push(("path"@, Json::Str(displayed(*ctx, path@)))).push(
                            ("was_dir"@, Json::Bool(was_dir)),
                        ),
                    ),
                ),
            }),
            r@ == delete_result(*ctx, path@, was_dir),
    {
        let shown_path = display_path(ctx, path);
        let mut f = Fields::new();
        f.put_str("path", shown_path.as_str());
        f.put_bool("was_dir", was_dir);
        ToolResult {
            success: true,
            content: cat("Deleted: ", shown_path.as_str()),
            metadata: Some(f.done()),
        }
    }
}

/// A path that a tool is given means a file below the workspace, or itself where it is
/// absolute.
pub proof fn paths_are_below_the_workspace(ctx: ToolContext, path: Seq<char>)
    ensures
        path.len() > 0 && path[0] == '/' ==> resolved_path(ctx, path) == path,
        (path.len() == 0 || path[0] != '/') && ctx.workspace_dir@.len() > 0
            && ctx.workspace_dir@.last() != '/' ==> resolved_path(ctx, path) == ctx.workspace_dir@
            + "/"@ + path,
{
}

/// A listing holds every entry of the directory, one line for each: the name, with a
/// slash behind it where it is a directory.
pub proof fn every_entry_is_listed(entries: Seq<EntryView>, i: int)
    requires
        0 <= i < entries.len(),
    ensures
        listing(entries).len() == entries.len(),
        entries[i].is_dir ==> listing(entries).contains(entries[i].name + "/"@),
        !entries[i].is_dir ==> listing(entries).contains(entries[i].name),
        forall|k: int|
            0 <= k < listing(entries).len() ==> is_line_of(entries, #[trigger] listing(entries)[k]),
{
    let keys = entry_keys(entries);
    let all = sorted(keys);
    sorting_keeps_every_item(keys);
    assert(keys[i] == (entry_key(entries[i]), entries[i]));
    assert(keys.contains(keys[i]));
    assert(all.contains(keys[i]));
    let k = choose|k: int| 0 <= k < all.len() && all[k] == keys[i];
    assert(listing(entries)[k] == entry_line(entries[i]));
    assert forall|k: int| 0 <= k < listing(entries).len() implies is_line_of(
        entries,
        #[trigger] listing(entries)[k],
    ) by {
        assert(all.contains(all[k]));
        assert(keys.contains(all[k]));
        let m = choose|m: int| 0 <= m < keys.len() && keys[m] == all[k];
        assert(entries[m] == all[k].1);
        assert(listing(entries)[k] == entry_line(entries[m]));
    }
}

/// Whether a line is that of one of the entries.
pub open spec fn is_line_of(entries: Seq<EntryView>, line: Seq<char>) -> bool {
    exists|m: int|
        0 <= m < entries.len() && line == (if (#[trigger] entries[m]).is_dir {
            entries[m].name + "/"@
        } else {
            entries[m].name
        })
}

/// A file that is not there is told by its path, and is no success.
pub proof fn missing_files_are_told(ctx: ToolContext, path: Seq<char>)
    ensures
        !missing_file(ctx, path).success,
        missing_file(ctx, path).content == "File not found: "@ + shown(path, ctx.workspace_dir@),
        missing_file(ctx, path).metadata is None,
{
}

/// The names of what is said of files differ.
proof fn lemma_file_names()
    ensures
        "path"@ != "size"@,
        "path"@ != "bytes_written"@,
        "path"@ != "count"@,
        "path"@ != "was_dir"@,
        "size"@ != "bytes_written"@,
        "size"@ != "count"@,
        "size"@ != "was_dir"@,
        "bytes_written"@ != "count"@,
        "bytes_written"@ != "was_dir"@,
        "count"@ != "was_dir"@,
{
    reveal_strlit("path");
    reveal_strlit("size");
    reveal_strlit("bytes_written");
    reveal_strlit("count");
    reveal_strlit("was_dir");
    assert("path"@.len() == 4);
    assert("size"@.len() == 4);
    assert("bytes_written"@.len() == 13);
    assert("count"@.len() == 5);
    assert("was_dir"@.len() == 7);
    assert("path"@[0] == 'p' && "size"@[0] == 's');
}


/// The result where a file holds that text.
pub open spec fn read_result(ctx: ToolContext, path: Seq<char>, content: Seq<char>) -> ResultView {
    ResultView {
        success: true,
        content,
        metadata: Some(
            Json::Table(
                no_fields().push(("path"@, Json::Str(displayed(ctx, path)))).push(
                    ("size"@, Json::Num(bytes_in(content) as int)),
                ),
            ),
        ),
    }
}

/// The result where a file was written.
pub open spec fn write_result(ctx: ToolContext, path: Seq<char>, content: Seq<char>) -> ResultView {
    ResultView {
        success: true,
        content: "File written: "@ + displayed(ctx, path),
        metadata: Some(
            Json::Table(
                no_fields().push(("path"@, Json::Str(displayed(ctx, path)))).push(
                    ("bytes_written"@, Json::Num(bytes_in(content) as int)),
                ),
            ),
        ),
    }
}

/// The result where a directory has those entries.
pub open spec fn list_result(
    ctx: ToolContext,
    path: Seq<char>,
    entries: Seq<EntryView>,
) -> ResultView {
    let text = joined(listing(entries), "\n"@);
    ResultView {
        success: true,
        content: if text.len() == 0 {
            "(empty directory)"@
        } else {
            text
        },
        metadata: Some(
            Json::Table(
                no_fields().push(("path"@, Json::Str(displayed(ctx, path)))).push(
                    ("count"@, Json::Num(entries.len() as int)),
                ),
            ),
        ),
    }
}

/// The result where a file, or a directory, was deleted.
pub open spec fn delete_result(ctx: ToolContext, path: Seq<char>, was_dir: bool) -> ResultView {
    ResultView {
        success: true,
        content: "Deleted: "@ + displayed(ctx, path),
        metadata: Some(
            Json::Table(
                no_fields().push(("path"@, Json::Str(displayed(ctx, path)))).push(
                    ("was_dir"@, Json::Bool(was_dir)),
                ),
            ),
        ),
    }
}

/// Whether a plan is what the input asks for.
pub open spec fn is_write_plan(plan: WritePlan, ctx: ToolContext, input: Json) -> bool {
    &&& input.at("content"@) == Json::Str(plan.content@)
    &&& input.at("path"@) matches Json::Str(p) && plan.path@ == resolved_path(ctx, p)
}

/// What is written is just the content that is given, to just the file that is given.
pub proof fn writes_write_what_is_given(plan: WritePlan, ctx: ToolContext, input: Json)
    requires
        is_write_plan(plan, ctx, input),
    ensures
        input.at("content"@).text() == Some(plan.content@),
        input.at("path"@) matches Json::Str(p) ==> plan.path@ == resolved_path(ctx, p),
{
}

/// A file that is read is given whole, however long it is, with its path and its size.
/// What was written, listed or deleted is told by its path, with how many bytes were
/// written, how many entries there are, or whether it was a directory. A directory is
/// listed line by line, and only one without lines is told to be empty.
pub proof fn files_are_given_whole(
    ctx: ToolContext,
    path: Seq<char>,
    content: Seq<char>,
    entries: Seq<EntryView>,
    was_dir: bool,
)
    ensures
        ({
            let r = read_result(ctx, path, content);
            &&& r.success && r.content == content
            &&& r.metadata matches Some(m) && m.at("path"@) == Json::Str(
                shown(path, ctx.workspace_dir@),
            ) && m.at("size"@) == Json::Num(bytes_in(content) as int)
        }),
        ({
            let r = write_result(ctx, path, content);
            &&& r.success && r.content == "File written: "@ + shown(path, ctx.workspace_dir@)
            &&& r.metadata matches Some(m) && m.at("path"@) == Json::Str(
                shown(path, ctx.workspace_dir@),
            ) && m.at("bytes_written"@) == Json::Num(bytes_in(content) as int)
        }),
        ({
            let r = list_result(ctx, path, entries);
            let text = joined(listing(entries), "\n"@);
            &&& r.success
            &&& text.len() > 0 ==> r.content == text
            &&& text.len() == 0 ==> r.content == "(empty directory)"@
            &&& r.metadata matches Some(m) && m.at("path"@) == Json::Str(
                shown(path, ctx.workspace_dir@),
            ) && m.at("count"@) == Json::Num(entries.len() as int)
        }),
        ({
            let r = delete_result(ctx, path, was_dir);
            &&& r.success && r.content == "Deleted: "@ + shown(path, ctx.workspace_dir@)
            &&& r.metadata matches Some(m) && m.at("path"@) == Json::Str(
                shown(path, ctx.workspace_dir@),
            ) && m.at("was_dir"@) == Json::Bool(was_dir)
        }),
{
    broadcast use lemma_lookup_push;

    lemma_file_names();
}

} // verus!
