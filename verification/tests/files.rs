use clawrig::paths::{file_name, is_absolute, join_path, parent_path, path_components, path_starts_with, show_path, strip_base};
use clawrig::tools::code::{git_dir, repo_dir, EditFileTool, GitCommitTool, GitDiffTool, GitStatusTool};
use clawrig::tools::filesystem::{
    display_path, resolve_path, DeleteFileTool, ListDirTool, ListEntry, ReadFileTool, WriteFileTool,
};
use clawrig::tools::search::{
    glob_to_regex, root_not_found, skips_search, take_marked, FileWalk, GlobTool, GrepRun, GrepTool, WalkEntry,
};
use clawrig::tools::ToolContext;
use clawrig::value::{parse_json, Data};
use clawrig::workspace::{
    delete_file_response, file_document, flatten_tree, list_files_response, no_files_response, path_in,
    project_dirs, projects_response, read_file_response, session_workspace_dir, skips_dir, tree_level, tree_node, workspace_session, write_file_response,
    written_text, EntryKind, PathProbe, Refusal, TreeEntry,
};

fn show(d: &Data) -> String {
    match d {
        Data::Null => "null".to_string(),
        Data::Bool(b) => b.to_string(),
        Data::Uint(n) => n.to_string(),
        Data::Int(n) => n.to_string(),
        Data::Float(s) => s.clone(),
        Data::Str(s) => format!("{:?}", s),
        Data::List(v) => format!("[{}]", v.iter().map(show).collect::<Vec<_>>().join(",")),
        Data::Table(v) => {
            format!("{{{}}}", v.iter().map(|(k, x)| format!("{:?}:{}", k, show(x))).collect::<Vec<_>>().join(","))
        }
    }
}

fn ctx() -> ToolContext {
    ToolContext {
        agent_id: "main".to_string(),
        session_id: "s1".to_string(),
        channel: "web".to_string(),
        peer_id: "p".to_string(),
        workspace_dir: "/work/s1".to_string(),
    }
}

fn json(text: &str) -> Data {
    parse_json(text).unwrap()
}

#[test]
fn paths_are_joined_and_taken_apart() {
    assert!(is_absolute("/a") && !is_absolute("a") && !is_absolute(""));
    assert_eq!(join_path("/a", "b"), "/a/b");
    assert_eq!(join_path("/a/", "b"), "/a/b");
    assert_eq!(join_path("/a", "/b"), "/b");
    assert_eq!(join_path("", "b"), "b");
    assert_eq!(path_components("/a//./b/"), vec!["/", "a", "b"]);
    assert_eq!(path_components("./a"), vec![".", "a"]);
    assert!(path_starts_with("/a/b", "/a"));
    assert!(!path_starts_with("/ab", "/a"));
    assert_eq!(strip_base("/a/b/c", "/a").as_deref(), Some("b/c"));
    assert_eq!(strip_base("/x", "/a"), None);
    assert_eq!(show_path("/a/b\\c", "/a"), "b/c");
    assert_eq!(file_name("/a/b.rs").as_deref(), Some("b.rs"));
    assert_eq!(file_name("/a/.."), None);
    assert_eq!(file_name("/"), None);
}

#[test]
fn tool_paths_land_in_the_workspace() {
    assert_eq!(resolve_path(&ctx(), "src/a.rs"), "/work/s1/src/a.rs");
    assert_eq!(resolve_path(&ctx(), "/etc/hosts"), "/etc/hosts");
    assert_eq!(display_path(&ctx(), "/work/s1/src/a.rs"), "src/a.rs");
    assert_eq!(display_path(&ctx(), "/etc/hosts"), "/etc/hosts");
}

#[test]
fn files_are_read_written_and_deleted() {
    let c = ctx();
    assert_eq!(ReadFileTool::plan(&c, &json("{\"path\": \"a.txt\"}")).unwrap(), "/work/s1/a.txt");
    assert_eq!(ReadFileTool::plan(&c, &json("{}")).unwrap_err().message, "Missing 'path' parameter");
    let missing = ReadFileTool::not_found(&c, "/work/s1/a.txt");
    assert!(!missing.success && missing.metadata.is_none());
    assert_eq!(missing.content, "File not found: a.txt");
    let read = ReadFileTool::finish(&c, "/work/s1/a.txt", "h\u{e9}".to_string());
    assert_eq!(read.content, "h\u{e9}");
    assert_eq!(show(&read.metadata.unwrap()), "{\"path\":\"a.txt\",\"size\":3}");

    let plan = WriteFileTool::plan(&c, &json("{\"path\": \"d/b.txt\", \"content\": \"xyz\"}")).unwrap();
    assert_eq!(plan.path, "/work/s1/d/b.txt");
    assert_eq!(plan.content, "xyz");
    let written = WriteFileTool::finish(&c, &plan);
    assert_eq!(written.content, "File written: d/b.txt");
    assert_eq!(show(&written.metadata.unwrap()), "{\"path\":\"d/b.txt\",\"bytes_written\":3}");
    assert_eq!(
        WriteFileTool::plan(&c, &json("{\"path\": \"b\"}")).unwrap_err().message,
        "Missing 'content' parameter"
    );
    assert_eq!(
        WriteFileTool::plan(&c, &json("{\"content\": \"b\"}")).unwrap_err().message,
        "Missing 'path' parameter"
    );

    assert_eq!(DeleteFileTool::plan(&c, &json("{\"path\": \"x\"}")).unwrap(), "/work/s1/x");
    assert_eq!(DeleteFileTool::plan(&c, &json("{}")).unwrap_err().message, "Missing 'path' parameter");
    assert_eq!(DeleteFileTool::not_found(&c, "/work/s1/x").content, "File not found: x");
    let deleted = DeleteFileTool::finish(&c, "/work/s1/x", true);
    assert_eq!(deleted.content, "Deleted: x");
    assert_eq!(show(&deleted.metadata.unwrap()), "{\"path\":\"x\",\"was_dir\":true}");
}

#[test]
fn directories_are_listed_first() {
    let c = ctx();
    assert_eq!(ListDirTool::plan(&c, &json("{}")), "/work/s1/.");
    assert_eq!(ListDirTool::not_found("/nowhere").content, "Directory not found: /nowhere");
    let entry = |name: &str, is_dir: bool| ListEntry { name: name.to_string(), is_dir };
    let listed = ListDirTool::finish(
        &c,
        "/work/s1/sub",
        vec![entry("b.txt", false), entry("z", true), entry("a.txt", false), entry("m", true)],
    );
    assert_eq!(listed.content, "m/\nz/\na.txt\nb.txt");
    assert_eq!(show(&listed.metadata.unwrap()), "{\"path\":\"sub\",\"count\":4}");
    let empty = ListDirTool::finish(&c, "/work/s1", Vec::new());
    assert!(empty.success);
    assert_eq!(empty.content, "(empty directory)");
}

#[test]
fn edits_change_one_place() {
    let c = ctx();
    let plan =
        EditFileTool::plan(&c, &json("{\"path\": \"a.rs\", \"old_string\": \"one\", \"new_string\": \"two!\"}")).unwrap();
    assert_eq!(plan.path, "a.rs");
    assert_eq!(plan.file, "/work/s1/a.rs");
    let edit = EditFileTool::apply(&plan, "x one y\nz\n");
    assert_eq!(edit.updated.as_deref(), Some("x two! y\nz\n"));
    assert_eq!(edit.result.content, "Edited a.rs: replaced 3 chars with 4 chars (2 line total).");
    assert_eq!(show(&edit.result.metadata.unwrap()), "{\"path\":\"a.rs\"}");

    let none = EditFileTool::apply(&plan, "nothing");
    assert!(none.updated.is_none() && !none.result.success);
    assert_eq!(
        none.result.content,
        "old_string not found in a.rs (7 chars searched). Use read_file first to see exact contents."
    );
    let twice = EditFileTool::apply(&plan, "one one");
    assert!(twice.updated.is_none() && !twice.result.success);
    assert_eq!(
        twice.result.content,
        "old_string found 2 times in a.rs. Include more surrounding context to make it unique."
    );
    let end = EditFileTool::plan(&c, &json("{\"path\": \"/t/a.rs\", \"new_string\": \"!\"}")).unwrap();
    assert_eq!(end.file, "/t/a.rs");
    assert_eq!(EditFileTool::apply(&end, "abc").updated.as_deref(), Some("abc!"));
    assert_eq!(
        EditFileTool::plan(&c, &json("{\"new_string\": \"!\"}")).unwrap_err().message,
        "Missing required parameter: path"
    );
    assert_eq!(
        EditFileTool::plan(&c, &json("{\"path\": \"a\"}")).unwrap_err().message,
        "Missing required parameter: new_string"
    );
}

#[test]
fn git_results() {
    let c = ctx();
    assert_eq!(repo_dir(&c, &json("{\"path\": \"sub\"}")).as_deref(), Some("/work/s1/sub"));
    assert_eq!(repo_dir(&c, &json("{}")), None);
    assert_eq!(GitStatusTool::arguments(), vec!["status", "--short", "--branch"]);
    assert_eq!(GitStatusTool::finish("/r", "").content, "Git repository at /r is clean.");
    assert_eq!(GitStatusTool::finish("/r", "## main\n").content, "Git status for /r:\n## main\n");
    assert!(GitDiffTool::is_staged(&json("{\"staged\": true}")));
    assert!(!GitDiffTool::is_staged(&json("{}")));
    assert_eq!(GitDiffTool::arguments(true, true), vec!["diff", "--staged", "--stat"]);
    assert_eq!(GitDiffTool::arguments(false, true), vec!["diff", "--stat"]);
    assert_eq!(GitDiffTool::arguments(true, false), vec!["diff", "--staged"]);
    assert_eq!(GitDiffTool::arguments(false, false), vec!["diff"]);
    assert_eq!(GitCommitTool::add_arguments(), vec!["add", "-A"]);
    assert_eq!(GitCommitTool::commit_arguments("fix it"), vec!["commit", "-m", "fix it"]);
    assert_eq!(GitCommitTool::show_arguments(), vec!["log", "-1", "--oneline"]);
    assert_eq!(GitDiffTool::finish("st", "").content, "Diff stat:\nst\n\n(no changes)");
    let long = "x".repeat(30001);
    let cut = GitDiffTool::finish("", &long).content;
    assert_eq!(cut, format!("Diff stat:\n\n\n{}\n... [diff truncated]", "x".repeat(30000)));
    assert_eq!(GitCommitTool::message(&json("{\"message\": \"m\"}")).unwrap(), "m");
    assert_eq!(
        GitCommitTool::message(&json("{}")).unwrap_err().message,
        "Missing required parameter: message"
    );
    assert_eq!(
        GitCommitTool::finish("", " done \n", "abc m\n").content,
        "Staged: (nothing to stage)\nCommitted: done\nabc m"
    );
    assert_eq!(GitCommitTool::finish(" a ", "b", "c").content, "Staged: a\nCommitted: b\nc");
}

#[test]
fn git_runs_where_it_is_told() {
    let dir = |named, is_file, cwd| git_dir(named, is_file, cwd).map_err(|e| e.message);
    assert_eq!(dir(Some("/r/sub"), false, Some("/c")), Ok("/r/sub".to_string()));
    assert_eq!(dir(Some("/r//a.rs"), true, Some("/c")), Ok("/r".to_string()));
    assert_eq!(dir(Some("/a.rs"), true, None), Ok("/".to_string()));
    assert_eq!(dir(Some("a.rs"), true, None), Ok(String::new()));
    assert_eq!(dir(Some("/"), true, None), Err("Could not determine directory from path".to_string()));
    assert_eq!(dir(None, false, Some("/c")), Ok("/c".to_string()));
    assert_eq!(dir(None, false, None), Err("Failed to resolve current directory".to_string()));
    assert_eq!(parent_path("./a"), Some(".".to_string()));
    assert_eq!(parent_path("/a/./b/"), Some("/a".to_string()));
    assert_eq!(parent_path(""), None);
}

#[test]
fn projects_are_looked_for_right_in_the_workspace() {
    let entry = |name: &str, kind: EntryKind| WalkEntry { name: name.to_string(), kind };
    let entries = vec![
        entry("api", EntryKind::Dir),
        entry("node_modules", EntryKind::Dir),
        entry("a.txt", EntryKind::File),
    ];
    let dirs: Vec<(String, String, String)> =
        project_dirs("/w/s1", &entries).into_iter().map(|d| (d.path, d.name, d.rel)).collect();
    let s = |t: &str| t.to_string();
    assert_eq!(dirs, vec![(s("/w/s1"), s("s1"), s("")), (s("/w/s1/api"), s("api"), s("api"))]);
}

#[test]
fn glob_patterns_become_regular_expressions() {
    assert_eq!(glob_to_regex("**/*.rs"), "^.*/?[^/]*\\.rs$");
    assert_eq!(glob_to_regex("src/**"), "^src/.*$");
    assert_eq!(glob_to_regex("a?c"), "^a[^/]c$");
    assert_eq!(glob_to_regex("a+(b)"), "^a\\+\\(b\\)$");
    assert_eq!(glob_to_regex("plain"), "^plain$");
}

#[test]
fn walks_pass_over_what_is_not_searched() {
    assert!(skips_search(".git") && skips_search("target") && !skips_search("src"));
    let mut walk = FileWalk::new("/r");
    assert_eq!(walk.next_dir(), Some(("/r".to_string(), 0)));
    let entry = |name: &str, kind: EntryKind| WalkEntry { name: name.to_string(), kind };
    walk.on_entries(
        "/r",
        0,
        &vec![
            entry("z.rs", EntryKind::File),
            entry("src", EntryKind::Dir),
            entry(".git", EntryKind::Dir),
            entry("link", EntryKind::Other),
        ],
    );
    assert_eq!(walk.next_dir(), Some(("/r/src".to_string(), 1)));
    walk.on_entries("/r/src", 1, &vec![entry("a.rs", EntryKind::File)]);
    assert_eq!(walk.next_dir(), None);
    assert_eq!(walk.walk_files(), vec!["/r/src/a.rs", "/r/z.rs"]);
}

#[test]
fn walks_stop_at_the_deepest_level() {
    let mut walk = FileWalk::new("/r");
    let mut seen = 0;
    while let Some((dir, depth)) = walk.next_dir() {
        seen += 1;
        walk.on_entries(&dir, depth, &vec![WalkEntry { name: "d".to_string(), kind: EntryKind::Dir }]);
    }
    assert_eq!(seen, 10);
}

#[test]
fn files_are_found_by_pattern() {
    let c = ctx();
    assert_eq!(GlobTool::plan(&c, &json("{}")).unwrap_err().message, "Missing 'pattern' parameter");
    let plan = GlobTool::plan(&c, &json("{\"pattern\": \"*.rs\", \"path\": \"/r\", \"max_results\": 2}")).unwrap();
    assert_eq!(plan.root, "/r");
    assert_eq!(plan.max_results, 2);
    let all: Vec<String> =
        ["/r/a.rs", "/r/b.txt", "/r/src/c.rs", "/r/src/d.rs"].iter().map(|s| s.to_string()).collect();
    let r = GlobTool::finish(&plan, &all).unwrap();
    assert_eq!(r.content, "a.rs\nsrc/c.rs");
    assert_eq!(
        show(&r.metadata.unwrap()),
        "{\"pattern\":\"*.rs\",\"root\":\"/r\",\"count\":2,\"truncated\":true}"
    );
    let deep = GlobTool::plan(&c, &json("{\"pattern\": \"src/*.rs\", \"path\": \"/r\"}")).unwrap();
    let r = GlobTool::finish(&deep, &all).unwrap();
    assert_eq!(r.content, "src/c.rs\nsrc/d.rs");
    let zero = GlobTool::plan(&c, &json("{\"pattern\": \"*.rs\", \"path\": \"/r\", \"max_results\": 0}")).unwrap();
    let r = GlobTool::finish(&zero, &all).unwrap();
    assert!(!r.success);
    assert_eq!(r.metadata.unwrap().u64_at("count"), Some(0));
    let none = GlobTool::plan(&c, &json("{\"pattern\": \"*.py\"}")).unwrap();
    assert_eq!(none.root, "/work/s1");
    assert_eq!(none.max_results, 200);
    let r = GlobTool::finish(&none, &all).unwrap();
    assert!(!r.success);
    assert_eq!(r.content, "No files matched pattern");
    assert_eq!(root_not_found("/r").content, "Directory not found: /r");
}

#[test]
fn searches_take_what_is_marked() {
    let files: Vec<String> = ["/r/a", "/r/b", "/r/c"].iter().map(|s| s.to_string()).collect();
    assert_eq!(take_marked(&files, "/r", &vec![true, false, true], 5), vec!["a", "c"]);
    assert_eq!(take_marked(&files, "/r", &vec![true, true, true], 2), vec!["a", "b"]);
    assert!(take_marked(&files, "/r", &vec![false, true, true], 0).is_empty());
    assert_eq!(take_marked(&files, "/r", &vec![false, true, true], 1), vec!["b"]);
}

#[test]
fn texts_are_found_in_files() {
    let c = ctx();
    assert_eq!(GrepTool::plan(&c, &json("{}")).unwrap_err().message, "Missing 'pattern' parameter");
    assert_eq!(
        GrepTool::plan(&c, &json("{\"pattern\": \"(\"}")).unwrap_err().message,
        "Invalid regex pattern"
    );
    let plan = GrepTool::plan(&c, &json("{\"pattern\": \"fn \", \"path\": \"/r\", \"include\": \"*.rs\"}")).unwrap();
    let all: Vec<String> = ["/r/a.rs", "/r/b.txt", "/r/c.rs"].iter().map(|s| s.to_string()).collect();
    let chosen = GrepTool::select(&plan, all).unwrap();
    assert_eq!(chosen, vec!["/r/a.rs", "/r/c.rs"]);
    let mut run = GrepRun::new(plan);
    run.on_read("/r/a.rs", Some(&b"  fn one() {}\nlet x;\nfn two() {}\n".to_vec()));
    run.on_read("/r/c.rs", Some(&vec![b'f', b'n', b' ', 0]));
    run.on_read("/r/d.rs", None);
    assert!(!run.is_done());
    let r = run.finish();
    assert_eq!(r.content, "a.rs:1: fn one() {}\na.rs:3: fn two() {}");
    assert_eq!(show(&r.metadata.unwrap()), "{\"pattern\":\"fn \",\"root\":\"/r\",\"matches\":2,\"files\":1}");
}

#[test]
fn searches_keep_to_the_limit() {
    let c = ctx();
    let plan = GrepTool::plan(
        &c,
        &json("{\"pattern\": \"x\", \"path\": \"/r\", \"max_results\": 2, \"line_numbers\": false}"),
    )
    .unwrap();
    let mut run = GrepRun::new(plan);
    run.on_lines(
        "f",
        &vec!["x1".to_string(), " ".to_string(), "x2".to_string(), "x3".to_string()],
        &vec![true, true, true, true],
    );
    assert!(run.is_done());
    assert_eq!(run.finish().content, "f: x1\nf: x2");
    let zero = GrepTool::plan(&c, &json("{\"pattern\": \"x\", \"path\": \"/r\", \"max_results\": 0}")).unwrap();
    let mut run = GrepRun::new(zero);
    run.on_lines("f", &vec!["x".to_string()], &vec![true]);
    let r = run.finish();
    assert!(!r.success);
    assert_eq!(r.content, "No matches found");
}

#[test]
fn workspace_paths_are_probed_upwards() {
    let mut p = PathProbe::new("/work/s1", "new/deep.txt");
    assert_eq!(p.probe(), "/work/s1/new/deep.txt");
    p.missing().unwrap();
    assert_eq!(p.probe(), "/work/s1/new");
    p.missing().unwrap();
    assert_eq!(p.probe(), "/work/s1");
    assert_eq!(p.found("/work/s1").unwrap(), "/work/s1/new/deep.txt");
    assert!(matches!(p.found("/elsewhere"), Err(Refusal::Forbidden)));
    let mut out = PathProbe::new("/work/s1", "../s2/x");
    assert_eq!(out.probe(), "/work/s1/../s2/x");
    out.missing().unwrap();
    assert!(matches!(out.found("/work/s2"), Err(Refusal::Forbidden)));
    let mut up = PathProbe::new("/work/s1", "gone/..");
    assert!(matches!(up.missing(), Err(Refusal::Forbidden)));
}

#[test]
fn refusals_have_codes() {
    assert_eq!(Refusal::BadRequest.code(), 400);
    assert_eq!(Refusal::Forbidden.code(), 403);
    assert_eq!(Refusal::NotFound.code(), 404);
    assert_eq!(Refusal::Internal.code(), 500);
}

#[test]
fn editor_answers() {
    assert_eq!(workspace_session(None), "default");
    assert_eq!(workspace_session(Some("s")), "s");
    let doc = file_document("/w", "/w/a/b.txt", "hi", 2);
    assert_eq!(show(&doc), "{\"path\":\"a/b.txt\",\"name\":\"b.txt\",\"content\":\"hi\",\"size\":2}");
    let read = read_file_response("/w", "/w/b.txt", &"h\u{e9}".as_bytes().to_vec());
    assert_eq!(show(&read), "{\"path\":\"b.txt\",\"name\":\"b.txt\",\"content\":\"h\u{e9}\",\"size\":3}");
    let odd = read_file_response("/w", "/w/b.txt", &vec![b'a', 0xff]);
    assert_eq!(odd.str_at("content"), Some("a\u{fffd}"));
    assert_eq!(written_text(Some("ab"), "c", Some(true)), "abc");
    assert_eq!(written_text(Some("ab"), "c", Some(false)), "c");
    assert_eq!(written_text(Some("ab"), "c", None), "c");
    assert_eq!(written_text(None, "c", Some(true)), "c");
    assert_eq!(show(&write_file_response("p", "h\u{e9}")), "{\"status\":\"ok\",\"path\":\"p\",\"bytes\":3}");
    assert_eq!(show(&delete_file_response("p")), "{\"status\":\"ok\",\"path\":\"p\"}");
    assert_eq!(show(&no_files_response()), "{\"root\":\"\",\"tree\":[],\"files\":[]}");
    assert_eq!(show(&projects_response(Vec::new())), "{\"projects\":[]}");
}

#[test]
fn flat_list_follows_the_tree() {
    let entry = |name: &str, kind: EntryKind, size: u64| TreeEntry { name: name.to_string(), kind, size, mtime: 7 };
    let level = tree_level(
        vec![
            entry("b.txt", EntryKind::File, 4),
            entry("node_modules", EntryKind::Dir, 0),
            entry("a", EntryKind::Dir, 0),
            entry("dev", EntryKind::Other, 0),
        ],
        0,
    );
    let names: Vec<&str> = level.iter().map(|e| e.name.as_str()).collect();
    assert_eq!(names, vec!["a", "b.txt"]);
    assert!(skips_dir("node_modules") && !skips_dir("a"));
    assert_eq!(path_in("", "a"), "a");
    assert_eq!(path_in("a", "c.txt"), "a/c.txt");
    let inner = tree_node(&entry("c.txt", EntryKind::File, 1), "a/c.txt", Vec::new());
    let dir = tree_node(&level[0], "a", vec![inner]);
    let leaf = tree_node(&level[1], "b.txt", Vec::new());
    let mut flat = Vec::new();
    flatten_tree(&vec![dir.clone(), leaf.clone()], &mut flat);
    let paths: Vec<String> = flat.iter().map(|d| d.text_at("path")).collect();
    assert_eq!(paths, vec!["a/c.txt", "b.txt"]);
    let all = list_files_response("/w", vec![dir, leaf]);
    assert_eq!(all.str_at("root"), Some("/w"));
    assert_eq!(all.list_at("files").unwrap().len(), 2);
    assert_eq!(all.list_at("tree").unwrap().len(), 2);
}

#[test]
fn sessions_have_their_own_folders() {
    assert_eq!(session_workspace_dir("/tmp", "web:main:1"), "/tmp/clawrig/session-web%3Amain%3A1");
    assert_eq!(session_workspace_dir("/tmp/", "../x"), "/tmp/clawrig/session-..%2Fx");
    assert_ne!(session_workspace_dir("/tmp", "a:b"), session_workspace_dir("/tmp", "a_b"));
}
