use clawrig::name_map::TextMap;
use clawrig::project::{
    cargo_project, composer_project, dart_found, dep_from_spec, detect_project, gemfile_project, gems_found,
    go_project, maven_found, maven_project, npm_project, pubspec_project, pyproject_project, requirements_project,
    sorted_deps, Dep, Manifests,
};
use clawrig::tools::shell::{
    choose_launch, is_powershell_syntax, plan_launch, read_inner, script_name, unwrap_powershell_wrapper, Launch,
    ShellExecTool,
};
use clawrig::tools::todos::{next_id, TodoListTool};
use clawrig::tools::web::{
    decode_entities, resolve_ddg_url, strip_tags, unescape_url, url_decode, url_encode, SearchHit, WebFetchTool,
    WebSearchTool,
};
use clawrig::tools::{
    create_default_registry, mentions_lowercase, permission, BuiltinTool, PermissionMode, ToolContext, ToolError,
    ToolRegistry, ToolSchema,
};
use clawrig::value::{parse_json, parse_toml, Data};

fn show(d: &Data) -> String {
    match d {
        Data::Null => "null".to_string(),
        Data::Bool(b) => b.to_string(),
        Data::Uint(n) => n.to_string(),
        Data::Int(n) => n.to_string(),
        Data::Float(s) => s.clone(),
        Data::Str(s) => format!("{:?}", s),
        Data::List(v) => format!("[{}]", v.iter().map(show).collect::<Vec<_>>().join(",")),
        Data::Table(v) => {
            format!("{{{}}}", v.iter().map(|(k, x)| format!("{:?}:{}", k, show(x))).collect::<Vec<_>>().join(","))
        }
    }
}

fn json(text: &str) -> Data {
    parse_json(text).unwrap()
}

fn ctx(session: &str) -> ToolContext {
    ToolContext {
        agent_id: "main".to_string(),
        session_id: session.to_string(),
        channel: "web".to_string(),
        peer_id: "p".to_string(),
        workspace_dir: "/work".to_string(),
    }
}

fn deps(project: &Data) -> String {
    project
        .list_at("dependencies")
        .unwrap()
        .iter()
        .map(|d| format!("{} {} {}", d.text_at("name"), d.text_at("version"), d.text_at("kind")))
        .collect::<Vec<_>>()
        .join(", ")
}

#[test]
fn built_in_tools_are_as_listed() {
    let r = create_default_registry();
    assert_eq!(r.count(), 14);
    assert_eq!(r.get_schemas().len(), 14);
    let mut categories = r.list_categories();
    categories.sort();
    assert_eq!(categories, vec!["coding", "filesystem", "search", "shell", "todo", "web"]);
    assert!(r.get("edit_file").unwrap().handler == BuiltinTool::EditFile);
    assert!(r.get("nothing").is_none());
    let names: Vec<String> = r
        .get_schemas_for_task(&vec!["shell".to_string(), "none".to_string(), "search".to_string()])
        .into_iter()
        .map(|s| s.name)
        .collect();
    assert_eq!(names, vec!["shell_exec", "glob", "grep"]);
    let mut found: Vec<String> = r.search("GIT").into_iter().map(|s| s.name).collect();
    found.sort();
    assert_eq!(found, vec!["git_commit", "git_diff", "git_status", "grep"]);
    assert_eq!(r.search_named(&vec!["grep".to_string(), "glob".to_string()], "GREP")[0].name, "grep");
}

#[test]
fn registered_tools_are_found() {
    let schema = |name: &str| ToolSchema {
        name: name.to_string(),
        description: "Does things".to_string(),
        parameters: Data::Null,
    };
    let mut r: ToolRegistry<u32> = ToolRegistry::new();
    assert_eq!(r.count(), 0);
    r.register(schema("a"), permission(PermissionMode::Ask), 1, "x");
    r.register(schema("b"), permission(PermissionMode::Auto), 2, "x");
    r.register(schema("a"), permission(PermissionMode::Allow), 3, "y");
    assert_eq!(r.count(), 2);
    assert_eq!(r.get("a").unwrap().handler, 3);
    let mut own = TextMap::new();
    own.insert("b", permission(PermissionMode::Deny));
    assert!(r.check_permission("a", &own) == PermissionMode::Allow);
    assert!(r.check_permission("b", &own) == PermissionMode::Deny);
    assert!(r.check_permission("b", &TextMap::new()) == PermissionMode::Auto);
    assert!(r.check_permission("c", &own) == PermissionMode::Deny);
    assert!(mentions_lowercase("name", "text", "am") && !mentions_lowercase("name", "text", "x y"));
    assert_eq!(ToolError::new("m").message, "m");
}

#[test]
fn todos_are_kept_for_each_session() {
    let mut t = TodoListTool::new();
    let r = t.execute(&ctx("s"), &json("{}")).ok().unwrap();
    assert_eq!(r.content, "No todos yet. Use op=add to create one.");
    assert_eq!(show(&r.metadata.unwrap()), "{\"op\":\"list\",\"count\":0}");
    let r = t.execute(&ctx("s"), &json("{\"op\": \"ADD\", \"content\": \"one\"}")).ok().unwrap();
    assert_eq!(r.content, "Added todo #1: one [pending]");
    assert_eq!(
        show(&r.metadata.unwrap()),
        "{\"op\":\"add\",\"item\":{\"id\":\"1\",\"content\":\"one\",\"status\":\"pending\"},\"count\":1}"
    );
    t.execute(&ctx("s"), &json("{\"op\": \"add\", \"content\": \"two\", \"status\": \"done\"}")).ok().unwrap();
    let r = t.execute(&ctx("s"), &json("{\"op\": \"list\"}")).ok().unwrap();
    assert_eq!(r.content, "- [pending] #1: one\n- [done] #2: two");
    let r = t.execute(&ctx("other"), &json("{\"op\": \"list\"}")).ok().unwrap();
    assert_eq!(r.content, "No todos yet. Use op=add to create one.");
    let r = t.execute(&ctx("s"), &json("{\"op\": \"update\", \"id\": \"1\", \"status\": \"doing\"}")).ok().unwrap();
    assert_eq!(r.content, "Todo #1: one [doing]");
    let r = t.execute(&ctx("s"), &json("{\"op\": \"update\", \"id\": \"1\", \"content\": \"uno\"}")).ok().unwrap();
    assert_eq!(r.content, "Todo #1: uno [doing]");
    let r = t.execute(&ctx("s"), &json("{\"op\": \"update\", \"id\": \"9\"}")).ok().unwrap();
    assert!(!r.success);
    assert_eq!(r.content, "Todo #9 not found");
    let r = t.execute(&ctx("s"), &json("{\"op\": \"remove\", \"id\": \"1\"}")).ok().unwrap();
    assert_eq!(r.content, "Removed todo #1");
    assert_eq!(show(&r.metadata.unwrap()), "{\"op\":\"remove\",\"count\":1}");
    let r = t.execute(&ctx("s"), &json("{\"op\": \"remove\", \"id\": \"1\"}")).ok().unwrap();
    assert!(!r.success);
    assert_eq!(t.list_todos("s").len(), 1);
    let r = t.apply("s", "clear", &json("{}")).ok().unwrap();
    assert_eq!(r.content, "Cleared all todos");
    assert!(t.list_todos("s").is_empty());
    assert!(t.has_room("s"));
    let r = t.try_execute(&ctx("s"), &json("{\"op\": \"Add\", \"content\": \"x\"}")).unwrap().ok().unwrap();
    assert_eq!(r.content, "Added todo #1: x [pending]");
    assert_eq!(t.list_todos("s").len(), 1);
}

#[test]
fn todo_operations_are_checked() {
    let mut t = TodoListTool::new();
    let e = |r: Result<clawrig::tools::ToolResult, ToolError>| match r {
        Err(e) => e.message,
        Ok(r) => format!("ok {}", r.content),
    };
    assert_eq!(e(t.execute(&ctx("s"), &json("{\"op\": \"add\"}"))), "Missing 'content' parameter for add");
    assert_eq!(e(t.execute(&ctx("s"), &json("{\"op\": \"update\"}"))), "Missing 'id' parameter for update");
    assert_eq!(e(t.execute(&ctx("s"), &json("{\"op\": \"remove\"}"))), "Missing 'id' parameter for remove");
    assert_eq!(
        e(t.execute(&ctx("s"), &json("{\"op\": \"Dance\"}"))),
        "ok Unknown operation 'dance'. Valid ops: list, add, update, remove, clear"
    );
}

#[test]
fn new_ids_are_fresh() {
    assert_eq!(next_id(&vec![]), "1");
    assert_eq!(next_id(&vec![json("{\"id\": \"4\"}"), json("{\"id\": \"x\"}"), json("{\"id\": 9}"), json("{\"id\": \"2\"}")]), "5");
}

#[test]
fn entities_and_tags_are_read() {
    assert_eq!(decode_entities("a &amp; b &lt;c&gt; &quot;d&quot; &#x27;e&#39;&nbsp;f"), "a & b <c> \"d\" 'e' f");
    assert_eq!(decode_entities("&amp;lt;"), "<");
    assert_eq!(strip_tags(" <b>x</b>&amp;<i>y</i> "), "x & y");
}

#[test]
fn urls_are_encoded_and_decoded() {
    assert_eq!(url_encode("a b&c/\u{e9}~"), "a+b%26c%2F%C3%A9~");
    assert_eq!(url_decode("a+b%26c%2F%C3%A9~").as_deref(), Some("a b&c/\u{e9}~"));
    assert_eq!(url_decode("%41").as_deref(), Some("A"));
    assert_eq!(url_decode("100%").as_deref(), Some("100%"));
    assert_eq!(url_decode("%4").as_deref(), Some("%4"));
    assert_eq!(url_decode("%zz"), None);
    assert_eq!(url_decode("%ff"), None);
    assert_eq!(unescape_url("%zz"), "%zz");
    for text in ["", "plain", "a b+c%", "\u{4e2d}\u{6587} & more"] {
        assert_eq!(url_decode(&url_encode(text)).as_deref(), Some(text));
    }
}

#[test]
fn search_links_are_resolved() {
    assert_eq!(
        resolve_ddg_url("//duckduckgo.com/l/?uddg=https%3A%2F%2Fx.org%2Fa&rut=1"),
        "https://x.org/a"
    );
    assert_eq!(resolve_ddg_url("//x.org/a"), "https://x.org/a");
    assert_eq!(resolve_ddg_url("/l/a"), "https://duckduckgo.com/l/a");
    assert_eq!(resolve_ddg_url("http://x"), "http://x");
}

#[test]
fn pages_are_fetched() {
    let missing = WebFetchTool::plan(&json("{}"));
    assert_eq!(missing.unwrap_err().message, "Missing 'url' parameter");
    let plan = WebFetchTool::plan(&json("{\"url\": \"http://x\", \"max_length\": 3}")).unwrap();
    assert_eq!((plan.url.as_str(), plan.max_length), ("http://x", 3));
    assert!(WebFetchTool::can_cut(&plan, "abcd"));
    assert!(!WebFetchTool::can_cut(&plan, "ab\u{e9}d"));
    let r = WebFetchTool::finish(&plan, 404, false, "text/html", "abcd".to_string());
    assert!(!r.success);
    assert_eq!(r.content, "abc...[truncated at 3 chars]");
    assert_eq!(
        show(&r.metadata.unwrap()),
        "{\"url\":\"http://x\",\"status\":404,\"content_type\":\"text/html\",\"body_length\":4,\"truncated\":true}"
    );
    assert_eq!(WebFetchTool::finish(&plan, 200, true, "t", "abc".to_string()).content, "abc");
    assert_eq!(WebFetchTool::plan(&json("{\"url\": \"u\"}")).unwrap().max_length, 50000);
}

#[test]
fn web_searches_are_read() {
    assert_eq!(WebSearchTool::plan(&json("{}")).unwrap_err().message, "Missing 'query' parameter");
    let plan = WebSearchTool::plan(&json("{\"query\": \"a b\", \"max_results\": 99}")).unwrap();
    assert_eq!(plan.max_results, 20);
    assert_eq!(plan.url, "https://html.duckduckgo.com/html/?q=a+b");
    let failed = WebSearchTool::failed(503);
    assert_eq!(failed.content, "Search backend returned HTTP 503");
    assert_eq!(show(&failed.metadata.unwrap()), "{\"status\":503}");
    let body = "<a rel=\"x\" class=\"result__a\" href=\"//x.org/1\">One <b>&amp;</b></a><a class=\"result__snippet\" href=\"q\">first</a><a class=\"result__a\" href=\"/2\">Two</a>";
    let r = WebSearchTool::finish(&plan, body);
    assert_eq!(r.content, "1. One  & - https://x.org/1\n   first\n2. Two - https://duckduckgo.com/2");
    assert_eq!(show(&r.metadata.unwrap()), "{\"query\":\"a b\",\"count\":2}");
    let none = WebSearchTool::finish(&plan, "nothing");
    assert!(!none.success);
    assert_eq!(none.content, "No results for: a b");
    let hits = vec![SearchHit { href: "http://h".to_string(), title: "t".to_string() }];
    assert_eq!(WebSearchTool::report("q", &hits, &vec![String::new()]).content, "1. t - http://h");
}

#[test]
fn commands_are_launched() {
    assert_eq!(unwrap_powershell_wrapper(" powershell -NoProfile -Command \"Get-Date\" ").as_deref(), Some("Get-Date"));
    assert_eq!(unwrap_powershell_wrapper("PWSH.exe -command ''"), None);
    assert_eq!(unwrap_powershell_wrapper("ls -la"), None);
    assert_eq!(read_inner(&vec![]), None);
    assert_eq!(read_inner(&vec![vec![None, Some(" x ".to_string())]]).as_deref(), Some("x"));
    assert!(is_powershell_syntax("echo $ENV:PATH") && !is_powershell_syntax("ls"));
    assert!(matches!(plan_launch("ls", false), Launch::Sh));
    assert!(matches!(plan_launch("dir", true), Launch::Cmd));
    assert!(matches!(plan_launch("powershell -Command \"Get-Date\"", true), Launch::PowerShell(s) if s == "Get-Date"));
    assert!(matches!(plan_launch("Get-Date", true), Launch::PowerShell(s) if s == "Get-Date"));
    assert!(matches!(choose_launch("c", Some(("i".to_string(), false)), true), Launch::PowerShell(s) if s == "c"));
    assert!(matches!(choose_launch("c", None, false), Launch::Cmd));
    assert_eq!(script_name(5, 1), "clawrig_100000005.ps1");
    let c = ctx("s");
    assert_eq!(ShellExecTool::plan(&c, &json("{}"), false).unwrap_err().message, "Missing 'command' parameter");
    let p = ShellExecTool::plan(&c, &json("{\"command\": \"ls\", \"timeout\": 900, \"working_dir\": \"sub\"}"), false).unwrap();
    assert_eq!((p.command.as_str(), p.timeout_secs, p.working_dir.as_deref()), ("ls", 300, Some("/work/sub")));
    let p = ShellExecTool::plan(&c, &json("{\"command\": \"ls\"}"), false).unwrap();
    assert_eq!((p.timeout_secs, p.working_dir), (30, None));
}

#[test]
fn command_output_is_reported() {
    let r = ShellExecTool::finish("c", &b"out".to_vec(), &b"err".to_vec(), Some(2), false);
    assert!(!r.success);
    assert_eq!(r.content, "STDOUT:\nout\n\nSTDERR:\nerr");
    assert_eq!(
        show(&r.metadata.unwrap()),
        "{\"command\":\"c\",\"exit_code\":2,\"stdout_len\":3,\"stderr_len\":3}"
    );
    assert_eq!(ShellExecTool::finish("c", &b"out".to_vec(), &vec![], Some(0), true).content, "out");
    let killed = ShellExecTool::report("c", String::new(), "err".to_string(), None, false);
    assert_eq!(killed.content, "err");
    assert_eq!(killed.metadata.unwrap().i64_at("exit_code"), Some(-1));
}

fn manifests() -> Manifests {
    Manifests {
        cargo: None,
        package_json: None,
        pyproject: None,
        requirements: None,
        go_mod: None,
        composer: None,
        pom: None,
        build_gradle: false,
        build_gradle_kts: false,
        settings_gradle: false,
        settings_gradle_kts: false,
        gemfile: None,
        mix: false,
        pubspec: None,
        files: vec![],
    }
}

#[test]
fn specs_of_dependencies_are_split() {
    let show_dep = |d: Dep| format!("{}|{}|{}", d.name, d.version, d.kind);
    assert_eq!(show_dep(dep_from_spec("requests>=2.0,<3", "deps")), "requests|>=2.0,<3|deps");
    assert_eq!(show_dep(dep_from_spec(" torch[vision]~=2.1 ", "x")), "torch|[vision]~=2.1|x");
    assert_eq!(show_dep(dep_from_spec("flask", "deps")), "flask||deps");
    let d = |name: &str| Dep { name: name.to_string(), version: String::new(), kind: String::new() };
    let names: Vec<String> = sorted_deps(vec![d("b"), d("a"), d("c")]).into_iter().map(|d| d.name).collect();
    assert_eq!(names, vec!["a", "b", "c"]);
}

#[test]
fn cargo_and_npm_projects() {
    let doc = parse_toml("[package]\nname = \"p\"\nversion = \"1.0\"\n[dependencies]\nserde = { version = \"1\", features = [] }\nanyhow = \"1.0\"\n[dev-dependencies]\nx = { path = \"y\" }\n").unwrap();
    let p = cargo_project(&doc, "dir", "sub");
    assert_eq!(p.str_at("type"), Some("rust"));
    assert_eq!(p.str_at("icon"), Some("\u{1f980}"));
    assert_eq!(p.str_at("name"), Some("p"));
    assert_eq!(p.str_at("manifest"), Some("Cargo.toml"));
    assert_eq!(p.str_at("dir"), Some("sub"));
    assert_eq!(deps(&p), "anyhow 1.0 deps, serde 1 deps, x  dev");
    let p = npm_project(&json("{\"devDependencies\": {\"b\": \"^2\"}, \"dependencies\": {\"a\": 1}}"), "dir", "");
    assert_eq!(p.str_at("name"), Some("dir"));
    assert_eq!(p.str_at("type_label"), Some("Node.js"));
    assert_eq!(deps(&p), "a  deps, b ^2 dev");
    let p = composer_project(&json("{\"name\": \"v/p\", \"require\": {\"php\": \">=8\"}}"), "dir", "");
    assert_eq!(p.str_at("name"), Some("v/p"));
    assert_eq!(deps(&p), "php >=8 require");
}

#[test]
fn python_and_go_projects() {
    let doc = parse_toml("[project]\nname = \"py\"\ndependencies = [\"b>=1\", \"a\"]\n[project.optional-dependencies]\ntest = [\"pytest\"]\n[tool.poetry.dependencies]\npython = \"^3\"\n").unwrap();
    let p = pyproject_project(&doc, "dir", "");
    assert_eq!(p.str_at("name"), Some("py"));
    assert_eq!(deps(&p), "a  deps, b >=1 deps, pytest  test, python ^3 poetry");
    let p = requirements_project("# c\n\n-r other\n./local\nz==1\nflask\n", "dir", "");
    assert_eq!(p.str_at("manifest"), Some("requirements.txt"));
    assert_eq!(deps(&p), "flask  deps, z ==1 deps");
    let p = go_project("module example.com/me/tool\ngo 1.21\nrequire a.b/c v1\nrequire (\n// x\n  d.e/f v2 // indirect\n)\nother x y\n", "dir", "");
    assert_eq!(p.str_at("name"), Some("tool"));
    assert_eq!(p.str_at("version"), Some("1.21"));
    assert_eq!(deps(&p), "a.b/c v1 require, d.e/f v2 require");
}

#[test]
fn other_projects() {
    let pom = "<artifactId>app</artifactId><version>2</version><dependency>\n<groupId>g</groupId>\n<artifactId>lib</artifactId></dependency>";
    let p = maven_project(pom, "dir", "");
    assert_eq!((p.str_at("name"), p.str_at("version")), (Some("app"), Some("2")));
    assert_eq!(deps(&p), "lib  deps");
    assert_eq!(maven_found(&vec![], &vec![], &vec![], "dir", "").str_at("name"), Some("dir"));
    let p = gemfile_project("source 'https://rubygems.org'\ngem 'rails'\n  gem \"puma\"\n", "dir", "");
    assert_eq!(p.str_at("type"), Some("ruby"));
    assert_eq!(deps(&p), "puma  gem, rails  gem");
    let groups = vec![vec![None, Some("g".to_string())]];
    assert_eq!(deps(&gems_found(&groups, "dir", "")), "g  gem");
    assert_eq!(pubspec_project("# c\nname: app # n\n", "dir", "").str_at("name"), Some("app"));
    assert_eq!(dart_found(&vec![], "dir", "").str_at("name"), Some("dir"));
}

#[test]
fn earlier_manifests_take_precedence() {
    let kind = |m: &Manifests| detect_project(m, "dir", "").map(|p| (p.text_at("type"), p.text_at("manifest")));
    let mut m = manifests();
    assert_eq!(kind(&m), None);
    m.files = vec!["a.txt".to_string(), "App.csproj".to_string()];
    assert_eq!(kind(&m), Some(("dotnet".to_string(), "App.csproj".to_string())));
    m.pubspec = Some("name: x".to_string());
    assert_eq!(kind(&m), Some(("dart".to_string(), "pubspec.yaml".to_string())));
    m.mix = true;
    assert_eq!(kind(&m), Some(("elixir".to_string(), "mix.exs".to_string())));
    m.gemfile = Some(String::new());
    assert_eq!(kind(&m), Some(("ruby".to_string(), "Gemfile".to_string())));
    m.settings_gradle = true;
    assert_eq!(kind(&m), Some(("java".to_string(), "settings.gradle".to_string())));
    m.build_gradle_kts = true;
    assert_eq!(kind(&m), Some(("java".to_string(), "build.gradle.kts".to_string())));
    m.pom = Some(String::new());
    assert_eq!(kind(&m), Some(("java".to_string(), "pom.xml".to_string())));
    m.composer = Some("{}".to_string());
    assert_eq!(kind(&m), Some(("php".to_string(), "composer.json".to_string())));
    m.go_mod = Some(String::new());
    assert_eq!(kind(&m), Some(("go".to_string(), "go.mod".to_string())));
    m.requirements = Some(String::new());
    assert_eq!(kind(&m), Some(("python".to_string(), "requirements.txt".to_string())));
    m.pyproject = Some(String::new());
    assert_eq!(kind(&m), Some(("python".to_string(), "pyproject.toml".to_string())));
    m.package_json = Some("{}".to_string());
    assert_eq!(kind(&m), Some(("node".to_string(), "package.json".to_string())));
    m.cargo = Some("not = = toml".to_string());
    assert_eq!(kind(&m), Some(("node".to_string(), "package.json".to_string())));
    m.cargo = Some(String::new());
    assert_eq!(kind(&m), Some(("rust".to_string(), "Cargo.toml".to_string())));
}
