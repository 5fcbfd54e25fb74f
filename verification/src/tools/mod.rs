//! The tools that an agent can call: their schemas, permissions and registry.
pub mod code;
pub mod filesystem;
pub mod search;
pub mod shell;
pub mod todos;
pub mod web;

use vstd::prelude::*;

use crate::name_map::{NameMap, TextMap};
use crate::text::{contains, has, lowercase, owned, texts, to_lowercase};
use crate::value::{lemma_lookup_push, no_fields, no_items, trees, Data, Fields, Json};

verus! {

/// Where a tool runs: for which agent and session, and in which workspace
/// directory, against which relative paths are resolved.
#[derive(Debug)]
pub struct ToolContext {
    pub agent_id: String,
    pub session_id: String,
    pub channel: String,
    pub peer_id: String,
    pub workspace_dir: String,
}

/// What a tool reports back.
#[derive(Debug)]
pub struct ToolResult {
    pub success: bool,
    pub content: String,
    pub metadata: Option<Data>,
}

/// What a tool result says.
pub struct ResultView {
    pub success: bool,
    pub content: Seq<char>,
    pub metadata: Option<Json>,
}

impl View for ToolResult {
    type V = ResultView;

    open spec fn view(&self) -> ResultView {
        ResultView {
            success: self.success,
            content: self.content@,
            metadata: match self.metadata {
                Some(d) => Some(d@),
                None => None,
            },
        }
    }
}

/// Why a tool could not be run.
#[derive(Debug)]
pub struct ToolError {
    pub message: String,
}

impl ToolError {
    /// An error with that message.
    pub fn new(message: &str) -> (r: ToolError)
        ensures
            r.message@ == message@,
    {
        ToolError { message: owned(message) }
    }
}

/// How a tool is described to a model.
#[derive(Debug)]
pub struct ToolSchema {
    pub name: String,
    pub description: String,
    pub parameters: Data,
}

/// What a schema says.
pub struct SchemaView {
    pub name: Seq<char>,
    pub description: Seq<char>,
    pub parameters: Json,
}

impl View for ToolSchema {
    type V = SchemaView;

    open spec fn view(&self) -> SchemaView {
        SchemaView {
            name: self.name@,
            description: self.description@,
            parameters: self.parameters@,
        }
    }
}

impl Clone for ToolSchema {
    fn clone(&self) -> (r: ToolSchema)
        ensures
            r@ == self@,
    {
        ToolSchema {
            name: self.name.clone(),
            description: self.description.clone(),
            parameters: self.parameters.clone(),
        }
    }
}

/// What is to happen when an agent calls a tool.
#[derive(Debug, Clone, Copy, PartialEq, Eq, Structural)]
pub enum PermissionMode {
    Deny,
    Allow,
    Ask,
    Auto,
}

/// A permission with the scopes it is limited to.
#[derive(Debug)]
pub struct ToolPermission {
    pub mode: PermissionMode,
    pub scopes: Vec<String>,
}

/// What a permission says.
pub struct PermissionView {
    pub mode: PermissionMode,
    pub scopes: Seq<Seq<char>>,
}

impl View for ToolPermission {
    type V = PermissionView;

    open spec fn view(&self) -> PermissionView {
        PermissionView { mode: self.mode, scopes: texts(self.scopes@) }
    }
}

/// A registered tool with what runs it.
pub struct ToolEntry<H> {
    pub schema: ToolSchema,
    pub permission: ToolPermission,
    pub handler: H,
}

/// What a registry entry says.
pub struct EntryView<H> {
    pub schema: SchemaView,
    pub permission: PermissionView,
    pub handler: H,
}

impl<H> View for ToolEntry<H> {
    type V = EntryView<H>;

    open spec fn view(&self) -> EntryView<H> {
        EntryView { schema: self.schema@, permission: self.permission@, handler: self.handler }
    }
}

/// The tools by name, and the names of the tools of each category in the order
/// in which they were registered.
pub struct RegistryView<H> {
    pub tools: Map<Seq<char>, EntryView<H>>,
    pub categories: Map<Seq<char>, Seq<Seq<char>>>,
}

impl<H> RegistryView<H> {
    /// No tools.
    pub open spec fn empty() -> RegistryView<H> {
        RegistryView { tools: Map::empty(), categories: Map::empty() }
    }

    /// The names in a category.
    pub open spec fn in_category(self, category: Seq<char>) -> Seq<Seq<char>> {
        if self.categories.contains_key(category) {
            self.categories[category]
        } else {
            seq![]
        }
    }

    /// One more tool: under its name, in place of a tool of the same name, and
    /// at the end of its category.
    pub open spec fn with(
        self,
        schema: SchemaView,
        permission: PermissionView,
        handler: H,
        category: Seq<char>,
    ) -> RegistryView<H> {
        RegistryView {
            tools: self.tools.insert(schema.name, EntryView { schema, permission, handler }),
            categories: self.categories.insert(
                category,
                self.in_category(category).push(schema.name),
            ),
        }
    }

    /// The schemas of the tools of those names, in that order; a name without a
    /// tool is passed over.
    pub open spec fn schemas_of(self, names: Seq<Seq<char>>) -> Seq<SchemaView>
        decreases names.len(),
    {
        if names.len() == 0 {
            seq![]
        } else {
            let rest = self.schemas_of(names.drop_last());
            if self.tools.contains_key(names.last()) {
                rest.push(self.tools[names.last()].schema)
            } else {
                rest
            }
        }
    }

    /// The names in those categories, one category after the other.
    pub open spec fn names_in(self, categories: Seq<Seq<char>>) -> Seq<Seq<char>>
        decreases categories.len(),
    {
        if categories.len() == 0 {
            seq![]
        } else {
            self.names_in(categories.drop_last()) + self.in_category(categories.last())
        }
    }

    /// The schemas, of the tools of those names, that mention the query.
    pub open spec fn mentions_of(self, names: Seq<Seq<char>>, query: Seq<char>) -> Seq<SchemaView>
        decreases names.len(),
    {
        if names.len() == 0 {
            seq![]
        } else {
            let rest = self.mentions_of(names.drop_last(), query);
            if self.tools.contains_key(names.last()) && mentions(
                self.tools[names.last()].schema,
                query,
            ) {
                rest.push(self.tools[names.last()].schema)
            } else {
                rest
            }
        }
    }

    /// The mode that holds for a tool: the agent's own, else the tool's, else
    /// denial.
    pub open spec fn mode_for(
        self,
        tool: Seq<char>,
        agent: Map<Seq<char>, ToolPermission>,
    ) -> PermissionMode {
        if agent.contains_key(tool) {
            agent[tool].mode
        } else if self.tools.contains_key(tool) {
            self.tools[tool].permission.mode
        } else {
            PermissionMode::Deny
        }
    }
}

/// Whether a tool's name or description has the query in it, all of them in
/// lowercase.
pub open spec fn mentions(schema: SchemaView, query: Seq<char>) -> bool {
    has(lowercase(schema.name), lowercase(query)) || has(
        lowercase(schema.description),
        lowercase(query),
    )
}

/// A tool that is registered is found under its name, in its category and with its
/// permission, unless the agent has one of its own; tools of other names stay as
/// they are.
pub proof fn registered_tools_are_found<H>(
    r: RegistryView<H>,
    schema: SchemaView,
    permission: PermissionView,
    handler: H,
    category: Seq<char>,
    other: Seq<char>,
    agent: Map<Seq<char>, ToolPermission>,
)
    ensures
        r.with(schema, permission, handler, category).tools.contains_key(schema.name),
        r.with(schema, permission, handler, category).tools[schema.name] == (EntryView {
            schema,
            permission,
            handler,
        }),
        r.with(schema, permission, handler, category).in_category(category).contains(schema.name),
        r.with(schema, permission, handler, category).mode_for(schema.name, agent) == (
        if agent.contains_key(schema.name) {
            agent[schema.name].mode
        } else {
            permission.mode
        }),
        other != schema.name ==> {
            &&& r.with(schema, permission, handler, category).tools.contains_key(other)
                == r.tools.contains_key(other)
            &&& r.with(schema, permission, handler, category).tools[other] == r.tools[other]
            &&& r.with(schema, permission, handler, category).mode_for(other, agent) == r.mode_for(
                other,
                agent,
            )
        },
{
    let names = r.with(schema, permission, handler, category).in_category(category);
    assert(names == r.in_category(category).push(schema.name));
    assert(names[names.len() - 1] == schema.name);
}

/// Whether names are all of a registry's names, each once.
pub open spec fn lists_all<T>(names: Seq<Seq<char>>, map: Map<Seq<char>, T>) -> bool {
    names.no_duplicates() && names.to_set() == map.dom()
}

/// Whether a lowercase name or description has a lowercase query in it.
pub fn mentions_lowercase(name: &str, description: &str, query: &str) -> (r: bool)
    ensures
        r == (has(name@, query@) || has(description@, query@)),
{
    contains(name, query) || contains(description, query)
}

/// The registry of tools.
pub struct ToolRegistry<H> {
    tools: NameMap<ToolEntry<H>>,
    categories: NameMap<Vec<String>>,
}

impl<H> View for ToolRegistry<H> {
    type V = RegistryView<H>;

    closed spec fn view(&self) -> RegistryView<H> {
        RegistryView {
            tools: self.tools@.map_values(|e: ToolEntry<H>| e@),
            categories: self.categories@.map_values(|names: Vec<String>| texts(names@)),
        }
    }
}

impl<H> ToolRegistry<H> {
    /// The registry's maps are in order.
    pub closed spec fn wf(&self) -> bool {
        self.tools.wf() && self.categories.wf()
    }

    /// A registry without tools.
    pub fn new() -> (r: ToolRegistry<H>)
        ensures
            r.wf(),
            r@ == RegistryView::<H>::empty(),
    {
        let r = ToolRegistry { tools: NameMap::new(), categories: NameMap::new() };
        proof {
            assert(r@.tools =~= RegistryView::<H>::empty().tools);
            assert(r@.categories =~= RegistryView::<H>::empty().categories);
        }
        r
    }

    /// Registers a tool under its name, and in a category.
    pub fn register(
        &mut self,
        schema: ToolSchema,
        permission: ToolPermission,
        handler: H,
        category: &str,
    )
        requires
            old(self).wf(),
        ensures
            final(self).wf(),
            final(self)@ == old(self)@.with(schema@, permission@, handler, category@),
    {
        let name = schema.name.clone();
        let entry = ToolEntry { schema, permission, handler };
        let ghost v = entry@;
        self.tools.insert(name.as_str(), entry);
        let mut names = self.category_names(category);
        let ghost before = names@;
        names.push(name);
        self.categories.insert(category, names);
        proof {
            assert(texts(names@) =~= texts(before).push(v.schema.name));
            let want = old(self)@.with(v.schema, v.permission, v.handler, category@);
            assert(self@.tools =~= want.tools);
            assert(self@.categories =~= want.categories);
        }
    }

    /// The names in a category.
    fn category_names(&self, category: &str) -> (r: Vec<String>)
        requires
            self.wf(),
        ensures
            texts(r@) == self@.in_category(category@),
    {
        let mut out: Vec<String> = Vec::new();
        match self.categories.get(category) {
            Some(names) => {
                let mut i: usize = 0;
                while i < names.len()
                    invariant
                        i <= names@.len(),
                        texts(out@) == texts(names@).take(i as int),
                    decreases names@.len() - i,
                {
                    let ghost before = out@;
                    out.push(names[i].clone());
                    proof {
                        assert(texts(out@) =~= texts(before).push(names@[i as int]@));
                        assert(texts(names@).take(i + 1) =~= texts(names@).take(i as int).push(
                            names@[i as int]@,
                        ));
                    }
                    i = i + 1;
                }
                proof {
                    assert(texts(names@).take(i as int) =~= texts(names@));
                }
            },
            None => {
                proof {
                    assert(texts(out@) =~= seq![]);
                }
            },
        }
        out
    }

    /// The entry of a tool, where there is one.
    pub fn get(&self, name: &str) -> (r: Option<&ToolEntry<H>>)
        requires
            self.wf(),
        ensures
            r is Some == self@.tools.contains_key(name@),
            r is Some ==> r->0@ == self@.tools[name@],
    {
        self.tools.get(name)
    }

    /// The schemas of the tools of those names, in that order.
    pub fn schemas_named(&self, names: &Vec<String>) -> (r: Vec<ToolSchema>)
        requires
            self.wf(),
        ensures
            schema_views(r@) == self@.schemas_of(texts(names@)),
    {
        let mut out: Vec<ToolSchema> = Vec::new();
        let ghost all = texts(names@);
        proof {
            assert(schema_views(out@) =~= self@.schemas_of(all.take(0)));
        }
        let mut i: usize = 0;
        while i < names.len()
            invariant
                self.wf(),
                i <= names@.len(),
                all == texts(names@),
                schema_views(out@) == self@.schemas_of(all.take(i as int)),
            decreases names@.len() - i,
        {
            proof {
                assert(all.take(i + 1).drop_last() =~= all.take(i as int));
                assert(all.take(i + 1).last() == names@[i as int]@);
            }
            match self.tools.get(names[i].as_str()) {
                Some(entry) => {
                    let ghost before = out@;
                    let schema = entry.schema.clone();
                    out.push(schema);
                    proof {
                        assert(schema_views(out@) =~= schema_views(before).push(schema@));
                        assert(schema@ == self@.tools[names@[i as int]@].schema);
                    }
                },
                None => {},
            }
            i = i + 1;
        }
        proof {
            assert(all.take(i as int) =~= all);
        }
        out
    }

    /// The schemas of all tools, in an order that is left open.
    pub fn get_schemas(&self) -> (r: Vec<ToolSchema>)
        requires
            self.wf(),
        ensures
            exists|names: Seq<Seq<char>>|
                lists_all(names, self@.tools) && schema_views(r@) == #[trigger] self@.schemas_of(
                    names,
                ),
    {
        let names = self.tools.names();
        proof {
            assert(self@.tools.dom() =~= self.tools@.dom());
            assert(lists_all(texts(names@), self@.tools));
        }
        self.schemas_named(&names)
    }

    /// The schemas of the tools in those categories, one category after the
    /// other, in the order of registration.
    pub fn get_schemas_for_task(&self, categories: &Vec<String>) -> (r: Vec<ToolSchema>)
        requires
            self.wf(),
        ensures
            schema_views(r@) == self@.schemas_of(self@.names_in(texts(categories@))),
    {
        let mut names: Vec<String> = Vec::new();
        let ghost all = texts(categories@);
        proof {
            assert(texts(names@) =~= self@.names_in(all.take(0)));
        }
        let mut i: usize = 0;
        while i < categories.len()
            invariant
                self.wf(),
                i <= categories@.len(),
                all == texts(categories@),
                texts(names@) == self@.names_in(all.take(i as int)),
            decreases categories@.len() - i,
        {
            let mut more = self.category_names(categories[i].as_str());
            let ghost before = names@;
            let ghost added = more@;
            names.append(&mut more);
            proof {
                assert(texts(names@) =~= texts(before) + texts(added));
                assert(all.take(i + 1).drop_last() =~= all.take(i as int));
                assert(all.take(i + 1).last() == categories@[i as int]@);
            }
            i = i + 1;
        }
        proof {
            assert(all.take(i as int) =~= all);
        }
        self.schemas_named(&names)
    }

    /// The schemas, of the tools of those names, that mention the query.
    pub fn search_named(&self, names: &Vec<String>, query: &str) -> (r: Vec<ToolSchema>)
        requires
            self.wf(),
        ensures
            schema_views(r@) == self@.mentions_of(texts(names@), query@),
    {
        let query_lower = to_lowercase(query);
        let mut out: Vec<ToolSchema> = Vec::new();
        let ghost all = texts(names@);
        proof {
            assert(schema_views(out@) =~= self@.mentions_of(all.take(0), query@));
        }
        let mut i: usize = 0;
        while i < names.len()
            invariant
                self.wf(),
                i <= names@.len(),
                all == texts(names@),
                query_lower@ == lowercase(query@),
                schema_views(out@) == self@.mentions_of(all.take(i as int), query@),
            decreases names@.len() - i,
        {
            proof {
                assert(all.take(i + 1).drop_last() =~= all.take(i as int));
                assert(all.take(i + 1).last() == names@[i as int]@);
            }
            match self.tools.get(names[i].as_str()) {
                Some(entry) => {
                    let name_lower = to_lowercase(entry.schema.name.as_str());
                    let description_lower = to_lowercase(entry.schema.description.as_str());
                    proof {
                        assert(entry.schema@ == self@.tools[names@[i as int]@].schema);
                    }
                    if mentions_lowercase(
                        name_lower.as_str(),
                        description_lower.as_str(),
                        query_lower.as_str(),
                    ) {
                        let ghost before = out@;
                        let schema = entry.schema.clone();
                        out.push(schema);
                        proof {
                            assert(schema_views(out@) =~= schema_views(before).push(schema@));
                        }
                    }
                },
                None => {},
            }
            i = i + 1;
        }
        proof {
            assert(all.take(i as int) =~= all);
        }
        out
    }

    /// The schemas of the tools that mention the query, in an order that is left
    /// open.
    pub fn search(&self, query: &str) -> (r: Vec<ToolSchema>)
        requires
            self.wf(),
        ensures
            exists|names: Seq<Seq<char>>|
                lists_all(names, self@.tools) && schema_views(r@) == #[trigger] self@.mentions_of(
                    names,
                    query@,
                ),
    {
        let names = self.tools.names();
        proof {
            assert(self@.tools.dom() =~= self.tools@.dom());
            assert(lists_all(texts(names@), self@.tools));
        }
        self.search_named(&names, query)
    }

    /// The categories, each once, in an order that is left open.
    pub fn list_categories(&self) -> (r: Vec<String>)
        ensures
            lists_all(texts(r@), self@.categories),
    {
        proof {
            assert(self@.categories.dom() =~= self.categories@.dom());
        }
        self.categories.names()
    }

    /// The mode that holds for a tool: the agent's own, else the tool's, else
    /// denial.
    pub fn check_permission(
        &self,
        tool_name: &str,
        agent_permissions: &TextMap<ToolPermission>,
    ) -> (r: PermissionMode)
        requires
            self.wf(),
        ensures
            r == self@.mode_for(tool_name@, agent_permissions@),
    {
        match agent_permissions.get(tool_name) {
            Some(permission) => permission.mode,
            None => match self.tools.get(tool_name) {
                Some(entry) => entry.permission.mode,
                None => PermissionMode::Deny,
            },
        }
    }

    /// How many tools there are.
    pub fn count(&self) -> (n: usize)
        ensures
            n == self@.tools.dom().len(),
    {
        proof {
            assert(self@.tools.dom() =~= self.tools@.dom());
        }
        self.tools.len()
    }
}

/// What a list of schemas says.
pub open spec fn schema_views(v: Seq<ToolSchema>) -> Seq<SchemaView> {
    Seq::new(v.len(), |i: int| v[i]@)
}

/// What runs a built-in tool.
#[derive(Debug, Clone, Copy, PartialEq, Eq, Structural)]
pub enum BuiltinTool {
    ReadFile,
    WriteFile,
    ListDir,
    DeleteFile,
    ShellExec,
    WebFetch,
    WebSearch,
    Glob,
    Grep,
    TodoList,
    EditFile,
    GitStatus,
    GitDiff,
    GitCommit,
}

/// A list of texts that is being written as a document.
struct Texts {
    items: Vec<Data>,
}

impl View for Texts {
    type V = Seq<Json>;

    closed spec fn view(&self) -> Seq<Json> {
        trees(self.items@)
    }
}

impl Texts {
    /// No texts.
    fn new() -> (r: Texts)
        ensures
            r@ == no_items(),
    {
        let r = Texts { items: Vec::new() };
        proof {
            assert(r@ =~= no_items());
        }
        r
    }

    /// Writes one more text.
    fn put(&mut self, s: &str)
        ensures
            final(self)@ == old(self)@.push(Json::Str(s@)),
    {
        self.items.push(Data::text(s));
        proof {
            assert(self@ =~= old(self)@.push(Json::Str(s@)));
        }
    }

    /// The list.
    fn done(self) -> (r: Data)
        ensures
            r@ == Json::List(self@),
    {
        Data::list(self.items)
    }
}

/// The schema of a parameter of that type.
pub open spec fn property_tree(kind: Seq<char>, description: Seq<char>) -> Json {
    Json::Table(
        no_fields().push(("type"@, Json::Str(kind))).push(("description"@, Json::Str(description))),
    )
}

/// The schema of a text parameter that is one of several choices.
pub open spec fn choice_tree(choices: Seq<Json>, description: Seq<char>) -> Json {
    Json::Table(
        no_fields().push(("type"@, Json::Str("string"@))).push(("enum"@, Json::List(choices))).push(
            ("description"@, Json::Str(description)),
        ),
    )
}

/// The schema of an object with those properties, of which some may be required.
pub open spec fn object_tree(
    properties: Seq<(Seq<char>, Json)>,
    required: Option<Seq<Json>>,
) -> Json {
    let plain = no_fields().push(("type"@, Json::Str("object"@))).push(
        ("properties"@, Json::Table(properties)),
    );
    Json::Table(
        match required {
            Some(names) => plain.push(("required"@, Json::List(names))),
            None => plain,
        },
    )
}

/// The schema of a parameter of that type.
fn property(kind: &str, description: &str) -> (r: Data)
    ensures
        r@ == property_tree(kind@, description@),
{
    let mut f = Fields::new();
    f.put_str("type", kind);
    f.put_str("description", description);
    f.done()
}

/// The schema of a text parameter that is one of several choices.
fn choice(choices: Texts, description: &str) -> (r: Data)
    ensures
        r@ == choice_tree(choices@, description@),
{
    let mut f = Fields::new();
    f.put_str("type", "string");
    f.put("enum", choices.done());
    f.put_str("description", description);
    f.done()
}

/// The schema of an object with those properties.
fn object(properties: Fields, required: Option<Texts>) -> (r: Data)
    ensures
        r@ == object_tree(
            properties@,
            match required {
                Some(names) => Some(names@),
                None => None,
            },
        ),
{
    let mut f = Fields::new();
    f.put_str("type", "object");
    f.put("properties", properties.done());
    match required {
        Some(names) => f.put("required", names.done()),
        None => {},
    }
    f.done()
}

/// A permission without scopes.
pub open spec fn plain(mode: PermissionMode) -> PermissionView {
    PermissionView { mode, scopes: seq![] }
}

/// A permission without scopes.
pub fn permission(mode: PermissionMode) -> (r: ToolPermission)
    ensures
        r@ == plain(mode),
{
    let r = ToolPermission { mode, scopes: Vec::new() };
    proof {
        assert(r@.scopes =~= seq![]);
    }
    r
}

/// The schema of `read_file`.
pub open spec fn read_file_spec() -> SchemaView {
    SchemaView {
        name: "read_file"@,
        description: "Read the contents of a file"@,
        parameters: object_tree(
            no_fields()
                .push(("path"@, property_tree("string"@, "Path to the file to read"@))),
            Some(no_items().push(Json::Str("path"@))),
        ),
    }
}

/// The schema of `read_file`.
fn read_file_schema() -> (r: ToolSchema)
    ensures
        r@ == read_file_spec(),
{
    let mut properties = Fields::new();
    properties.put("path", property("string", "Path to the file to read"));
    let mut required = Texts::new();
    required.put("path");
    ToolSchema {
        name: owned("read_file"),
        description: owned(
            "Read the contents of a file",
        ),
        parameters: object(properties, Some(required)),
    }
}

/// The schema of `write_file`.
pub open spec fn write_file_spec() -> SchemaView {
    SchemaView {
        name: "write_file"@,
        description: "Write content to a file (creates parent directories if needed)"@,
        parameters: object_tree(
            no_fields()
                .push(("path"@, property_tree("string"@, "Path to the file to write"@)))
                .push(("content"@, property_tree("string"@, "Content to write to the file"@))),
            Some(no_items().push(Json::Str("path"@)).push(Json::Str("content"@))),
        ),
    }
}

/// The schema of `write_file`.
fn write_file_schema() -> (r: ToolSchema)
    ensures
        r@ == write_file_spec(),
{
    let mut properties = Fields::new();
    properties.put("path", property("string", "Path to the file to write"));
    properties.put("content", property("string", "Content to write to the file"));
    let mut required = Texts::new();
    required.put("path");
    required.put("content");
    ToolSchema {
        name: owned("write_file"),
        description: owned(
            "Write content to a file (creates parent directories if needed)",
        ),
        parameters: object(properties, Some(required)),
    }
}

/// The schema of `list_dir`.
pub open spec fn list_dir_spec() -> SchemaView {
    SchemaView {
        name: "list_dir"@,
        description: "List the contents of a directory"@,
        parameters: object_tree(
            no_fields()
                .push(("path"@, property_tree("string"@, "Path to the directory (defaults to current directory)"@))),
            None,
        ),
    }
}

/// The schema of `list_dir`.
fn list_dir_schema() -> (r: ToolSchema)
    ensures
        r@ == list_dir_spec(),
{
    let mut properties = Fields::new();
    properties.put("path", property("string", "Path to the directory (defaults to current directory)"));
    ToolSchema {
        name: owned("list_dir"),
        description: owned(
            "List the contents of a directory",
        ),
        parameters: object(properties, None),
    }
}

/// The schema of `delete_file`.
pub open spec fn delete_file_spec() -> SchemaView {
    SchemaView {
        name: "delete_file"@,
        description: "Delete a file or directory"@,
        parameters: object_tree(
            no_fields()
                .push(("path"@, property_tree("string"@, "Path to the file or directory to delete"@))),
            Some(no_items().push(Json::Str("path"@))),
        ),
    }
}

/// The schema of `delete_file`.
fn delete_file_schema() -> (r: ToolSchema)
    ensures
        r@ == delete_file_spec(),
{
    let mut properties = Fields::new();
    properties.put("path", property("string", "Path to the file or directory to delete"));
    let mut required = Texts::new();
    required.put("path");
    ToolSchema {
        name: owned("delete_file"),
        description: owned(
            "Delete a file or directory",
        ),
        parameters: object(properties, Some(required)),
    }
}

/// The schema of `shell_exec`.
pub open spec fn shell_exec_spec() -> SchemaView {
    SchemaView {
        name: "shell_exec"@,
        description: "Execute a shell command and return its output. On Windows the command runs via cmd.exe (cmd /C) using Windows syntax (dir, type, echo %VAR%); on Unix it runs via sh -c"@,
        parameters: object_tree(
            no_fields()
                .push(("command"@, property_tree("string"@, "The shell command to execute"@)))
                .push(("working_dir"@, property_tree("string"@, "Working directory for the command (optional)"@)))
                .push(("timeout"@, property_tree("integer"@, "Timeout in seconds (default: 30, max: 300)"@))),
            Some(no_items().push(Json::Str("command"@))),
        ),
    }
}

/// The schema of `shell_exec`.
fn shell_exec_schema() -> (r: ToolSchema)
    ensures
        r@ == shell_exec_spec(),
{
    let mut properties = Fields::new();
    properties.put("command", property("string", "The shell command to execute"));
    properties.put("working_dir", property("string", "Working directory for the command (optional)"));
    properties.put("timeout", property("integer", "Timeout in seconds (default: 30, max: 300)"));
    let mut required = Texts::new();
    required.put("command");
    ToolSchema {
        name: owned("shell_exec"),
        description: owned(
            "Execute a shell command and return its output. On Windows the command runs via cmd.exe (cmd /C) using Windows syntax (dir, type, echo %VAR%); on Unix it runs via sh -c",
        ),
        parameters: object(properties, Some(required)),
    }
}

/// The schema of `web_fetch`.
pub open spec fn web_fetch_spec() -> SchemaView {
    SchemaView {
        name: "web_fetch"@,
        description: "Fetch content from a URL"@,
        parameters: object_tree(
            no_fields()
                .push(("url"@, property_tree("string"@, "URL to fetch"@)))
                .push(("max_length"@, property_tree("integer"@, "Maximum content length to return (default: 50000)"@))),
            Some(no_items().push(Json::Str("url"@))),
        ),
    }
}

/// The schema of `web_fetch`.
fn web_fetch_schema() -> (r: ToolSchema)
    ensures
        r@ == web_fetch_spec(),
{
    let mut properties = Fields::new();
    properties.put("url", property("string", "URL to fetch"));
    properties.put("max_length", property("integer", "Maximum content length to return (default: 50000)"));
    let mut required = Texts::new();
    required.put("url");
    ToolSchema {
        name: owned("web_fetch"),
        description: owned(
            "Fetch content from a URL",
        ),
        parameters: object(properties, Some(required)),
    }
}

/// The schema of `web_search`.
pub open spec fn web_search_spec() -> SchemaView {
    SchemaView {
        name: "web_search"@,
        description: "Search the web with a text query (DuckDuckGo, no API key needed). Returns up to 20 result titles, URLs and snippets. Use this when you need current, external information the user did not provide. Follow up with web_fetch to read a full page."@,
        parameters: object_tree(
            no_fields()
                .push(("query"@, property_tree("string"@, "The search query"@)))
                .push(("max_results"@, property_tree("integer"@, "Maximum results to return (default: 8, max: 20)"@))),
            Some(no_items().push(Json::Str("query"@))),
        ),
    }
}

/// The schema of `web_search`.
fn web_search_schema() -> (r: ToolSchema)
    ensures
        r@ == web_search_spec(),
{
    let mut properties = Fields::new();
    properties.put("query", property("string", "The search query"));
    properties.put("max_results", property("integer", "Maximum results to return (default: 8, max: 20)"));
    let mut required = Texts::new();
    required.put("query");
    ToolSchema {
        name: owned("web_search"),
        description: owned(
            "Search the web with a text query (DuckDuckGo, no API key needed). Returns up to 20 result titles, URLs and snippets. Use this when you need current, external information the user did not provide. Follow up with web_fetch to read a full page.",
        ),
        parameters: object(properties, Some(required)),
    }
}

/// The schema of `glob`.
pub open spec fn glob_spec() -> SchemaView {
    SchemaView {
        name: "glob"@,
        description: "Find files by glob pattern, e.g. `**/*.rs` or `src/**` or `*.toml`. `*` matches within one path segment, `**` matches across directories, `?` matches a single char. Patterns without a `/` match against file names at any depth. Use before reading or editing to discover exact paths."@,
        parameters: object_tree(
            no_fields()
                .push(("pattern"@, property_tree("string"@, "Glob pattern to match files"@)))
                .push(("path"@, property_tree("string"@, "Root directory to search (defaults to current directory)"@)))
                .push(("max_results"@, property_tree("integer"@, "Maximum results (default: 200)"@))),
            Some(no_items().push(Json::Str("pattern"@))),
        ),
    }
}

/// The schema of `glob`.
fn glob_schema() -> (r: ToolSchema)
    ensures
        r@ == glob_spec(),
{
    let mut properties = Fields::new();
    properties.put("pattern", property("string", "Glob pattern to match files"));
    properties.put("path", property("string", "Root directory to search (defaults to current directory)"));
    properties.put("max_results", property("integer", "Maximum results (default: 200)"));
    let mut required = Texts::new();
    required.put("pattern");
    ToolSchema {
        name: owned("glob"),
        description: owned(
            "Find files by glob pattern, e.g. `**/*.rs` or `src/**` or `*.toml`. `*` matches within one path segment, `**` matches across directories, `?` matches a single char. Patterns without a `/` match against file names at any depth. Use before reading or editing to discover exact paths.",
        ),
        parameters: object(properties, Some(required)),
    }
}

/// The schema of `grep`.
pub open spec fn grep_spec() -> SchemaView {
    SchemaView {
        name: "grep"@,
        description: "Search file contents with a regex pattern. Returns `path:line: content` matches. Skips binary files and common dependency directories (.git, node_modules, target, etc.). Use include to limit by filename glob (e.g. `*.rs`). Use before editing to find the exact locations to change."@,
        parameters: object_tree(
            no_fields()
                .push(("pattern"@, property_tree("string"@, "Regex pattern to search for"@)))
                .push(("path"@, property_tree("string"@, "Root directory to search (defaults to current directory)"@)))
                .push(("include"@, property_tree("string"@, "Only search files matching this glob, e.g. `*.rs`"@)))
                .push(("max_results"@, property_tree("integer"@, "Maximum matches (default: 100)"@))),
            Some(no_items().push(Json::Str("pattern"@))),
        ),
    }
}

/// The schema of `grep`.
fn grep_schema() -> (r: ToolSchema)
    ensures
        r@ == grep_spec(),
{
    let mut properties = Fields::new();
    properties.put("pattern", property("string", "Regex pattern to search for"));
    properties.put("path", property("string", "Root directory to search (defaults to current directory)"));
    properties.put("include", property("string", "Only search files matching this glob, e.g. `*.rs`"));
    properties.put("max_results", property("integer", "Maximum matches (default: 100)"));
    let mut required = Texts::new();
    required.put("pattern");
    ToolSchema {
        name: owned("grep"),
        description: owned(
            "Search file contents with a regex pattern. Returns `path:line: content` matches. Skips binary files and common dependency directories (.git, node_modules, target, etc.). Use include to limit by filename glob (e.g. `*.rs`). Use before editing to find the exact locations to change.",
        ),
        parameters: object(properties, Some(required)),
    }
}

/// The schema of `todo_list`.
pub open spec fn todo_list_spec() -> SchemaView {
    SchemaView {
        name: "todo_list"@,
        description: "Manage a per-session todo list for multi-step tasks. Operations: add (with content), list, update (set status, e.g. in_progress/completed, by id), remove (by id), clear. Create a todo list whenever a task has several steps so the user can follow your plan and progress."@,
        parameters: object_tree(
            no_fields()
                .push(("op"@, choice_tree(no_items().push(Json::Str("list"@)).push(Json::Str("add"@)).push(Json::Str("update"@)).push(Json::Str("remove"@)).push(Json::Str("clear"@)), "Operation to perform"@)))
                .push(("content"@, property_tree("string"@, "Todo item text (required for op=add)"@)))
                .push(("id"@, property_tree("string"@, "Todo item id (required for op=update and op=remove)"@)))
                .push(("status"@, choice_tree(no_items().push(Json::Str("pending"@)).push(Json::Str("in_progress"@)).push(Json::Str("completed"@)), "New status for op=update"@))),
            Some(no_items().push(Json::Str("op"@))),
        ),
    }
}

/// The schema of `todo_list`.
fn todo_list_schema() -> (r: ToolSchema)
    ensures
        r@ == todo_list_spec(),
{
    let mut properties = Fields::new();
    let mut op_choices = Texts::new();
    op_choices.put("list");
    op_choices.put("add");
    op_choices.put("update");
    op_choices.put("remove");
    op_choices.put("clear");
    properties.put("op", choice(op_choices, "Operation to perform"));
    properties.put("content", property("string", "Todo item text (required for op=add)"));
    properties.put("id", property("string", "Todo item id (required for op=update and op=remove)"));
    let mut status_choices = Texts::new();
    status_choices.put("pending");
    status_choices.put("in_progress");
    status_choices.put("completed");
    properties.put("status", choice(status_choices, "New status for op=update"));
    let mut required = Texts::new();
    required.put("op");
    ToolSchema {
        name: owned("todo_list"),
        description: owned(
            "Manage a per-session todo list for multi-step tasks. Operations: add (with content), list, update (set status, e.g. in_progress/completed, by id), remove (by id), clear. Create a todo list whenever a task has several steps so the user can follow your plan and progress.",
        ),
        parameters: object(properties, Some(required)),
    }
}

/// The schema of `edit_file`.
pub open spec fn edit_file_spec() -> SchemaView {
    SchemaView {
        name: "edit_file"@,
        description: "Apply a targeted find-and-replace edit to a file. Provide old_string (exact text to replace) and new_string (replacement). If old_string is empty, new_string is appended to the end of the file. Use read_file first to get exact contents. Fails if old_string is not found or is ambiguous."@,
        parameters: object_tree(
            no_fields()
                .push(("path"@, property_tree("string"@, "Path to the file to edit"@)))
                .push(("old_string"@, property_tree("string"@, "Exact text to find and replace (empty to append)"@)))
                .push(("new_string"@, property_tree("string"@, "Replacement text"@))),
            Some(no_items().push(Json::Str("path"@)).push(Json::Str("new_string"@))),
        ),
    }
}

/// The schema of `edit_file`.
fn edit_file_schema() -> (r: ToolSchema)
    ensures
        r@ == edit_file_spec(),
{
    let mut properties = Fields::new();
    properties.put("path", property("string", "Path to the file to edit"));
    properties.put("old_string", property("string", "Exact text to find and replace (empty to append)"));
    properties.put("new_string", property("string", "Replacement text"));
    let mut required = Texts::new();
    required.put("path");
    required.put("new_string");
    ToolSchema {
        name: owned("edit_file"),
        description: owned(
            "Apply a targeted find-and-replace edit to a file. Provide old_string (exact text to replace) and new_string (replacement). If old_string is empty, new_string is appended to the end of the file. Use read_file first to get exact contents. Fails if old_string is not found or is ambiguous.",
        ),
        parameters: object(properties, Some(required)),
    }
}

/// The schema of `git_status`.
pub open spec fn git_status_spec() -> SchemaView {
    SchemaView {
        name: "git_status"@,
        description: "Show the git working tree status (short format with branch) for a repository. Use before and after edits to see what changed."@,
        parameters: object_tree(
            no_fields()
                .push(("path"@, property_tree("string"@, "Path to the git repository or a file inside it (defaults to current directory)"@))),
            None,
        ),
    }
}

/// The schema of `git_status`.
fn git_status_schema() -> (r: ToolSchema)
    ensures
        r@ == git_status_spec(),
{
    let mut properties = Fields::new();
    properties.put("path", property("string", "Path to the git repository or a file inside it (defaults to current directory)"));
    ToolSchema {
        name: owned("git_status"),
        description: owned(
            "Show the git working tree status (short format with branch) for a repository. Use before and after edits to see what changed.",
        ),
        parameters: object(properties, None),
    }
}

/// The schema of `git_diff`.
pub open spec fn git_diff_spec() -> SchemaView {
    SchemaView {
        name: "git_diff"@,
        description: "Show the current git diff (unstaged by default; set staged=true for the staged diff)"@,
        parameters: object_tree(
            no_fields()
                .push(("path"@, property_tree("string"@, "Path to the git repository or a file inside it (defaults to current directory)"@)))
                .push(("staged"@, property_tree("boolean"@, "Show the staged diff instead (default: false)"@))),
            None,
        ),
    }
}

/// The schema of `git_diff`.
fn git_diff_schema() -> (r: ToolSchema)
    ensures
        r@ == git_diff_spec(),
{
    let mut properties = Fields::new();
    properties.put("path", property("string", "Path to the git repository or a file inside it (defaults to current directory)"));
    properties.put("staged", property("boolean", "Show the staged diff instead (default: false)"));
    ToolSchema {
        name: owned("git_diff"),
        description: owned(
            "Show the current git diff (unstaged by default; set staged=true for the staged diff)",
        ),
        parameters: object(properties, None),
    }
}

/// The schema of `git_commit`.
pub open spec fn git_commit_spec() -> SchemaView {
    SchemaView {
        name: "git_commit"@,
        description: "Stage all changes (git add -A) and create a commit with the given message"@,
        parameters: object_tree(
            no_fields()
                .push(("path"@, property_tree("string"@, "Path to the git repository (defaults to current directory)"@)))
                .push(("message"@, property_tree("string"@, "Commit message"@))),
            Some(no_items().push(Json::Str("message"@))),
        ),
    }
}

/// The schema of `git_commit`.
fn git_commit_schema() -> (r: ToolSchema)
    ensures
        r@ == git_commit_spec(),
{
    let mut properties = Fields::new();
    properties.put("path", property("string", "Path to the git repository (defaults to current directory)"));
    properties.put("message", property("string", "Commit message"));
    let mut required = Texts::new();
    required.put("message");
    ToolSchema {
        name: owned("git_commit"),
        description: owned(
            "Stage all changes (git add -A) and create a commit with the given message",
        ),
        parameters: object(properties, Some(required)),
    }
}

/// The registry of the built-in tools.
pub open spec fn default_registry() -> RegistryView<BuiltinTool> {
    RegistryView::<BuiltinTool>::empty()
        .with(read_file_spec(), plain(PermissionMode::Allow), BuiltinTool::ReadFile, "filesystem"@)
        .with(write_file_spec(), plain(PermissionMode::Allow), BuiltinTool::WriteFile, "filesystem"@)
        .with(list_dir_spec(), plain(PermissionMode::Allow), BuiltinTool::ListDir, "filesystem"@)
        .with(delete_file_spec(), plain(PermissionMode::Allow), BuiltinTool::DeleteFile, "filesystem"@)
        .with(shell_exec_spec(), plain(PermissionMode::Ask), BuiltinTool::ShellExec, "shell"@)
        .with(web_fetch_spec(), plain(PermissionMode::Allow), BuiltinTool::WebFetch, "web"@)
        .with(web_search_spec(), plain(PermissionMode::Allow), BuiltinTool::WebSearch, "web"@)
        .with(glob_spec(), plain(PermissionMode::Allow), BuiltinTool::Glob, "search"@)
        .with(grep_spec(), plain(PermissionMode::Allow), BuiltinTool::Grep, "search"@)
        .with(todo_list_spec(), plain(PermissionMode::Allow), BuiltinTool::TodoList, "todo"@)
        .with(edit_file_spec(), plain(PermissionMode::Allow), BuiltinTool::EditFile, "coding"@)
        .with(git_status_spec(), plain(PermissionMode::Allow), BuiltinTool::GitStatus, "coding"@)
        .with(git_diff_spec(), plain(PermissionMode::Allow), BuiltinTool::GitDiff, "coding"@)
        .with(git_commit_spec(), plain(PermissionMode::Ask), BuiltinTool::GitCommit, "coding"@)
}

/// The registry of the built-in tools.
pub fn create_default_registry() -> (r: ToolRegistry<BuiltinTool>)
    ensures
        r.wf(),
        r@ == default_registry(),
{
    let mut r = ToolRegistry::new();
    r.register(read_file_schema(), permission(PermissionMode::Allow), BuiltinTool::ReadFile, "filesystem");
    r.register(write_file_schema(), permission(PermissionMode::Allow), BuiltinTool::WriteFile, "filesystem");
    r.register(list_dir_schema(), permission(PermissionMode::Allow), BuiltinTool::ListDir, "filesystem");
    r.register(delete_file_schema(), permission(PermissionMode::Allow), BuiltinTool::DeleteFile, "filesystem");
    r.register(shell_exec_schema(), permission(PermissionMode::Ask), BuiltinTool::ShellExec, "shell");
    r.register(web_fetch_schema(), permission(PermissionMode::Allow), BuiltinTool::WebFetch, "web");
    r.register(web_search_schema(), permission(PermissionMode::Allow), BuiltinTool::WebSearch, "web");
    r.register(glob_schema(), permission(PermissionMode::Allow), BuiltinTool::Glob, "search");
    r.register(grep_schema(), permission(PermissionMode::Allow), BuiltinTool::Grep, "search");
    r.register(todo_list_schema(), permission(PermissionMode::Allow), BuiltinTool::TodoList, "todo");
    r.register(edit_file_schema(), permission(PermissionMode::Allow), BuiltinTool::EditFile, "coding");
    r.register(git_status_schema(), permission(PermissionMode::Allow), BuiltinTool::GitStatus, "coding");
    r.register(git_diff_schema(), permission(PermissionMode::Allow), BuiltinTool::GitDiff, "coding");
    r.register(git_commit_schema(), permission(PermissionMode::Ask), BuiltinTool::GitCommit, "coding");
    r
}

/// The names of the built-in tools.
pub open spec fn default_names() -> Seq<Seq<char>> {
    seq![
        "read_file"@,
        "write_file"@,
        "list_dir"@,
        "delete_file"@,
        "shell_exec"@,
        "web_fetch"@,
        "web_search"@,
        "glob"@,
        "grep"@,
        "todo_list"@,
        "edit_file"@,
        "git_status"@,
        "git_diff"@,
        "git_commit"@,
    ]
}

/// The names of the built-in tools differ from each other.
proof fn lemma_default_names_differ()
    ensures
        default_names().no_duplicates(),
{
    reveal_strlit("read_file");
    reveal_strlit("write_file");
    reveal_strlit("list_dir");
    reveal_strlit("delete_file");
    reveal_strlit("shell_exec");
    reveal_strlit("web_fetch");
    reveal_strlit("web_search");
    reveal_strlit("glob");
    reveal_strlit("grep");
    reveal_strlit("todo_list");
    reveal_strlit("edit_file");
    reveal_strlit("git_status");
    reveal_strlit("git_diff");
    reveal_strlit("git_commit");
    let names = default_names();
    assert forall|i: int, j: int| 0 <= i < names.len() && 0 <= j < names.len() && i
        != j implies names[i] != names[j] by {
        let a = names[i];
        let b = names[j];
        assert(a.len() != b.len() || a[0] != b[0] || a[1] != b[1] || a[4] != b[4]);
    }
}

/// There is exactly one built-in tool of each of the fourteen names. Running a
/// shell command and making a commit take an approval; every other built-in tool
/// is allowed.
pub proof fn built_in_tools_are_as_listed()
    ensures
        default_registry().tools.dom() == default_names().to_set(),
        default_registry().tools.dom().len() == 14,
        forall|name: Seq<char>| #[trigger]
            default_registry().tools.contains_key(name) ==> {
                &&& default_registry().tools[name].schema.name == name
                &&& default_registry().tools[name].permission == plain(
                    if name == "shell_exec"@ || name == "git_commit"@ {
                        PermissionMode::Ask
                    } else {
                        PermissionMode::Allow
                    },
                )
            },
{
    lemma_default_names_differ();
    let names = default_names();
    names.unique_seq_to_set();
    let tools = default_registry().tools;
    assert forall|name: Seq<char>| tools.contains_key(name) == names.contains(name) by {
        if names.contains(name) {
            let i = choose|i: int| 0 <= i < names.len() && names[i] == name;
            assert(tools.contains_key(names[i]));
        }
        if tools.contains_key(name) {
            assert(names[0] == name || names[1] == name || names[2] == name || names[3] == name
                || names[4] == name || names[5] == name || names[6] == name || names[7] == name
                || names[8] == name || names[9] == name || names[10] == name || names[11] == name
                || names[12] == name || names[13] == name);
        }
    }
    assert(tools.dom() =~= names.to_set());
    assert forall|name: Seq<char>| #[trigger] tools.contains_key(name) implies ({
        &&& tools[name].schema.name == name
        &&& tools[name].permission == plain(
            if name == "shell_exec"@ || name == "git_commit"@ {
                PermissionMode::Ask
            } else {
                PermissionMode::Allow
            },
        )
    }) by {
        assert(names.contains(name));
        let i = choose|i: int| 0 <= i < names.len() && names[i] == name;
        assert(names[4] == "shell_exec"@ && names[13] == "git_commit"@);
        assert(i == 4 <==> name == "shell_exec"@);
        assert(i == 13 <==> name == "git_commit"@);
    }
}

/// The names of the categories differ.
proof fn lemma_category_names()
    ensures
        "filesystem"@ != "shell"@,
        "filesystem"@ != "web"@,
        "filesystem"@ != "search"@,
        "filesystem"@ != "todo"@,
        "filesystem"@ != "coding"@,
        "shell"@ != "web"@,
        "shell"@ != "search"@,
        "shell"@ != "todo"@,
        "shell"@ != "coding"@,
        "web"@ != "search"@,
        "web"@ != "todo"@,
        "web"@ != "coding"@,
        "search"@ != "todo"@,
        "search"@ != "coding"@,
        "todo"@ != "coding"@,
{
    reveal_strlit("filesystem");
    reveal_strlit("shell");
    reveal_strlit("web");
    reveal_strlit("search");
    reveal_strlit("todo");
    reveal_strlit("coding");
    assert("filesystem"@.len() == 10);
    assert("shell"@.len() == 5);
    assert("web"@.len() == 3);
    assert("search"@.len() == 6);
    assert("todo"@.len() == 4);
    assert("coding"@.len() == 6);
    assert("search"@[0] == 's' && "coding"@[0] == 'c');
}

/// The names of the fields of schemas differ.
proof fn lemma_schema_names()
    ensures
        "type"@ != "properties"@,
        "type"@ != "required"@,
        "type"@ != "description"@,
        "type"@ != "enum"@,
        "properties"@ != "required"@,
        "properties"@ != "description"@,
        "properties"@ != "enum"@,
        "required"@ != "description"@,
        "required"@ != "enum"@,
        "description"@ != "enum"@,
{
    reveal_strlit("type");
    reveal_strlit("properties");
    reveal_strlit("required");
    reveal_strlit("description");
    reveal_strlit("enum");
    assert("type"@.len() == 4);
    assert("properties"@.len() == 10);
    assert("required"@.len() == 8);
    assert("description"@.len() == 11);
    assert("enum"@.len() == 4);
    assert("type"@[0] == 't' && "enum"@[0] == 'e');
}


/// Each built-in tool is run by what its name says.
pub proof fn built_in_tools_run_what_they_name()
    ensures
        default_registry().tools["read_file"@].handler == BuiltinTool::ReadFile,
        default_registry().tools["write_file"@].handler == BuiltinTool::WriteFile,
        default_registry().tools["list_dir"@].handler == BuiltinTool::ListDir,
        default_registry().tools["delete_file"@].handler == BuiltinTool::DeleteFile,
        default_registry().tools["shell_exec"@].handler == BuiltinTool::ShellExec,
        default_registry().tools["web_fetch"@].handler == BuiltinTool::WebFetch,
        default_registry().tools["web_search"@].handler == BuiltinTool::WebSearch,
        default_registry().tools["glob"@].handler == BuiltinTool::Glob,
        default_registry().tools["grep"@].handler == BuiltinTool::Grep,
        default_registry().tools["todo_list"@].handler == BuiltinTool::TodoList,
        default_registry().tools["edit_file"@].handler == BuiltinTool::EditFile,
        default_registry().tools["git_status"@].handler == BuiltinTool::GitStatus,
        default_registry().tools["git_diff"@].handler == BuiltinTool::GitDiff,
        default_registry().tools["git_commit"@].handler == BuiltinTool::GitCommit,
{
    lemma_default_names_differ();
    let names = default_names();
    assert(names[0] == "read_file"@);
    assert(names[1] == "write_file"@);
    assert(names[2] == "list_dir"@);
    assert(names[3] == "delete_file"@);
    assert(names[4] == "shell_exec"@);
    assert(names[5] == "web_fetch"@);
    assert(names[6] == "web_search"@);
    assert(names[7] == "glob"@);
    assert(names[8] == "grep"@);
    assert(names[9] == "todo_list"@);
    assert(names[10] == "edit_file"@);
    assert(names[11] == "git_status"@);
    assert(names[12] == "git_diff"@);
    assert(names[13] == "git_commit"@);
}

/// Each built-in tool stands in its category, in the order in which the tools are
/// offered, and there are no other categories.
pub proof fn built_in_tools_have_their_category()
    ensures
        default_registry().in_category("filesystem"@) == seq!["read_file"@, "write_file"@, "list_dir"@, "delete_file"@],
        default_registry().in_category("shell"@) == seq!["shell_exec"@],
        default_registry().in_category("web"@) == seq!["web_fetch"@, "web_search"@],
        default_registry().in_category("search"@) == seq!["glob"@, "grep"@],
        default_registry().in_category("todo"@) == seq!["todo_list"@],
        default_registry().in_category("coding"@) == seq!["edit_file"@, "git_status"@, "git_diff"@, "git_commit"@],
        default_registry().categories.dom() == set!["filesystem"@, "shell"@, "web"@, "search"@, "todo"@, "coding"@],
{
    lemma_category_names();
    let r = default_registry();
    assert(r.in_category("filesystem"@) =~= seq!["read_file"@, "write_file"@, "list_dir"@, "delete_file"@]);
    assert(r.in_category("shell"@) =~= seq!["shell_exec"@]);
    assert(r.in_category("web"@) =~= seq!["web_fetch"@, "web_search"@]);
    assert(r.in_category("search"@) =~= seq!["glob"@, "grep"@]);
    assert(r.in_category("todo"@) =~= seq!["todo_list"@]);
    assert(r.in_category("coding"@) =~= seq!["edit_file"@, "git_status"@, "git_diff"@, "git_commit"@]);
    assert(r.categories.dom() =~= set!["filesystem"@, "shell"@, "web"@, "search"@, "todo"@, "coding"@]);
}

/// Whether parameters are an object with exactly those properties, of which exactly those
/// are required.
pub open spec fn asks_for(
    parameters: Json,
    properties: Seq<Seq<char>>,
    required: Seq<Seq<char>>,
) -> bool {
    &&& parameters.at("type"@) == Json::Str("object"@)
    &&& parameters.at("properties"@).fields().len() == properties.len()
    &&& forall|i: int|
        0 <= i < properties.len() ==> (#[trigger] parameters.at("properties"@).fields()[i]).0
            == properties[i]
    &&& parameters.at("required"@).elements().len() == required.len()
    &&& forall|i: int|
        0 <= i < required.len() ==> (#[trigger] parameters.at("required"@).elements()[i])
            == Json::Str(required[i])
}

/// Each built-in tool offers the parameters that it reads, and requires those that it
/// cannot do without.
pub proof fn built_in_tools_ask_for_what_they_need()
    ensures
        asks_for(default_registry().tools["read_file"@].schema.parameters, seq!["path"@], seq!["path"@]),
        asks_for(default_registry().tools["write_file"@].schema.parameters, seq!["path"@, "content"@], seq!["path"@, "content"@]),
        asks_for(default_registry().tools["list_dir"@].schema.parameters, seq!["path"@], seq![]),
        asks_for(default_registry().tools["delete_file"@].schema.parameters, seq!["path"@], seq!["path"@]),
        asks_for(default_registry().tools["shell_exec"@].schema.parameters, seq!["command"@, "working_dir"@, "timeout"@], seq!["command"@]),
        asks_for(default_registry().tools["web_fetch"@].schema.parameters, seq!["url"@, "max_length"@], seq!["url"@]),
        asks_for(default_registry().tools["web_search"@].schema.parameters, seq!["query"@, "max_results"@], seq!["query"@]),
        asks_for(default_registry().tools["glob"@].schema.parameters, seq!["pattern"@, "path"@, "max_results"@], seq!["pattern"@]),
        asks_for(default_registry().tools["grep"@].schema.parameters, seq!["pattern"@, "path"@, "include"@, "max_results"@], seq!["pattern"@]),
        asks_for(default_registry().tools["todo_list"@].schema.parameters, seq!["op"@, "content"@, "id"@, "status"@], seq!["op"@]),
        asks_for(default_registry().tools["edit_file"@].schema.parameters, seq!["path"@, "old_string"@, "new_string"@], seq!["path"@, "new_string"@]),
        asks_for(default_registry().tools["git_status"@].schema.parameters, seq!["path"@], seq![]),
        asks_for(default_registry().tools["git_diff"@].schema.parameters, seq!["path"@, "staged"@], seq![]),
        asks_for(default_registry().tools["git_commit"@].schema.parameters, seq!["path"@, "message"@], seq!["message"@]),
{
    broadcast use lemma_lookup_push;

    lemma_default_names_differ();
    lemma_schema_names();
    let names = default_names();
    assert(names[0] == "read_file"@);
    assert(names[1] == "write_file"@);
    assert(names[2] == "list_dir"@);
    assert(names[3] == "delete_file"@);
    assert(names[4] == "shell_exec"@);
    assert(names[5] == "web_fetch"@);
    assert(names[6] == "web_search"@);
    assert(names[7] == "glob"@);
    assert(names[8] == "grep"@);
    assert(names[9] == "todo_list"@);
    assert(names[10] == "edit_file"@);
    assert(names[11] == "git_status"@);
    assert(names[12] == "git_diff"@);
    assert(names[13] == "git_commit"@);
}

/// A tool that is registered stands at the end of its category, behind those that were
/// there; the other categories stay as they are.
pub proof fn categories_keep_the_order_of_registration<H>(
    r: RegistryView<H>,
    schema: SchemaView,
    permission: PermissionView,
    handler: H,
    category: Seq<char>,
    other: Seq<char>,
)
    ensures
        r.with(schema, permission, handler, category).in_category(category) == r.in_category(
            category,
        ).push(schema.name),
        other != category ==> r.with(schema, permission, handler, category).in_category(other)
            == r.in_category(other),
        RegistryView::<H>::empty().in_category(category).len() == 0,
        RegistryView::<H>::empty().tools.dom().len() == 0,
{
}

/// The tools of names are given one after the other, each that there is and none that
/// there is not; and the names in categories one category after the other.
pub proof fn named_tools_are_given<H>(
    r: RegistryView<H>,
    names: Seq<Seq<char>>,
    name: Seq<char>,
)
    ensures
        r.schemas_of(seq![]).len() == 0,
        r.schemas_of(names.push(name)) == (if r.tools.contains_key(name) {
            r.schemas_of(names).push(r.tools[name].schema)
        } else {
            r.schemas_of(names)
        }),
        r.names_in(seq![]).len() == 0,
        r.names_in(names.push(name)) == r.names_in(names) + r.in_category(name),
{
    assert(names.push(name).drop_last() =~= names);
}

/// A search gives the tools whose name or description has the query in it, whatever the
/// case of its letters, and no others.
pub proof fn searches_give_what_mentions_the_query<H>(
    r: RegistryView<H>,
    names: Seq<Seq<char>>,
    name: Seq<char>,
    query: Seq<char>,
)
    ensures
        r.mentions_of(seq![], query).len() == 0,
        r.tools.contains_key(name) && (has(
            lowercase(r.tools[name].schema.name),
            lowercase(query),
        ) || has(lowercase(r.tools[name].schema.description), lowercase(query))) ==> r.mentions_of(
            names.push(name),
            query,
        ) == r.mentions_of(names, query).push(r.tools[name].schema),
        !(r.tools.contains_key(name) && (has(
            lowercase(r.tools[name].schema.name),
            lowercase(query),
        ) || has(lowercase(r.tools[name].schema.description), lowercase(query)))) ==> r.mentions_of(
            names.push(name),
            query,
        ) == r.mentions_of(names, query),
{
    assert(names.push(name).drop_last() =~= names);
}

/// What an agent's own permission says of a tool counts before what the tool says of
/// itself; a tool that there is not is denied.
pub proof fn own_permissions_count_first<H>(
    r: RegistryView<H>,
    tool: Seq<char>,
    agent: Map<Seq<char>, ToolPermission>,
)
    ensures
        agent.contains_key(tool) ==> r.mode_for(tool, agent) == agent[tool].mode,
        !agent.contains_key(tool) && r.tools.contains_key(tool) ==> r.mode_for(tool, agent)
            == r.tools[tool].permission.mode,
        !agent.contains_key(tool) && !r.tools.contains_key(tool) ==> r.mode_for(tool, agent)
            == PermissionMode::Deny,
{
}

/// Each parameter of a built-in tool is of the type that the tool reads it as.
pub proof fn parameters_are_of_their_type()
    ensures
        default_registry().tools["read_file"@].schema.parameters.at("properties"@).at("path"@).at("type"@)
            == Json::Str("string"@),
        default_registry().tools["write_file"@].schema.parameters.at("properties"@).at("path"@).at("type"@)
            == Json::Str("string"@),
        default_registry().tools["write_file"@].schema.parameters.at("properties"@).at("content"@).at("type"@)
            == Json::Str("string"@),
        default_registry().tools["list_dir"@].schema.parameters.at("properties"@).at("path"@).at("type"@)
            == Json::Str("string"@),
        default_registry().tools["delete_file"@].schema.parameters.at("properties"@).at("path"@).at("type"@)
            == Json::Str("string"@),
        default_registry().tools["shell_exec"@].schema.parameters.at("properties"@).at("command"@).at("type"@)
            == Json::Str("string"@),
        default_registry().tools["shell_exec"@].schema.parameters.at("properties"@).at("working_dir"@).at("type"@)
            == Json::Str("string"@),
        default_registry().tools["shell_exec"@].schema.parameters.at("properties"@).at("timeout"@).at("type"@)
            == Json::Str("integer"@),
        default_registry().tools["web_fetch"@].schema.parameters.at("properties"@).at("url"@).at("type"@)
            == Json::Str("string"@),
        default_registry().tools["web_fetch"@].schema.parameters.at("properties"@).at("max_length"@).at("type"@)
            == Json::Str("integer"@),
        default_registry().tools["web_search"@].schema.parameters.at("properties"@).at("query"@).at("type"@)
            == Json::Str("string"@),
        default_registry().tools["web_search"@].schema.parameters.at("properties"@).at("max_results"@).at("type"@)
            == Json::Str("integer"@),
        default_registry().tools["glob"@].schema.parameters.at("properties"@).at("pattern"@).at("type"@)
            == Json::Str("string"@),
        default_registry().tools["glob"@].schema.parameters.at("properties"@).at("path"@).at("type"@)
            == Json::Str("string"@),
        default_registry().tools["glob"@].schema.parameters.at("properties"@).at("max_results"@).at("type"@)
            == Json::Str("integer"@),
        default_registry().tools["grep"@].schema.parameters.at("properties"@).at("pattern"@).at("type"@)
            == Json::Str("string"@),
        default_registry().tools["grep"@].schema.parameters.at("properties"@).at("path"@).at("type"@)
            == Json::Str("string"@),
        default_registry().tools["grep"@].schema.parameters.at("properties"@).at("include"@).at("type"@)
            == Json::Str("string"@),
        default_registry().tools["grep"@].schema.parameters.at("properties"@).at("max_results"@).at("type"@)
            == Json::Str("integer"@),
        default_registry().tools["todo_list"@].schema.parameters.at("properties"@).at("op"@).at("type"@)
            == Json::Str("string"@),
        default_registry().tools["todo_list"@].schema.parameters.at("properties"@).at("content"@).at("type"@)
            == Json::Str("string"@),
        default_registry().tools["todo_list"@].schema.parameters.at("properties"@).at("id"@).at("type"@)
            == Json::Str("string"@),
        default_registry().tools["todo_list"@].schema.parameters.at("properties"@).at("status"@).at("type"@)
            == Json::Str("string"@),
        default_registry().tools["edit_file"@].schema.parameters.at("properties"@).at("path"@).at("type"@)
            == Json::Str("string"@),
        default_registry().tools["edit_file"@].schema.parameters.at("properties"@).at("old_string"@).at("type"@)
            == Json::Str("string"@),
        default_registry().tools["edit_file"@].schema.parameters.at("properties"@).at("new_string"@).at("type"@)
            == Json::Str("string"@),
        default_registry().tools["git_status"@].schema.parameters.at("properties"@).at("path"@).at("type"@)
            == Json::Str("string"@),
        default_registry().tools["git_diff"@].schema.parameters.at("properties"@).at("path"@).at("type"@)
            == Json::Str("string"@),
        default_registry().tools["git_diff"@].schema.parameters.at("properties"@).at("staged"@).at("type"@)
            == Json::Str("boolean"@),
        default_registry().tools["git_commit"@].schema.parameters.at("properties"@).at("path"@).at("type"@)
            == Json::Str("string"@),
        default_registry().tools["git_commit"@].schema.parameters.at("properties"@).at("message"@).at("type"@)
            == Json::Str("string"@),
{
    broadcast use lemma_lookup_push;

    lemma_default_names_differ();
    lemma_schema_names();
    lemma_property_names();
    let names = default_names();
    assert(names[0] == "read_file"@);
    assert(names[1] == "write_file"@);
    assert(names[2] == "list_dir"@);
    assert(names[3] == "delete_file"@);
    assert(names[4] == "shell_exec"@);
    assert(names[5] == "web_fetch"@);
    assert(names[6] == "web_search"@);
    assert(names[7] == "glob"@);
    assert(names[8] == "grep"@);
    assert(names[9] == "todo_list"@);
    assert(names[10] == "edit_file"@);
    assert(names[11] == "git_status"@);
    assert(names[12] == "git_diff"@);
    assert(names[13] == "git_commit"@);
}

/// The names of the parameters differ.
proof fn lemma_property_names()
    ensures
        "path"@ != "content"@,
        "path"@ != "command"@,
        "path"@ != "working_dir"@,
        "path"@ != "timeout"@,
        "path"@ != "url"@,
        "path"@ != "max_length"@,
        "path"@ != "query"@,
        "path"@ != "max_results"@,
        "path"@ != "pattern"@,
        "path"@ != "include"@,
        "path"@ != "op"@,
        "path"@ != "id"@,
        "path"@ != "status"@,
        "path"@ != "old_string"@,
        "path"@ != "new_string"@,
        "path"@ != "staged"@,
        "path"@ != "message"@,
        "path"@ != "description"@,
        "path"@ != "type"@,
        "path"@ != "enum"@,
        "content"@ != "command"@,
        "content"@ != "working_dir"@,
        "content"@ != "timeout"@,
        "content"@ != "url"@,
        "content"@ != "max_length"@,
        "content"@ != "query"@,
        "content"@ != "max_results"@,
        "content"@ != "pattern"@,
        "content"@ != "include"@,
        "content"@ != "op"@,
        "content"@ != "id"@,
        "content"@ != "status"@,
        "content"@ != "old_string"@,
        "content"@ != "new_string"@,
        "content"@ != "staged"@,
        "content"@ != "message"@,
        "content"@ != "description"@,
        "content"@ != "type"@,
        "content"@ != "enum"@,
        "command"@ != "working_dir"@,
        "command"@ != "timeout"@,
        "command"@ != "url"@,
        "command"@ != "max_length"@,
        "command"@ != "query"@,
        "command"@ != "max_results"@,
        "command"@ != "pattern"@,
        "command"@ != "include"@,
        "command"@ != "op"@,
        "command"@ != "id"@,
        "command"@ != "status"@,
        "command"@ != "old_string"@,
        "command"@ != "new_string"@,
        "command"@ != "staged"@,
        "command"@ != "message"@,
        "command"@ != "description"@,
        "command"@ != "type"@,
        "command"@ != "enum"@,
        "working_dir"@ != "timeout"@,
        "working_dir"@ != "url"@,
        "working_dir"@ != "max_length"@,
        "working_dir"@ != "query"@,
        "working_dir"@ != "max_results"@,
        "working_dir"@ != "pattern"@,
        "working_dir"@ != "include"@,
        "working_dir"@ != "op"@,
        "working_dir"@ != "id"@,
        "working_dir"@ != "status"@,
        "working_dir"@ != "old_string"@,
        "working_dir"@ != "new_string"@,
        "working_dir"@ != "staged"@,
        "working_dir"@ != "message"@,
        "working_dir"@ != "description"@,
        "working_dir"@ != "type"@,
        "working_dir"@ != "enum"@,
        "timeout"@ != "url"@,
        "timeout"@ != "max_length"@,
        "timeout"@ != "query"@,
        "timeout"@ != "max_results"@,
        "timeout"@ != "pattern"@,
        "timeout"@ != "include"@,
        "timeout"@ != "op"@,
        "timeout"@ != "id"@,
        "timeout"@ != "status"@,
        "timeout"@ != "old_string"@,
        "timeout"@ != "new_string"@,
        "timeout"@ != "staged"@,
        "timeout"@ != "message"@,
        "timeout"@ != "description"@,
        "timeout"@ != "type"@,
        "timeout"@ != "enum"@,
        "url"@ != "max_length"@,
        "url"@ != "query"@,
        "url"@ != "max_results"@,
        "url"@ != "pattern"@,
        "url"@ != "include"@,
        "url"@ != "op"@,
        "url"@ != "id"@,
        "url"@ != "status"@,
        "url"@ != "old_string"@,
        "url"@ != "new_string"@,
        "url"@ != "staged"@,
        "url"@ != "message"@,
        "url"@ != "description"@,
        "url"@ != "type"@,
        "url"@ != "enum"@,
        "max_length"@ != "query"@,
        "max_length"@ != "max_results"@,
        "max_length"@ != "pattern"@,
        "max_length"@ != "include"@,
        "max_length"@ != "op"@,
        "max_length"@ != "id"@,
        "max_length"@ != "status"@,
        "max_length"@ != "old_string"@,
        "max_length"@ != "new_string"@,
        "max_length"@ != "staged"@,
        "max_length"@ != "message"@,
        "max_length"@ != "description"@,
        "max_length"@ != "type"@,
        "max_length"@ != "enum"@,
        "query"@ != "max_results"@,
        "query"@ != "pattern"@,
        "query"@ != "include"@,
        "query"@ != "op"@,
        "query"@ != "id"@,
        "query"@ != "status"@,
        "query"@ != "old_string"@,
        "query"@ != "new_string"@,
        "query"@ != "staged"@,
        "query"@ != "message"@,
        "query"@ != "description"@,
        "query"@ != "type"@,
        "query"@ != "enum"@,
        "max_results"@ != "pattern"@,
        "max_results"@ != "include"@,
        "max_results"@ != "op"@,
        "max_results"@ != "id"@,
        "max_results"@ != "status"@,
        "max_results"@ != "old_string"@,
        "max_results"@ != "new_string"@,
        "max_results"@ != "staged"@,
        "max_results"@ != "message"@,
        "max_results"@ != "description"@,
        "max_results"@ != "type"@,
        "max_results"@ != "enum"@,
        "pattern"@ != "include"@,
        "pattern"@ != "op"@,
        "pattern"@ != "id"@,
        "pattern"@ != "status"@,
        "pattern"@ != "old_string"@,
        "pattern"@ != "new_string"@,
        "pattern"@ != "staged"@,
        "pattern"@ != "message"@,
        "pattern"@ != "description"@,
        "pattern"@ != "type"@,
        "pattern"@ != "enum"@,
        "include"@ != "op"@,
        "include"@ != "id"@,
        "include"@ != "status"@,
        "include"@ != "old_string"@,
        "include"@ != "new_string"@,
        "include"@ != "staged"@,
        "include"@ != "message"@,
        "include"@ != "description"@,
        "include"@ != "type"@,
        "include"@ != "enum"@,
        "op"@ != "id"@,
        "op"@ != "status"@,
        "op"@ != "old_string"@,
        "op"@ != "new_string"@,
        "op"@ != "staged"@,
        "op"@ != "message"@,
        "op"@ != "description"@,
        "op"@ != "type"@,
        "op"@ != "enum"@,
        "id"@ != "status"@,
        "id"@ != "old_string"@,
        "id"@ != "new_string"@,
        "id"@ != "staged"@,
        "id"@ != "message"@,
        "id"@ != "description"@,
        "id"@ != "type"@,
        "id"@ != "enum"@,
        "status"@ != "old_string"@,
        "status"@ != "new_string"@,
        "status"@ != "staged"@,
        "status"@ != "message"@,
        "status"@ != "description"@,
        "status"@ != "type"@,
        "status"@ != "enum"@,
        "old_string"@ != "new_string"@,
        "old_string"@ != "staged"@,
        "old_string"@ != "message"@,
        "old_string"@ != "description"@,
        "old_string"@ != "type"@,
        "old_string"@ != "enum"@,
        "new_string"@ != "staged"@,
        "new_string"@ != "message"@,
        "new_string"@ != "description"@,
        "new_string"@ != "type"@,
        "new_string"@ != "enum"@,
        "staged"@ != "message"@,
        "staged"@ != "description"@,
        "staged"@ != "type"@,
        "staged"@ != "enum"@,
        "message"@ != "description"@,
        "message"@ != "type"@,
        "message"@ != "enum"@,
        "description"@ != "type"@,
        "description"@ != "enum"@,
        "type"@ != "enum"@,
{
    reveal_strlit("path");
    reveal_strlit("content");
    reveal_strlit("command");
    reveal_strlit("working_dir");
    reveal_strlit("timeout");
    reveal_strlit("url");
    reveal_strlit("max_length");
    reveal_strlit("query");
    reveal_strlit("max_results");
    reveal_strlit("pattern");
    reveal_strlit("include");
    reveal_strlit("op");
    reveal_strlit("id");
    reveal_strlit("status");
    reveal_strlit("old_string");
    reveal_strlit("new_string");
    reveal_strlit("staged");
    reveal_strlit("message");
    reveal_strlit("description");
    reveal_strlit("type");
    reveal_strlit("enum");
    assert("path"@.len() == 4);
    assert("content"@.len() == 7);
    assert("command"@.len() == 7);
    assert("working_dir"@.len() == 11);
    assert("timeout"@.len() == 7);
    assert("url"@.len() == 3);
    assert("max_length"@.len() == 10);
    assert("query"@.len() == 5);
    assert("max_results"@.len() == 11);
    assert("pattern"@.len() == 7);
    assert("include"@.len() == 7);
    assert("op"@.len() == 2);
    assert("id"@.len() == 2);
    assert("status"@.len() == 6);
    assert("old_string"@.len() == 10);
    assert("new_string"@.len() == 10);
    assert("staged"@.len() == 6);
    assert("message"@.len() == 7);
    assert("description"@.len() == 11);
    assert("type"@.len() == 4);
    assert("enum"@.len() == 4);
    assert("path"@[0] == 'p' && "type"@[0] == 't');
    assert("path"@[0] == 'p' && "enum"@[0] == 'e');
    assert("content"@[2] == 'n' && "command"@[2] == 'm');
    assert("content"@[0] == 'c' && "timeout"@[0] == 't');
    assert("content"@[0] == 'c' && "pattern"@[0] == 'p');
    assert("content"@[0] == 'c' && "include"@[0] == 'i');
    assert("content"@[0] == 'c' && "message"@[0] == 'm');
    assert("command"@[0] == 'c' && "timeout"@[0] == 't');
    assert("command"@[0] == 'c' && "pattern"@[0] == 'p');
    assert("command"@[0] == 'c' && "include"@[0] == 'i');
    assert("command"@[0] == 'c' && "message"@[0] == 'm');
    assert("working_dir"@[0] == 'w' && "max_results"@[0] == 'm');
    assert("working_dir"@[0] == 'w' && "description"@[0] == 'd');
    assert("timeout"@[0] == 't' && "pattern"@[0] == 'p');
    assert("timeout"@[0] == 't' && "include"@[0] == 'i');
    assert("timeout"@[0] == 't' && "message"@[0] == 'm');
    assert("max_length"@[0] == 'm' && "old_string"@[0] == 'o');
    assert("max_length"@[0] == 'm' && "new_string"@[0] == 'n');
    assert("max_results"@[0] == 'm' && "description"@[0] == 'd');
    assert("pattern"@[0] == 'p' && "include"@[0] == 'i');
    assert("pattern"@[0] == 'p' && "message"@[0] == 'm');
    assert("include"@[0] == 'i' && "message"@[0] == 'm');
    assert("op"@[0] == 'o' && "id"@[0] == 'i');
    assert("status"@[3] == 't' && "staged"@[3] == 'g');
    assert("old_string"@[0] == 'o' && "new_string"@[0] == 'n');
    assert("type"@[0] == 't' && "enum"@[0] == 'e');
}

/// A list of all names of a map has each of them once, and no other name.
pub proof fn lists_hold_every_name_once<T>(
    names: Seq<Seq<char>>,
    map: Map<Seq<char>, T>,
    name: Seq<char>,
)
    requires
        lists_all(names, map),
    ensures
        names.contains(name) <==> map.contains_key(name),
        forall|i: int, j: int|
            0 <= i < j < names.len() ==> #[trigger] names[i] != #[trigger] names[j],
{
    assert(names.to_set().contains(name) == map.dom().contains(name));
}

/// The operations on a list of tasks, and the states of a task, are offered as choices.
pub proof fn choices_are_offered()
    ensures
        ({
            let properties = default_registry().tools["todo_list"@].schema.parameters.at(
                "properties"@,
            );
            &&& properties.at("op"@).at("enum"@).elements() == seq![
                Json::Str("list"@),
                Json::Str("add"@),
                Json::Str("update"@),
                Json::Str("remove"@),
                Json::Str("clear"@),
            ]
            &&& properties.at("status"@).at("enum"@).elements() == seq![
                Json::Str("pending"@),
                Json::Str("in_progress"@),
                Json::Str("completed"@),
            ]
        }),
{
    broadcast use lemma_lookup_push;

    lemma_default_names_differ();
    lemma_schema_names();
    lemma_property_names();
    let names = default_names();
    assert(names[9] == "todo_list"@);
    assert(names[10] == "edit_file"@);
    assert(names[11] == "git_status"@);
    assert(names[12] == "git_diff"@);
    assert(names[13] == "git_commit"@);
    let properties = default_registry().tools["todo_list"@].schema.parameters.at("properties"@);
    assert(properties.at("op"@).at("enum"@).elements() =~= seq![
        Json::Str("list"@),
        Json::Str("add"@),
        Json::Str("update"@),
        Json::Str("remove"@),
        Json::Str("clear"@),
    ]);
    assert(properties.at("status"@).at("enum"@).elements() =~= seq![
        Json::Str("pending"@),
        Json::Str("in_progress"@),
        Json::Str("completed"@),
    ]);
}

} // verus!
